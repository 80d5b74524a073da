//! The web front end's static files: the manifest that names the built
//! files, which requests are for assets, and what an unmatched request gets;
//! and what a refused request is answered.
use vstd::prelude::*;
use crate::text::{copy_string, push_char, push_str, string_of};

verus! {

broadcast use vstd::string::group_string_axioms;

/// An error running the web service.
#[derive(Debug, PartialEq)]
pub enum HttpError {
    /// An I/O error, with its text.
    Io(String),
}

/// Why a web request was refused.
#[derive(Debug)]
pub enum ResponseError {
    /// The user could not be authenticated.
    AuthenticationFailed,
    /// The method is not allowed here.
    MethodNotAllowed,
    /// Something went wrong inside; the text is logged, not shown.
    InternalError(String),
    /// The request is malformed; the text is shown.
    BadRequest(String),
    /// The database failed, with its error's text; logged, not shown.
    SqlError(String),
    /// Logging in with the identity provider failed.
    OidcError,
}

impl ResponseError {
    /// An internal error with this text.
    pub fn internal_error(message: &str) -> (e: ResponseError)
        ensures
            e matches ResponseError::InternalError(m) && m@ == message@,
    {
        ResponseError::InternalError(string_of(message))
    }

    /// A malformed request, with this text.
    pub fn bad_request(message: &str) -> (e: ResponseError)
        ensures
            e matches ResponseError::BadRequest(m) && m@ == message@,
    {
        ResponseError::BadRequest(string_of(message))
    }

    /// The status code and body answered: 401, 405, 400 with the request's
    /// own text, and 500 for the rest, whose details are not shown.
    pub fn into_response(self) -> (r: (u16, String))
        ensures
            match self {
                ResponseError::AuthenticationFailed => r.0 == 401 && r.1@ == "Authentication failed"@,
                ResponseError::MethodNotAllowed => r.0 == 405 && r.1@ == "Invalid method"@,
                ResponseError::InternalError(_) => r.0 == 500 && r.1@ == "Internal Server Error"@,
                ResponseError::BadRequest(m) => r.0 == 400 && r.1@ == m@,
                ResponseError::OidcError => r.0 == 500 && r.1@ == "OIDC Error"@,
                ResponseError::SqlError(_) => r.0 == 500 && r.1@ == "SQL Error"@,
            },
    {
        match self {
            ResponseError::AuthenticationFailed => (401, string_of("Authentication failed")),
            ResponseError::MethodNotAllowed => (405, string_of("Invalid method")),
            ResponseError::InternalError(_) => (500, string_of("Internal Server Error")),
            ResponseError::BadRequest(m) => (400, m),
            ResponseError::OidcError => (500, string_of("OIDC Error")),
            ResponseError::SqlError(_) => (500, string_of("SQL Error")),
        }
    }
}

/// The manifest of the built front end: the file each name is built to, and
/// the directory of the files.
#[derive(Debug)]
pub struct Manifest {
    /// The built file of each name.
    pub entries: Vec<(String, String)>,
    /// The directory of the static files.
    pub static_path: String,
}

/// The file a name is built to: the first entry for the name, or the name
/// itself when there is none.
pub open spec fn spec_get_internal(entries: Seq<(Seq<char>, Seq<char>)>, key: Seq<char>) -> Seq<char>
    decreases entries.len(),
{
    if entries.len() == 0 {
        key
    } else if entries[0].0 == key {
        entries[0].1
    } else {
        spec_get_internal(entries.drop_first(), key)
    }
}

/// The entries of a manifest.
pub open spec fn entries_view(v: Seq<(String, String)>) -> Seq<(Seq<char>, Seq<char>)> {
    v.map_values(|p: (String, String)| (p.0@, p.1@))
}

/// The path that `std::path::Path::join` makes of a directory and a file name.
pub uninterp spec fn path_join(dir: Seq<char>, name: Seq<char>) -> Seq<char>;

/// Does the text start with `/`?
pub open spec fn is_absolute(path: Seq<char>) -> bool {
    path.len() > 0 && path[0] == '/'
}

/// `std::path::Path::join`, as text: the contract names the result, which
/// depends on the two arguments alone, and states what its documentation
/// says: an absolute name replaces the directory, and a relative name is
/// added to a directory after a separator. The separator is `/`, so these
/// clauses hold on Unix, the platform the service runs on; on Windows the
/// separator is `\` and the second clause does not hold.
#[verifier::external_body]
fn join_path(dir: &str, name: &str) -> (p: String)
    ensures
        p@ == path_join(dir@, name@),
        is_absolute(name@) ==> p@ == name@,
        !is_absolute(name@) && dir@.len() > 0 && dir@.last() != '/' ==> p@ == dir@ + seq!['/'] + name@,
{
    std::path::Path::new(dir).join(name).to_string_lossy().into_owned()
}

impl Manifest {
    /// The file a name is built to: see `spec_get_internal`.
    pub fn get_internal(&self, key: &str) -> (r: String)
        ensures
            r@ == spec_get_internal(entries_view(self.entries@), key@),
    {
        let ghost m = entries_view(self.entries@);
        let k = string_of(key);
        let mut i: usize = 0;
        assert(m.skip(0) =~= m);
        while i < self.entries.len()
            invariant
                i <= self.entries@.len(),
                m == entries_view(self.entries@),
                k@ == key@,
                spec_get_internal(m, key@) == spec_get_internal(m.skip(i as int), key@),
            decreases self.entries@.len() - i,
        {
            assert(m.skip(i as int).drop_first() =~= m.skip(i as int + 1));
            assert(m.skip(i as int)[0] == (self.entries@[i as int].0@, self.entries@[i as int].1@));
            if self.entries[i].0 == k {
                return copy_string(&self.entries[i].1);
            }
            i = i + 1;
        }
        assert(m.skip(i as int) =~= Seq::<(Seq<char>, Seq<char>)>::empty());
        k
    }

    /// The path of the file a name is built to, within the static directory.
    pub fn get_path(&self, key: &str) -> (p: String)
        ensures
            p@ == path_join(self.static_path@, spec_get_internal(entries_view(self.entries@), key@)),
            ({
                let name = spec_get_internal(entries_view(self.entries@), key@);
                &&& is_absolute(name) ==> p@ == name
                &&& !is_absolute(name) && self.static_path@.len() > 0 && self.static_path@.last() != '/'
                    ==> p@ == self.static_path@ + seq!['/'] + name
            }),
    {
        let name = self.get_internal(key);
        join_path(self.static_path.as_str(), name.as_str())
    }

    /// The URL of the file a name is built to: `/` and the file.
    pub fn get_url(&self, key: &str) -> (u: String)
        ensures
            u@ == seq!['/'] + spec_get_internal(entries_view(self.entries@), key@),
    {
        let name = self.get_internal(key);
        let mut u = String::new();
        push_char(&mut u, '/');
        push_str(&mut u, name.as_str());
        u
    }
}

/// The endings of asset files.
pub open spec fn asset_suffixes() -> Seq<Seq<char>> {
    seq![".js"@, ".css"@, ".png"@, ".jpg"@, ".jpeg"@, ".svg"@, ".ico"@, ".woff2"@, "*.json"@]
}

/// Does `s` end with `suffix`?
pub open spec fn ends_with(s: Seq<char>, suffix: Seq<char>) -> bool {
    suffix.len() <= s.len() && s.subrange(s.len() - suffix.len(), s.len() as int) == suffix
}

fn ends_with_exec(s: &Vec<char>, suffix: &str) -> (b: bool)
    ensures
        b == ends_with(s@, suffix@),
{
    let mut t: Vec<char> = Vec::new();
    for c in it: suffix.chars()
        invariant
            t@ == it.seq().take(it.index()),
    {
        t.push(c);
    }
    assert(t@ == suffix@);
    if t.len() > s.len() {
        return false;
    }
    let off = s.len() - t.len();
    let mut i: usize = 0;
    while i < t.len()
        invariant
            i <= t@.len(),
            t@ == suffix@,
            off + t@.len() == s@.len(),
            s@.len() <= usize::MAX,
            forall|j: int| 0 <= j < i ==> s@[off + j] == t@[j],
        decreases t@.len() - i,
    {
        if s[off + i] != t[i] {
            assert(s@.subrange(off as int, s@.len() as int)[i as int] != t@[i as int]);
            return false;
        }
        i = i + 1;
    }
    assert(s@.subrange(off as int, s@.len() as int) =~= t@);
    true
}

/// Is the path that of an asset file?
pub fn is_asset_file(path: &str) -> (b: bool)
    ensures
        b == exists|i: int| 0 <= i < asset_suffixes().len() && ends_with(path@, #[trigger] asset_suffixes()[i]),
{
    let mut s: Vec<char> = Vec::new();
    for c in it: path.chars()
        invariant
            s@ == it.seq().take(it.index()),
    {
        s.push(c);
    }
    assert(s@ == path@);
    let r = ends_with_exec(&s, ".js") || ends_with_exec(&s, ".css") || ends_with_exec(&s, ".png")
        || ends_with_exec(&s, ".jpg") || ends_with_exec(&s, ".jpeg") || ends_with_exec(&s, ".svg")
        || ends_with_exec(&s, ".ico") || ends_with_exec(&s, ".woff2") || ends_with_exec(&s, "*.json");
    proof {
        let a = asset_suffixes();
        if r {
            if ends_with(path@, ".js"@) { assert(ends_with(path@, a[0])); }
            else if ends_with(path@, ".css"@) { assert(ends_with(path@, a[1])); }
            else if ends_with(path@, ".png"@) { assert(ends_with(path@, a[2])); }
            else if ends_with(path@, ".jpg"@) { assert(ends_with(path@, a[3])); }
            else if ends_with(path@, ".jpeg"@) { assert(ends_with(path@, a[4])); }
            else if ends_with(path@, ".svg"@) { assert(ends_with(path@, a[5])); }
            else if ends_with(path@, ".ico"@) { assert(ends_with(path@, a[6])); }
            else if ends_with(path@, ".woff2"@) { assert(ends_with(path@, a[7])); }
            else { assert(ends_with(path@, a[8])); }
        }
    }
    r
}

/// What a request that no route takes gets.
#[derive(Clone, Copy, Debug, PartialEq, Eq, Structural)]
pub enum FallbackAction {
    /// Only `GET` is served.
    MethodNotAllowed,
    /// The user must log in, but the login service is not available.
    LoginUnavailable,
    /// Send the user to log in, coming back to the same page.
    RedirectToLogin,
    /// Serve the file from the static directory.
    ServeStatic,
}

/// What a request that no route takes gets: only `GET` is served; a page
/// (not an asset) needs a logged in user, and others are sent to log in
/// when the login service is available.
pub open spec fn spec_fallback(is_get: bool, asset: bool, has_user: bool, login_available: bool) -> FallbackAction {
    if !is_get {
        FallbackAction::MethodNotAllowed
    } else if !asset && !has_user {
        if login_available { FallbackAction::RedirectToLogin } else { FallbackAction::LoginUnavailable }
    } else {
        FallbackAction::ServeStatic
    }
}

/// What a request that no route takes gets: see `spec_fallback`.
pub fn fallback_action(is_get: bool, path: &str, has_user: bool, login_available: bool) -> (a: FallbackAction)
    ensures
        a == spec_fallback(is_get, exists|i: int| 0 <= i < asset_suffixes().len() && ends_with(path@, #[trigger] asset_suffixes()[i]),
            has_user, login_available),
{
    if !is_get {
        return FallbackAction::MethodNotAllowed;
    }
    let asset = is_asset_file(path);
    if !asset && !has_user {
        if login_available { FallbackAction::RedirectToLogin } else { FallbackAction::LoginUnavailable }
    } else {
        FallbackAction::ServeStatic
    }
}

/// Should a missing static file be answered with the front end's index page?
/// For pages yes, so that the front end can route them; for assets no.
pub fn serve_index_instead(not_found: bool, path: &str) -> (b: bool)
    ensures
        b == (not_found && !exists|i: int| 0 <= i < asset_suffixes().len() && ends_with(path@, #[trigger] asset_suffixes()[i])),
{
    not_found && !is_asset_file(path)
}

} // verus!
