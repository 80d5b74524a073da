//! Names and MQTT topics of devices, and the file names of persistent state.
use vstd::prelude::*;
use crate::text::{copy_string, push_char, push_str, string_of};

verus! {

broadcast use vstd::string::group_string_axioms;

/// A device at a location.
#[derive(Debug)]
pub struct Id {
    /// The location.
    pub location: String,
    /// The device.
    pub device: String,
}

/// `parts` joined with `sep` between them.
pub open spec fn join(parts: Seq<Seq<char>>, sep: char) -> Seq<char>
    decreases parts.len(),
{
    if parts.len() == 0 {
        Seq::empty()
    } else if parts.len() == 1 {
        parts[0]
    } else {
        join(parts.drop_last(), sep) + seq![sep] + parts.last()
    }
}

impl Id {
    /// The device `device` at `location`.
    pub fn new(location: &str, device: &str) -> (id: Id)
        ensures
            id.location@ == location@,
            id.device@ == device@,
    {
        Id { location: string_of(location), device: string_of(device) }
    }

    /// The name `location_device_postfix`.
    pub fn get_name(&self, postfix: &str) -> (name: String)
        ensures
            name@ == self.location@ + seq!['_'] + self.device@ + seq!['_'] + postfix@,
    {
        let mut name = copy_string(&self.location);
        push_char(&mut name, '_');
        push_str(&mut name, self.device.as_str());
        push_char(&mut name, '_');
        push_str(&mut name, postfix);
        name
    }

    /// The state topic `state/location/device/component`.
    pub fn get_state_topic(&self, component: &str) -> (topic: String)
        ensures
            topic@ == "state/"@ + self.location@ + seq!['/'] + self.device@ + seq!['/'] + component@,
    {
        let mut topic = string_of("state/");
        push_str(&mut topic, self.location.as_str());
        push_char(&mut topic, '/');
        push_str(&mut topic, self.device.as_str());
        push_char(&mut topic, '/');
        push_str(&mut topic, component);
        topic
    }

    /// The command topic `command/location/device`, followed by `/` and the
    /// parameters joined by `/` when that join is not empty.
    pub fn get_command_topic(&self, params: &[&str]) -> (topic: String)
        ensures
            ({
                let joined = join(params@.map_values(|p: &str| p@), '/');
                let base = "command/"@ + self.location@ + seq!['/'] + self.device@;
                topic@ == if joined.len() == 0 { base } else { base + seq!['/'] + joined }
            }),
    {
        let ghost ps = params@.map_values(|p: &str| p@);
        let mut joined = String::new();
        let mut i: usize = 0;
        while i < params.len()
            invariant
                i <= params@.len(),
                ps == params@.map_values(|p: &str| p@),
                joined@ == join(ps.take(i as int), '/'),
            decreases params@.len() - i,
        {
            assert(ps.take(i as int + 1).drop_last() =~= ps.take(i as int));
            if i > 0 {
                push_char(&mut joined, '/');
            } else {
                assert(ps.take(1) =~= seq![ps[0]]);
            }
            let ghost before = joined@;
            push_str(&mut joined, params[i]);
            assert(ps[i as int] == params@[i as int]@);
            i = i + 1;
        }
        assert(ps.take(i as int) =~= ps);
        let mut topic = string_of("command/");
        push_str(&mut topic, self.location.as_str());
        push_char(&mut topic, '/');
        push_str(&mut topic, self.device.as_str());
        if !joined.as_str().is_empty() {
            push_char(&mut topic, '/');
            push_str(&mut topic, joined.as_str());
        }
        topic
    }
}

/// The name with each `/` replaced by `_`.
pub open spec fn replace_slashes(name: Seq<char>) -> Seq<char> {
    name.map_values(|c: char| if c == '/' { '_' } else { c })
}

/// Where persistent state is saved: a directory.
#[derive(Debug)]
pub struct PersistentStateDatabase {
    /// The directory.
    pub path: String,
}

/// Where one piece of persistent state is saved: a file in a directory.
#[derive(Debug)]
pub struct PersistentStateRow {
    /// The directory.
    pub dir: String,
    /// The file name within it.
    pub file_name: String,
}

impl PersistentStateRow {
    /// The file `file_name` in `dir`.
    pub fn new(dir: String, file_name: String) -> (r: PersistentStateRow)
        ensures
            r.dir == dir,
            r.file_name == file_name,
    {
        PersistentStateRow { dir, file_name }
    }
}

impl PersistentStateDatabase {
    /// The state kept in directory `path`.
    pub fn new(path: String) -> (d: PersistentStateDatabase)
        ensures
            d.path == path,
    {
        PersistentStateDatabase { path }
    }

    /// The row of a name: the file `name.json` in the directory, each `/` of
    /// the name replaced by `_`.
    pub fn for_name(&self, name: &str) -> (r: PersistentStateRow)
        ensures
            r.dir@ == self.path@,
            r.file_name@ == replace_slashes(name@) + ".json"@,
    {
        let mut file_name = String::new();
        for c in it: name.chars()
            invariant
                file_name@ == replace_slashes(it.seq().take(it.index())),
        {
            push_char(&mut file_name, if c == '/' { '_' } else { c });
            assert(replace_slashes(it.seq().take(it.index() + 1))
                =~= replace_slashes(it.seq().take(it.index())).push(if c == '/' { '_' } else { c }));
        }
        push_str(&mut file_name, ".json");
        PersistentStateRow::new(copy_string(&self.path), file_name)
    }
}

} // verus!
