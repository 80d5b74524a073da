use robotica_backend::api::ResponseError as ApiResponseError;
use robotica_backend::http::{fallback_action, is_asset_file, serve_index_instead, FallbackAction, Manifest, ResponseError};

fn manifest() -> Manifest {
    Manifest {
        entries: vec![("index.html".to_string(), "index-1234.html".to_string()), ("app.js".to_string(), "app-99.js".to_string())],
        static_path: "/srv/static".to_string(),
    }
}

#[test]
fn http_manifest() {
    let m = manifest();
    assert_eq!(m.get_internal("app.js"), "app-99.js");
    assert_eq!(m.get_internal("missing.css"), "missing.css");
    assert_eq!(m.get_url("index.html"), "/index-1234.html");
    assert_eq!(m.get_path("index.html"), "/srv/static/index-1234.html");
}

#[test]
fn http_assets_and_fallback() {
    assert!(is_asset_file("/a/b.js"));
    assert!(is_asset_file("/font.woff2"));
    assert!(!is_asset_file("/page"));
    assert!(!is_asset_file("/data.json"));
    assert_eq!(fallback_action(false, "/page", true, true), FallbackAction::MethodNotAllowed);
    assert_eq!(fallback_action(true, "/page", false, true), FallbackAction::RedirectToLogin);
    assert_eq!(fallback_action(true, "/page", false, false), FallbackAction::LoginUnavailable);
    assert_eq!(fallback_action(true, "/x.css", false, false), FallbackAction::ServeStatic);
    assert_eq!(fallback_action(true, "/page", true, false), FallbackAction::ServeStatic);
    assert!(serve_index_instead(true, "/page"));
    assert!(!serve_index_instead(true, "/x.png"));
    assert!(!serve_index_instead(false, "/page"));
}

#[test]
fn http_refused_requests_are_answered() {
    assert_eq!(ResponseError::AuthenticationFailed.into_response(), (401, "Authentication failed".to_string()));
    assert_eq!(ResponseError::MethodNotAllowed.into_response(), (405, "Invalid method".to_string()));
    assert_eq!(ResponseError::internal_error("disk full").into_response(), (500, "Internal Server Error".to_string()));
    assert_eq!(ResponseError::bad_request("no id").into_response(), (400, "no id".to_string()));
    assert_eq!(ResponseError::OidcError.into_response(), (500, "OIDC Error".to_string()));
    assert_eq!(ResponseError::SqlError("locked".to_string()).into_response(), (500, "SQL Error".to_string()));
}

#[test]
fn api_refused_requests_are_answered() {
    assert_eq!(ApiResponseError::AuthenticationFailed.into_response(), (401, "Authentication failed".to_string()));
    assert_eq!(ApiResponseError::internal_error("x").into_response(), (500, "Internal error".to_string()));
    assert_eq!(ApiResponseError::SqlError("x".to_string()).into_response(), (500, "SQL Error".to_string()));
    assert_eq!(ApiResponseError::NotFoundError.into_response(), (404, "Not Found".to_string()));
}

#[test]
fn http_manifest_absolute_entry_replaces_directory() {
    let m = Manifest {
        entries: vec![("app.js".to_string(), "/opt/app.js".to_string())],
        static_path: "/srv/static".to_string(),
    };
    assert_eq!(m.get_path("app.js"), "/opt/app.js");
    assert_eq!(m.get_path("other.js"), "/srv/static/other.js");
}
