use cryptoscope::utils::path::{
    database_file, default_database_dir, get_allowed_parent_directories, get_safe_base_directory, normalize_path, validate_and_normalize_path,
    PathError,
};
use cryptoscope::error::CryptoScopeError;

#[test]
fn test_normalize_path_removes_parent_dirs() {
    let normalized = normalize_path("/tmp/../tmp/test.db");
    assert_eq!(normalized, "/tmp/test.db");
}

#[test]
fn test_normalize_path_removes_current_dir() {
    let normalized = normalize_path("/tmp/./test.db");
    assert_eq!(normalized, "/tmp/test.db");
}

#[test]
fn normalize_path_keeps_the_root() {
    assert_eq!(normalize_path("a/../../b"), "b");
    assert_eq!(normalize_path("/../etc"), "/etc");
    assert_eq!(normalize_path("/a/../../../etc/passwd"), "/etc/passwd");
    assert_eq!(normalize_path("a/./b/"), "a/b");
}

fn allowed() -> Vec<String> {
    vec!["/home/user/.local/share/cryptoscope".to_string(), "/srv/data".to_string()]
}

#[test]
fn test_validate_path_rejects_empty() {
    let result = validate_and_normalize_path("", "/base", &allowed());
    assert!(matches!(result, Err(PathError::EmptyPath)));
}

#[test]
fn test_validate_path_rejects_null_bytes() {
    let result = validate_and_normalize_path("/tmp/test\0.db", "/base", &allowed());
    assert!(matches!(result, Err(PathError::NullBytes)));
}

#[test]
fn test_validate_path_accepts_valid_relative_path() {
    let result = validate_and_normalize_path("./test.db", "/base/dir", &allowed());
    assert_eq!(result, Ok("/base/dir/test.db".to_string()));
}

#[test]
fn test_validate_path_accepts_valid_absolute_path() {
    let current_dir = "/work/project".to_string();
    let parents = get_allowed_parent_directories(None, Some(&current_dir));
    let result = validate_and_normalize_path("/work/project/test.db", "/base", &parents);
    assert!(result.is_ok());
}

#[test]
fn absolute_paths_outside_allowed_directories_are_refused() {
    let result = validate_and_normalize_path("/srv/data/../../etc/passwd", "/base", &allowed());
    assert_eq!(result, Err(PathError::NotInAllowedDirectory(allowed())));
    let ok = validate_and_normalize_path("/srv/data/sub/../x.db", "/base", &allowed());
    assert_eq!(ok, Ok("/srv/data/x.db".to_string()));
    let prefix_only = validate_and_normalize_path("/srv/database.db", "/base", &allowed());
    assert!(prefix_only.is_err());
}

#[test]
fn relative_paths_that_leave_the_base_are_refused() {
    let result = validate_and_normalize_path("../../../tmp/x.db", "/base/dir", &allowed());
    assert_eq!(result, Err(PathError::NotInAllowedDirectory(vec!["/base/dir".to_string()])));
    let inside = validate_and_normalize_path("sub/../x.db", "/base/dir", &allowed());
    assert_eq!(inside, Ok("/base/dir/x.db".to_string()));
    let dot_base = validate_and_normalize_path("x.db", ".", &allowed());
    assert_eq!(dot_base, Ok("x.db".to_string()));
}

#[test]
fn test_get_safe_base_directory_returns_absolute_path() {
    let base = get_safe_base_directory(None, Some("/home/u/.local/share"), Some("/cwd"));
    assert!(base.starts_with('/'));
    assert_eq!(base, "/home/u/.local/share/cryptoscope");
}

#[test]
fn safe_base_priority() {
    assert_eq!(get_safe_base_directory(Some("/configured"), Some("/d"), Some("/c")), "/configured");
    assert_eq!(get_safe_base_directory(Some("relative"), Some("/d"), Some("/c")), "/d/cryptoscope");
    assert_eq!(get_safe_base_directory(None, None, Some("/c")), "/c");
    assert_eq!(get_safe_base_directory(None, None, None), ".");
}

#[test]
fn test_get_allowed_parent_directories_not_empty() {
    let allowed = get_allowed_parent_directories(Some("/home/u/.local/share"), None);
    assert!(!allowed.is_empty());
    let both = get_allowed_parent_directories(Some("/d"), Some("/a:/b"));
    assert_eq!(both, vec!["/d/cryptoscope".to_string(), "/a".to_string(), "/b".to_string()]);
}

#[test]
fn path_error_messages() {
    assert_eq!(PathError::EmptyPath.message(), "Path cannot be empty");
    assert_eq!(PathError::NullBytes.message(), "Path contains null bytes");
    assert_eq!(
        PathError::NotInAllowedDirectory(vec!["/a".to_string()]).message(),
        "Path must be in an allowed directory: [\"/a\"]"
    );
    assert_eq!(PathError::IoError("denied".to_string()).message(), "IO error: denied");
    assert_eq!(
        PathError::EmptyPath.into_crypto_scope_error(),
        CryptoScopeError::DbInternal("Path cannot be empty".to_string())
    );
}

#[test]
fn default_database_location() {
    assert_eq!(default_database_dir(Some("/data"), Some("/home/u")), Ok("/data/cryptoscope".to_string()));
    assert_eq!(default_database_dir(None, Some("/home/u")), Ok("/home/u/cryptoscope".to_string()));
    assert_eq!(
        default_database_dir(None, None),
        Err(CryptoScopeError::DbInternal("No home directory found".to_string()))
    );
    assert_eq!(database_file("/data/cryptoscope"), "/data/cryptoscope/data.db");
}

#[test]
fn core_error_messages() {
    assert_eq!(CryptoScopeError::UnknownExchange("x".to_string()).message(), "Unknown exchange: x");
    assert_eq!(CryptoScopeError::HttpError("t".to_string()).message(), "HTTP request failed: t");
    assert_eq!(CryptoScopeError::ParseError("p".to_string()).message(), "JSON parsing failed: p");
    assert_eq!(CryptoScopeError::DbError("d".to_string()).message(), "Database error: d");
    assert_eq!(CryptoScopeError::DbInternal("i".to_string()).message(), "i");
    assert_eq!(
        CryptoScopeError::ApiError { code: 10001, message: "bad".to_string() }.message(),
        "API error code 10001: bad"
    );
}

#[test]
fn normalizing_twice_changes_nothing() {
    for p in ["/tmp/../tmp/./test.db", "a/../../b", "/../etc", "./x/./y/", "../../a/b/../c", "", "/"] {
        let once = normalize_path(p);
        assert_eq!(normalize_path(&once), once);
        assert!(!once.split('/').any(|c| c == "." || c == ".."));
    }
}
