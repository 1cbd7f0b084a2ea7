use coral::world_path;
use std::path::Path;

#[test]
fn valid_world_name() {
    assert_eq!(world_path("world").unwrap(), Path::new("world"));
}

#[test]
fn invalid_world_name() {
    assert!(world_path("world/").is_err());
    assert!(world_path("world\\").is_err());
    assert!(world_path("/world").is_err());
    assert!(world_path("../world").is_err());
    assert!(world_path("foo/bar").is_err());
    assert!(world_path("./world").is_err());
    assert!(world_path("..").is_err());
    assert!(world_path(".").is_err());
    assert!(world_path("").is_err());
}

#[test]
fn world_path_error_is_invalid_input() {
    let err = world_path("a/b").unwrap_err();
    assert_eq!(err.kind(), std::io::ErrorKind::InvalidInput);
}

#[test]
fn world_path_error_names_the_world() {
    let err = world_path("a\"/b").unwrap_err();
    assert_eq!(
        err.to_string(),
        "Invalid world name \"a\\\"/b\": world_name must be a single directory name"
    );
}
