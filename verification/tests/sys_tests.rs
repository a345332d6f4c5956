use cargo_config::errors::ErrorKind;
use cargo_config::sys;

#[test]
fn a_missing_editor_is_reported_as_not_found() {
    let err = sys::resolve_editor("surely-no-such-editor-binary-zzz").unwrap_err();
    assert_eq!(err.kind, ErrorKind::NotFound);
    assert_eq!(err.message_bytes().as_slice(), b"cannot find binary path");
}

#[test]
fn an_existing_binary_resolves_to_a_path() {
    // `sh` is on the search path of any environment these tests run in.
    let path = sys::resolve_editor("sh").unwrap();
    assert!(!path.is_empty());
    assert_eq!(path[0], b'/');
}

#[test]
fn resolved_directories_lie_under_a_home_directory() {
    match sys::resolve_config_dir() {
        Ok(dir) => assert!(dir.ends_with(b"/.cargo/cargo-config")),
        Err(err) => {
            assert_eq!(err.kind, ErrorKind::NotFound);
            assert_eq!(err.message_bytes().as_slice(), b"Cargo directory could not be found");
        }
    }
    match sys::resolve_cargo_dir() {
        Ok(dir) => assert!(dir.ends_with(b"/.cargo")),
        Err(err) => assert_eq!(err.kind, ErrorKind::NotFound),
    }
}
