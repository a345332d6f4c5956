use cargo_config::errors::ErrorKind;
use cargo_config::store::ProfileStore;

#[test]
fn create_then_create_again_fails_with_already_exists() {
    let mut s = ProfileStore::new();
    assert!(s.create(&b"dev".to_vec()).is_ok());
    let err = s.create(&b"dev".to_vec()).unwrap_err();
    assert_eq!(err.kind, ErrorKind::AlreadyExists);
    assert_eq!(err.message_bytes().as_slice(), b"dev.toml already exists");
}

#[test]
fn create_switch_round_trip_reads_profile_content() {
    let mut s = ProfileStore::new();
    assert!(s.create(&b"dev".to_vec()).is_ok());
    assert!(s.write_profile(&b"dev".to_vec(), &b"[net]\noffline = true\n".to_vec()).is_ok());
    assert!(s.switch(&b"dev".to_vec()).is_ok());
    let through_link = s.active_config_content().unwrap();
    let in_profile = s.profile_content(&b"dev".to_vec()).unwrap();
    assert_eq!(through_link, in_profile);
    assert_eq!(through_link.as_slice(), b"[net]\noffline = true\n");
}

#[test]
fn switch_twice_replaces_pointer_and_link() {
    let mut s = ProfileStore::new();
    assert!(s.create(&b"a".to_vec()).is_ok());
    assert!(s.create(&b"b".to_vec()).is_ok());
    assert!(s.write_profile(&b"a".to_vec(), &b"A".to_vec()).is_ok());
    assert!(s.write_profile(&b"b".to_vec(), &b"B".to_vec()).is_ok());
    assert!(s.switch(&b"a".to_vec()).is_ok());
    assert!(s.switch(&b"b".to_vec()).is_ok());
    // The pointer holds exactly "b", not "ab" or any concatenation.
    assert_eq!(s.active_pointer().unwrap().as_slice(), b"b");
    // One configuration file, linked to b's profile file.
    assert!(s.has_active_config());
    assert_eq!(s.active_config_content().unwrap().as_slice(), b"B");
}

#[test]
fn remove_missing_profile_fails_with_not_found_naming_it() {
    let mut s = ProfileStore::new();
    let err = s.remove(&b"ghost".to_vec()).unwrap_err();
    assert_eq!(err.kind, ErrorKind::NotFound);
    assert_eq!(err.message_bytes().as_slice(), b"ghost does not exist");
}

#[test]
fn list_excludes_the_reserved_pointer_file_name() {
    let mut s = ProfileStore::new();
    assert!(s.create(&b"a".to_vec()).is_ok());
    assert!(s.create(&b"b".to_vec()).is_ok());
    assert!(s.create(&b"c".to_vec()).is_ok());
    // Switching creates the pointer file, which must never be listed.
    assert!(s.switch(&b"a".to_vec()).is_ok());
    let names = s.list().unwrap();
    let expected: Vec<Vec<u8>> = vec![b"a".to_vec(), b"b".to_vec(), b"c".to_vec()];
    assert_eq!(names, expected);
    for n in &names {
        assert_ne!(n.as_slice(), b"cargo-config-current");
    }
}

#[test]
fn list_without_pointer_file_fails() {
    let mut s = ProfileStore::new();
    assert!(s.create(&b"a".to_vec()).is_ok());
    let err = s.list().unwrap_err();
    assert_eq!(err.kind, ErrorKind::NotFound);
}

#[test]
fn initialisation_migrates_an_unmanaged_config() {
    let mut s = ProfileStore::with_unmanaged_config(b"[build]\njobs = 2\n".to_vec());
    assert!(s.initialise().is_ok());
    // The new profile holds the original bytes.
    assert_eq!(
        s.profile_content(&b"config".to_vec()).unwrap().as_slice(),
        b"[build]\njobs = 2\n"
    );
    // The pointer file holds "config".
    assert_eq!(s.active_pointer().unwrap().as_slice(), b"config");
    // The configuration file is hard-linked to the new profile.
    assert_eq!(s.active_config_content().unwrap().as_slice(), b"[build]\njobs = 2\n");
    // The listing shows the new profile and hides the pointer file.
    let listed = s.list().unwrap();
    assert_eq!(listed, vec![b"config".to_vec()]);
}

#[test]
fn initialisation_is_a_no_op_once_the_pointer_exists() {
    let mut s = ProfileStore::new();
    assert!(s.create(&b"a".to_vec()).is_ok());
    assert!(s.switch(&b"a".to_vec()).is_ok());
    assert!(s.initialise().is_ok());
    assert_eq!(s.active_pointer().unwrap().as_slice(), b"a");
}

#[test]
fn initialisation_is_a_no_op_with_nothing_to_migrate() {
    let mut s = ProfileStore::new();
    assert!(s.initialise().is_ok());
    assert!(!s.has_active_config());
    assert!(s.active_pointer().is_none());
}

#[test]
fn initialisation_fails_if_a_config_profile_already_exists() {
    let mut s = ProfileStore::with_unmanaged_config(b"old".to_vec());
    assert!(s.create(&b"config".to_vec()).is_ok());
    let err = s.initialise().unwrap_err();
    assert_eq!(err.kind, ErrorKind::AlreadyExists);
    assert_eq!(err.message_bytes().as_slice(), b"config.toml already exists");
}

#[test]
fn switching_between_distinct_profiles_reads_each_ones_content() {
    let mut s = ProfileStore::new();
    assert!(s.create(&b"a".to_vec()).is_ok());
    assert!(s.create(&b"b".to_vec()).is_ok());
    assert!(s.write_profile(&b"a".to_vec(), &b"A".to_vec()).is_ok());
    assert!(s.write_profile(&b"b".to_vec(), &b"B".to_vec()).is_ok());
    assert!(s.switch(&b"a".to_vec()).is_ok());
    assert_eq!(s.active_config_content().unwrap().as_slice(), b"A");
    assert!(s.switch(&b"b".to_vec()).is_ok());
    assert_eq!(s.active_config_content().unwrap().as_slice(), b"B");
    // The store holds a single configuration link: nothing reads "A" through
    // the package manager's path any more, while a's own file is intact.
    assert!(s.has_active_config());
    assert_eq!(s.profile_content(&b"a".to_vec()).unwrap().as_slice(), b"A");
}

#[test]
fn removing_the_active_profile_leaves_the_linked_data() {
    let mut s = ProfileStore::new();
    assert!(s.create(&b"a".to_vec()).is_ok());
    assert!(s.write_profile(&b"a".to_vec(), &b"A".to_vec()).is_ok());
    assert!(s.switch(&b"a".to_vec()).is_ok());
    assert!(s.remove(&b"a".to_vec()).is_ok());
    // The entry is gone, but the hard link keeps the data reachable.
    assert!(!s.profile_exists(&b"a".to_vec()));
    assert_eq!(s.active_config_content().unwrap().as_slice(), b"A");
}

#[test]
fn switch_to_a_missing_profile_fails_after_writing_the_pointer() {
    let mut s = ProfileStore::new();
    let err = s.switch(&b"nope".to_vec()).unwrap_err();
    assert_eq!(err.kind, ErrorKind::NotFound);
    assert_eq!(err.message_bytes().as_slice(), b"nope does not exist");
    // The pointer was written and the old link removed before the failure.
    assert_eq!(s.active_pointer().unwrap().as_slice(), b"nope");
    assert!(!s.has_active_config());
}

#[test]
fn editing_the_active_profile_shows_through_the_link() {
    let mut s = ProfileStore::new();
    assert!(s.create(&b"dev".to_vec()).is_ok());
    assert!(s.switch(&b"dev".to_vec()).is_ok());
    assert_eq!(s.active_config_content().unwrap().as_slice(), b"");
    assert!(s.write_profile(&b"dev".to_vec(), &b"edited".to_vec()).is_ok());
    assert_eq!(s.active_config_content().unwrap().as_slice(), b"edited");
}
