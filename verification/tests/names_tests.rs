use cargo_config::names;

#[test]
fn profile_file_name_appends_the_suffix() {
    assert_eq!(names::profile_file_name(&b"dev".to_vec()).as_slice(), b"dev.toml");
    assert_eq!(names::profile_file_name(&b"a".to_vec()).as_slice(), b"a.toml");
}

#[test]
fn display_name_cuts_before_the_first_suffix_occurrence() {
    assert_eq!(names::display_name(&b"foo.toml".to_vec()).as_slice(), b"foo");
    assert_eq!(names::display_name(&b"a.toml.toml".to_vec()).as_slice(), b"a");
    assert_eq!(names::display_name(&b".toml".to_vec()).as_slice(), b"");
    assert_eq!(names::display_name(&b"x.toml.bak".to_vec()).as_slice(), b"x");
}

#[test]
fn display_name_keeps_a_name_without_the_suffix_whole() {
    assert_eq!(
        names::display_name(&b"cargo-config-current".to_vec()).as_slice(),
        b"cargo-config-current"
    );
    assert_eq!(names::display_name(&b"x".to_vec()).as_slice(), b"x");
    assert_eq!(names::display_name(&b"".to_vec()).as_slice(), b"");
    assert_eq!(names::display_name(&b"toml".to_vec()).as_slice(), b"toml");
}

#[test]
fn filtered_names_drops_every_entry_displaying_as_the_reserved_name() {
    let entries: Vec<Vec<u8>> = vec![
        b"a.toml".to_vec(),
        b"cargo-config-current".to_vec(),
        b"b.toml".to_vec(),
        b"cargo-config-current.toml".to_vec(),
    ];
    let shown = names::filtered_names(&entries);
    let expected: Vec<Vec<u8>> = vec![b"a".to_vec(), b"b".to_vec()];
    assert_eq!(shown, expected);
}

#[test]
fn filtered_names_of_nothing_is_nothing() {
    let entries: Vec<Vec<u8>> = Vec::new();
    assert!(names::filtered_names(&entries).is_empty());
}

#[test]
fn error_messages_name_their_subject() {
    assert_eq!(
        names::not_exist_message_bytes(&b"ghost".to_vec()).as_slice(),
        b"ghost does not exist"
    );
    assert_eq!(
        names::already_exists_message_bytes(&b"dev.toml".to_vec()).as_slice(),
        b"dev.toml already exists"
    );
    assert_eq!(
        names::home_missing_message_bytes().as_slice(),
        b"Cargo directory could not be found"
    );
}

#[test]
fn paths_resolve_under_the_home_directory() {
    assert_eq!(
        names::cargo_dir_path(&b"/home/u".to_vec()).as_slice(),
        b"/home/u/.cargo"
    );
    assert_eq!(
        names::config_dir_path(&b"/home/u".to_vec()).as_slice(),
        b"/home/u/.cargo/cargo-config"
    );
    assert_eq!(
        names::join_path(&b"/home/u/.cargo".to_vec(), &b"config.toml".to_vec()).as_slice(),
        b"/home/u/.cargo/config.toml"
    );
    assert_eq!(
        names::join_path(
            &names::config_dir_path(&b"/home/u".to_vec()),
            &names::reserved_file_name()
        )
        .as_slice(),
        b"/home/u/.cargo/cargo-config/cargo-config-current"
    );
}

#[test]
fn byte_helpers_copy_compare_and_append() {
    let a = b"abc".to_vec();
    let copied = names::copy_bytes(&a);
    assert_eq!(copied, a);
    assert!(names::bytes_eq(&a, &copied));
    assert!(!names::bytes_eq(&a, &b"abd".to_vec()));
    assert!(!names::bytes_eq(&a, &b"ab".to_vec()));
    let mut joined = b"ab".to_vec();
    names::append_bytes(&mut joined, &b"cd".to_vec());
    assert_eq!(joined.as_slice(), b"abcd");
}

#[test]
fn executable_constants_match_their_names() {
    assert_eq!(names::toml_suffix_bytes().as_slice(), b".toml");
    assert_eq!(names::reserved_file_name().as_slice(), b"cargo-config-current");
    assert_eq!(names::config_profile_name().as_slice(), b"config");
}
