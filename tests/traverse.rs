use dirwalk::traverse::entry_of;

#[test]
fn root_step_is_a_directory_entry() {
    let first = walkdir::WalkDir::new(".").into_iter().next().unwrap();
    let e = entry_of(first).unwrap();
    assert_eq!(e.path, ".");
    assert!(e.is_directory);
}

#[test]
fn failed_step_is_skipped() {
    let first = walkdir::WalkDir::new("./no/such/directory/here").into_iter().next().unwrap();
    assert!(first.is_err());
    assert!(entry_of(first).is_none());
}
