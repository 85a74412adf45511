use ftindex::{FtError, IndexRegistry};

fn strings(items: &[&str]) -> Vec<String> {
    items.iter().map(|s| s.to_string()).collect()
}

fn temp_path(dir: &tempfile::TempDir) -> String {
    dir.path().to_str().unwrap().to_string()
}

#[test]
fn registry_runs_operations_by_handle() {
    let d1 = tempfile::TempDir::new().unwrap();
    let d2 = tempfile::TempDir::new().unwrap();
    let mut reg = IndexRegistry::new();
    let a = reg.create_index(&temp_path(&d1), &strings(&["name"])).unwrap();
    let b = reg.create_index(&temp_path(&d2), &strings(&["title"])).unwrap();
    assert_ne!(a, b);
    reg.add_document(a, 1, &strings(&["name"]), &strings(&["jack"])).unwrap();
    reg.add_document(b, 2, &strings(&["title"]), &strings(&["jack"])).unwrap();
    reg.commit(a).unwrap();
    reg.commit(b).unwrap();
    let ha: Vec<i64> = reg.query(a, &"jack".to_string(), 10).unwrap().iter().map(|h| h.id).collect();
    let hb: Vec<i64> = reg.query(b, &"jack".to_string(), 10).unwrap().iter().map(|h| h.id).collect();
    assert_eq!(ha, vec![1]);
    assert_eq!(hb, vec![2]);
    reg.delete_document(a, 1).unwrap();
    reg.commit(a).unwrap();
    assert!(reg.query(a, &"jack".to_string(), 10).unwrap().is_empty());
    assert_eq!(
        reg.add_document(b, 3, &strings(&["name"]), &strings(&["x"])),
        Err(FtError::UnknownField)
    );
    assert_eq!(reg.query(b, &"".to_string(), 10), Err(FtError::QueryParseError));
}

#[test]
fn registry_rejects_unknown_and_closed_handles() {
    let d = tempfile::TempDir::new().unwrap();
    let mut reg = IndexRegistry::new();
    assert_eq!(reg.commit(0), Err(FtError::UnknownHandle));
    let h = reg.create_index(&temp_path(&d), &strings(&["name"])).unwrap();
    assert!(reg.close(h));
    assert!(!reg.close(h));
    assert_eq!(reg.delete_document(h, 1), Err(FtError::UnknownHandle));
    assert_eq!(reg.query(h, &"jack".to_string(), 10), Err(FtError::UnknownHandle));
    assert_eq!(
        reg.add_document(h, 1, &strings(&["name"]), &strings(&["jack"])),
        Err(FtError::UnknownHandle)
    );
}

#[test]
fn registry_create_with_bad_fields_is_a_mismatch() {
    let d = tempfile::TempDir::new().unwrap();
    let mut reg = IndexRegistry::new();
    assert_eq!(reg.create_index(&temp_path(&d), &strings(&[])), Err(FtError::SchemaMismatch));
}
