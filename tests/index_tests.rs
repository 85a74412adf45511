use ftindex::{
    ft_add_document, ft_commit, ft_delete_document, ft_query, new_ftindex, FTIndex, FtError,
    QueryOptions,
};

fn fresh_dir() -> (tempfile::TempDir, String) {
    let dir = tempfile::TempDir::new().unwrap();
    let path = dir.path().to_str().unwrap().to_string();
    (dir, path)
}

fn strings(items: &[&str]) -> Vec<String> {
    items.iter().map(|s| s.to_string()).collect()
}

fn open(fields: &[&str]) -> (tempfile::TempDir, Box<FTIndex>) {
    let (dir, path) = fresh_dir();
    (dir, new_ftindex(&path, &strings(fields)).unwrap())
}

fn add(ft: &mut FTIndex, id: i64, fields: &[&str], values: &[&str]) -> Result<(), FtError> {
    ft_add_document(ft, id, &strings(fields), &strings(values))
}

fn query(ft: &mut FTIndex, text: &str, top_n: usize) -> Result<Vec<(i64, f32)>, FtError> {
    let hits = ft_query(ft, &text.to_string(), &QueryOptions { top_n })?;
    Ok(hits.iter().map(|h| (h.id, f32::from_bits(h.score_bits))).collect())
}

#[test]
fn round_trip_single_document() {
    let (_dir, mut ft) = open(&["name"]);
    add(&mut ft, 1, &["name"], &["jack"]).unwrap();
    ft_commit(&mut ft).unwrap();
    let hits = query(&mut ft, "jack", 10).unwrap();
    assert_eq!(hits.len(), 1);
    assert_eq!(hits[0].0, 1);
    assert!(hits[0].1 > 0.0);
}

#[test]
fn uncommitted_documents_are_not_visible() {
    let (_dir, mut ft) = open(&["name"]);
    add(&mut ft, 1, &["name"], &["jack"]).unwrap();
    assert!(query(&mut ft, "jack", 10).unwrap().is_empty());
    ft_commit(&mut ft).unwrap();
    assert_eq!(query(&mut ft, "jack", 10).unwrap().len(), 1);
}

#[test]
fn unknown_field_is_rejected_and_buffer_kept() {
    let (_dir, mut ft) = open(&["name"]);
    add(&mut ft, 1, &["name"], &["jack"]).unwrap();
    assert_eq!(add(&mut ft, 2, &["age"], &["lucy"]), Err(FtError::UnknownField));
    assert_eq!(add(&mut ft, 3, &["id"], &["lucy"]), Err(FtError::UnknownField));
    ft_commit(&mut ft).unwrap();
    assert_eq!(query(&mut ft, "jack", 10).unwrap().len(), 1);
    assert!(query(&mut ft, "lucy", 10).unwrap().is_empty());
}

#[test]
fn empty_query_is_a_parse_error() {
    let (_dir, mut ft) = open(&["name"]);
    assert_eq!(query(&mut ft, "", 10), Err(FtError::QueryParseError));
}

#[test]
fn malformed_query_is_a_parse_error() {
    let (_dir, mut ft) = open(&["name"]);
    assert_eq!(query(&mut ft, "name:", 10), Err(FtError::QueryParseError));
}

#[test]
fn query_on_empty_index_is_empty() {
    let (_dir, mut ft) = open(&["name"]);
    assert_eq!(query(&mut ft, "jack", 10), Ok(vec![]));
}

#[test]
fn deleting_absent_id_changes_nothing() {
    let (_dir, mut ft) = open(&["name"]);
    add(&mut ft, 1, &["name"], &["jack"]).unwrap();
    ft_commit(&mut ft).unwrap();
    assert_eq!(ft_delete_document(&mut ft, 42), Ok(()));
    assert_eq!(ft_commit(&mut ft), Ok(()));
    let hits = query(&mut ft, "jack", 10).unwrap();
    assert_eq!(hits.iter().map(|h| h.0).collect::<Vec<_>>(), vec![1]);
}

#[test]
fn delete_removes_committed_document() {
    let (_dir, mut ft) = open(&["name"]);
    add(&mut ft, 1, &["name"], &["jack"]).unwrap();
    add(&mut ft, 2, &["name"], &["jack lucy"]).unwrap();
    ft_commit(&mut ft).unwrap();
    ft_delete_document(&mut ft, 1).unwrap();
    ft_commit(&mut ft).unwrap();
    let hits = query(&mut ft, "jack", 10).unwrap();
    assert_eq!(hits.iter().map(|h| h.0).collect::<Vec<_>>(), vec![2]);
}

#[test]
fn delete_then_add_same_id_keeps_the_add() {
    let (_dir, mut ft) = open(&["name"]);
    add(&mut ft, 1, &["name"], &["jack"]).unwrap();
    ft_commit(&mut ft).unwrap();
    ft_delete_document(&mut ft, 1).unwrap();
    add(&mut ft, 1, &["name"], &["lucy"]).unwrap();
    ft_commit(&mut ft).unwrap();
    assert!(query(&mut ft, "jack", 10).unwrap().is_empty());
    let hits = query(&mut ft, "lucy", 10).unwrap();
    assert_eq!(hits.iter().map(|h| h.0).collect::<Vec<_>>(), vec![1]);
}

#[test]
fn adding_same_id_twice_keeps_one_document() {
    let (_dir, mut ft) = open(&["name"]);
    add(&mut ft, 7, &["name"], &["jack"]).unwrap();
    add(&mut ft, 7, &["name"], &["jack again"]).unwrap();
    ft_commit(&mut ft).unwrap();
    let hits = query(&mut ft, "jack", 10).unwrap();
    assert_eq!(hits.iter().map(|h| h.0).collect::<Vec<_>>(), vec![7]);
}

#[test]
fn top_n_truncates_and_sorts() {
    let (_dir, mut ft) = open(&["name", "bio"]);
    for id in 1..=5i64 {
        let bio = vec!["rust"; id as usize].join(" ");
        add(&mut ft, id, &["name", "bio"], &["x", &bio]).unwrap();
    }
    ft_commit(&mut ft).unwrap();
    let hits = query(&mut ft, "rust", 3).unwrap();
    assert_eq!(hits.len(), 3);
    for w in hits.windows(2) {
        assert!(w[0].1 >= w[1].1);
    }
    assert_eq!(query(&mut ft, "rust", 10).unwrap().len(), 5);
}

#[test]
fn match_in_any_text_field_counts() {
    let (_dir, mut ft) = open(&["name", "city"]);
    add(&mut ft, 1, &["name"], &["jack"]).unwrap();
    add(&mut ft, 2, &["city"], &["jack"]).unwrap();
    ft_commit(&mut ft).unwrap();
    let mut ids: Vec<i64> = query(&mut ft, "jack", 10).unwrap().iter().map(|h| h.0).collect();
    ids.sort();
    assert_eq!(ids, vec![1, 2]);
}

#[test]
fn missing_directory_is_an_io_error() {
    let (_dir, path) = fresh_dir();
    let missing = format!("{}/never_created", path);
    let r = new_ftindex(&missing, &strings(&["name"]));
    assert!(matches!(r, Err(FtError::IOError)));
}

#[test]
fn reopen_keeps_committed_documents() {
    let (_dir, path) = fresh_dir();
    {
        let mut ft = new_ftindex(&path, &strings(&["name"])).unwrap();
        add(&mut ft, 3, &["name"], &["jack"]).unwrap();
        ft_commit(&mut ft).unwrap();
    }
    let mut ft = new_ftindex(&path, &strings(&["name"])).unwrap();
    let hits = query(&mut ft, "jack", 10).unwrap();
    assert_eq!(hits.iter().map(|h| h.0).collect::<Vec<_>>(), vec![3]);
}

#[test]
fn reopen_with_other_schema_is_a_mismatch() {
    let (_dir, path) = fresh_dir();
    {
        let _ft = new_ftindex(&path, &strings(&["name"])).unwrap();
    }
    let r = new_ftindex(&path, &strings(&["title"]));
    assert!(matches!(r, Err(FtError::SchemaMismatch)));
}

#[test]
fn invalid_field_lists_are_rejected() {
    let (_dir, path) = fresh_dir();
    for fields in [&[][..], &["id"][..], &["a", "a"][..], &[""][..], &["-x"][..]] {
        let r = new_ftindex(&path, &strings(fields));
        assert!(matches!(r, Err(FtError::SchemaMismatch)));
    }
}

#[test]
fn ties_at_the_cut_keep_the_lowest_ids() {
    let (_dir, mut ft) = open(&["name"]);
    for id in [10i64, 3, 7, 1, 5] {
        add(&mut ft, id, &["name"], &["same words"]).unwrap();
    }
    ft_commit(&mut ft).unwrap();
    let hits = query(&mut ft, "same", 2).unwrap();
    assert_eq!(hits.iter().map(|h| h.0).collect::<Vec<_>>(), vec![1, 3]);
    let all = query(&mut ft, "same", 10).unwrap();
    assert_eq!(all.iter().map(|h| h.0).collect::<Vec<_>>(), vec![1, 3, 5, 7, 10]);
}
