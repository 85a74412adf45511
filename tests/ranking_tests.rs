use ftindex::{rank_hits, validate_field_names, FtError, IdScore};

fn hit(id: i64, score: f32) -> IdScore {
    IdScore { id, score_bits: score.to_bits() }
}

#[test]
fn rank_hits_orders_by_score_then_id() {
    let hits = vec![hit(5, 1.0), hit(2, 3.5), hit(9, 1.0), hit(1, 1.0), hit(4, 2.0)];
    let r = rank_hits(&hits, 10);
    let ids: Vec<i64> = r.iter().map(|h| h.id).collect();
    assert_eq!(ids, vec![2, 4, 1, 5, 9]);
}

#[test]
fn rank_hits_truncates_to_top_n() {
    let hits = vec![hit(5, 1.0), hit(2, 3.5), hit(9, 0.5), hit(1, 1.0), hit(4, 2.0)];
    let r = rank_hits(&hits, 3);
    assert_eq!(r, vec![hit(2, 3.5), hit(4, 2.0), hit(1, 1.0)]);
}

#[test]
fn rank_hits_on_empty_and_zero() {
    assert_eq!(rank_hits(&vec![], 4), vec![]);
    assert_eq!(rank_hits(&vec![hit(1, 1.0)], 0), vec![]);
}

#[test]
fn field_name_validation() {
    let s = |v: &[&str]| v.iter().map(|x| x.to_string()).collect::<Vec<String>>();
    assert_eq!(validate_field_names(&s(&["name", "city"])), Ok(()));
    assert_eq!(validate_field_names(&s(&[])), Err(FtError::SchemaMismatch));
    assert_eq!(validate_field_names(&s(&["name", "id"])), Err(FtError::SchemaMismatch));
    assert_eq!(validate_field_names(&s(&["name", "name"])), Err(FtError::SchemaMismatch));
    assert_eq!(validate_field_names(&s(&["-name"])), Err(FtError::SchemaMismatch));
    assert_eq!(validate_field_names(&s(&[""])), Err(FtError::SchemaMismatch));
    assert_eq!(validate_field_names(&s(&["identity", "i-d"])), Ok(()));
}
