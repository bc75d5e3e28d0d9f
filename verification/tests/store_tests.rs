use yestergit::db::Database;

#[test]
fn empty_state_is_default() {
    let db = Database::default();
    assert_eq!(db.repositories.len(), 0);
    assert_eq!(db.entries.len(), 0);
}

#[test]
fn add_repos_registers_new_paths() {
    let mut db = Database::default();
    db.add_repos(vec!["/home/u/a".to_string(), "/home/u/b".to_string()]);
    assert_eq!(db.repositories, vec!["/home/u/a".to_string(), "/home/u/b".to_string()]);
}

#[test]
fn add_repos_is_idempotent() {
    let mut db = Database::default();
    let batch = vec!["/home/u/a".to_string(), "/home/u/b".to_string()];
    db.add_repos(batch.clone());
    let first = db.repositories.clone();
    db.add_repos(batch);
    assert_eq!(db.repositories, first);
    assert_eq!(db.repositories.len(), 2);
}

#[test]
fn add_repos_skips_duplicates_inside_a_batch() {
    let mut db = Database::default();
    db.add_repos(vec!["/r".to_string(), "/r".to_string(), "/s".to_string()]);
    assert_eq!(db.repositories, vec!["/r".to_string(), "/s".to_string()]);
}

#[test]
fn add_entry_appends_without_deduplicating() {
    let mut db = Database::default();
    db.add_entry("same text".to_string());
    db.add_entry("same text".to_string());
    assert_eq!(db.entries.len(), 2);
    assert_eq!(db.entries[0].message, "same text");
    assert_eq!(db.entries[1].message, "same text");
    assert_eq!(db.repositories.len(), 0);
}

#[test]
fn add_entry_at_keeps_given_time() {
    let mut db = Database::default();
    db.add_entry_at("note".to_string(), 1234);
    assert_eq!(db.entries[0].date, 1234);
}
