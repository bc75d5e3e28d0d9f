use yestergit::git_ops::{fetch_commits, logs_from_raw, GitFetchError, RawCommit};

fn create_commit(repo: &git2::Repository, message: &str, time_offset_secs: i64, author: &str) {
    let mut index = repo.index().unwrap();
    let tree_id = index.write_tree().unwrap();
    let tree = repo.find_tree(tree_id).unwrap();

    let time = git2::Time::new(chrono::Utc::now().timestamp() + time_offset_secs, 0);
    let signature = git2::Signature::new(author, "email@example.com", &time).unwrap();

    let parent_commits = match repo.head() {
        Ok(head) => vec![repo.find_commit(head.target().unwrap()).unwrap()],
        Err(_) => vec![],
    };
    let parents: Vec<&git2::Commit> = parent_commits.iter().collect();

    repo.commit(Some("HEAD"), &signature, &signature, message, &tree, &parents).unwrap();
}

fn setup_repo() -> (tempfile::TempDir, git2::Repository) {
    let temp_dir = tempfile::TempDir::new().unwrap();
    let repo = git2::Repository::init(temp_dir.path()).unwrap();
    (temp_dir, repo)
}

fn repo_path_string(temp_dir: &tempfile::TempDir) -> String {
    temp_dir.path().to_string_lossy().to_string()
}

#[test]
fn test_fetch_commits_basic() {
    let (temp_dir, repo) = setup_repo();

    create_commit(&repo, "Initial commit", -100, "Alice");
    create_commit(&repo, "Second commit", -50, "Bob");

    let since = chrono::Utc::now().timestamp() - 3600;
    let logs = fetch_commits(&repo_path_string(&temp_dir), since, &None).unwrap();

    assert_eq!(logs.len(), 2);
    assert_eq!(logs[0].message, "Second commit");
    assert_eq!(logs[1].message, "Initial commit");
}

#[test]
fn test_fetch_commits_time_filter() {
    let (temp_dir, repo) = setup_repo();

    create_commit(&repo, "Old commit", -3600 * 5, "Alice");
    create_commit(&repo, "New commit", -60, "Alice");

    let since = chrono::Utc::now().timestamp() - 3600;
    let logs = fetch_commits(&repo_path_string(&temp_dir), since, &None).unwrap();

    assert_eq!(logs.len(), 1);
    assert_eq!(logs[0].message, "New commit");
}

#[test]
fn test_fetch_commits_author_filter() {
    let (temp_dir, repo) = setup_repo();

    create_commit(&repo, "Alice commit", -100, "Alice");
    create_commit(&repo, "Bob commit", -50, "Bob");

    let since = chrono::Utc::now().timestamp() - 3600;

    let alice_logs =
        fetch_commits(&repo_path_string(&temp_dir), since, &Some("Alice".to_string())).unwrap();
    assert_eq!(alice_logs.len(), 1);
    assert_eq!(alice_logs[0].author, "Alice");

    let bob_logs =
        fetch_commits(&repo_path_string(&temp_dir), since, &Some("Bob".to_string())).unwrap();
    assert_eq!(bob_logs.len(), 1);
    assert_eq!(bob_logs[0].author, "Bob");
}

#[test]
fn fetch_commits_short_hash_and_first_line() {
    let (temp_dir, repo) = setup_repo();

    create_commit(&repo, "  First line  \nSecond line\n", -50, "Alice");

    let since = chrono::Utc::now().timestamp() - 3600;
    let logs = fetch_commits(&repo_path_string(&temp_dir), since, &None).unwrap();

    assert_eq!(logs.len(), 1);
    assert_eq!(logs[0].message, "First line");
    assert_eq!(logs[0].hash.len(), 7);
    assert!(logs[0].hash.chars().all(|c| c.is_ascii_hexdigit()));
}

#[test]
fn fetch_commits_unborn_head_is_empty() {
    let (temp_dir, _repo) = setup_repo();

    let since = chrono::Utc::now().timestamp() - 3600;
    let logs = fetch_commits(&repo_path_string(&temp_dir), since, &None).unwrap();

    assert_eq!(logs.len(), 0);
}

#[test]
fn fetch_commits_missing_repo_error() {
    let temp_dir = tempfile::TempDir::new().unwrap();
    let inner = temp_dir.path().join("nothing_here");
    let path = inner.to_string_lossy().to_string();

    let r = fetch_commits(&path, 0, &None);
    assert_eq!(r.unwrap_err(), GitFetchError::RepositoryNotFound);
}

fn raw(time: i64, author: &str, message: &str) -> RawCommit {
    RawCommit {
        time,
        author: Some(author.to_string()),
        message: Some(message.to_string()),
        id_hex: "0123456789abcdef0123456789abcdef01234567".to_string(),
    }
}

#[test]
fn monotonic_truncation_keeps_exactly_the_range() {
    // Commits at T1 < T2 < T3, given newest first; cutoff at T2.
    let t1 = 100;
    let t2 = 200;
    let t3 = 300;
    let commits = vec![raw(t3, "A", "c3"), raw(t2, "A", "c2"), raw(t1, "A", "c1")];

    let logs = logs_from_raw(&commits, t2, &None);

    assert_eq!(logs.len(), 2);
    assert_eq!(logs[0].message, "c3");
    assert_eq!(logs[0].date, t3);
    assert_eq!(logs[1].message, "c2");
    assert_eq!(logs[1].date, t2);
}

#[test]
fn truncation_stops_at_first_old_commit() {
    // The stop is a stop, not a filter: an in-range commit behind an older
    // one is not reported.
    let commits = vec![raw(300, "A", "new"), raw(50, "A", "old"), raw(250, "A", "in range")];

    let logs = logs_from_raw(&commits, 100, &None);

    assert_eq!(logs.len(), 1);
    assert_eq!(logs[0].message, "new");
}

#[test]
fn author_filter_is_case_insensitive_substring() {
    let commits = vec![raw(300, "Alice Smith", "c1")];

    assert_eq!(logs_from_raw(&commits, 0, &Some("alice".to_string())).len(), 1);
    assert_eq!(logs_from_raw(&commits, 0, &Some("Smith".to_string())).len(), 1);
    assert_eq!(logs_from_raw(&commits, 0, &Some("ALICE SMITH".to_string())).len(), 1);
    assert_eq!(logs_from_raw(&commits, 0, &Some("Bob".to_string())).len(), 0);
}

#[test]
fn author_filter_skips_but_does_not_stop() {
    let commits = vec![raw(300, "Bob", "b1"), raw(200, "Alice", "a1")];

    let logs = logs_from_raw(&commits, 0, &Some("alice".to_string()));

    assert_eq!(logs.len(), 1);
    assert_eq!(logs[0].message, "a1");
}

#[test]
fn missing_author_becomes_unknown() {
    let commits = vec![RawCommit {
        time: 300,
        author: None,
        message: Some("m".to_string()),
        id_hex: "0123456789abcdef0123456789abcdef01234567".to_string(),
    }];

    let logs = logs_from_raw(&commits, 0, &None);

    assert_eq!(logs[0].author, "Unknown");
    assert_eq!(logs[0].hash, "0123456");
}
