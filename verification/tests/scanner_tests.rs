use yestergit::scanner::{is_hidden_name, scan_repositories, DirNode};

fn dir(name: &str, has_git: bool, subdirs: Vec<DirNode>) -> DirNode {
    DirNode { name: name.to_string(), has_git, subdirs }
}

#[test]
fn hidden_names_are_dot_prefixed() {
    assert!(is_hidden_name(".git"));
    assert!(is_hidden_name(".hidden"));
    assert!(!is_hidden_name("."));
    assert!(!is_hidden_name(".."));
    assert!(!is_hidden_name("plain"));
    assert!(!is_hidden_name(""));
}

#[test]
fn scan_excludes_nested_and_hidden_repos() {
    // A/.git with A/sub/.git yields only A; .hidden/.git is never returned.
    let tree = dir(
        "base",
        false,
        vec![
            dir("A", true, vec![dir("sub", true, vec![])]),
            dir(".hidden", true, vec![]),
        ],
    );

    let repos = scan_repositories(&"/base".to_string(), &tree);

    assert_eq!(repos, vec!["/base/A".to_string()]);
}

#[test]
fn scan_root_with_git_is_the_single_repository() {
    let tree = dir("base", true, vec![dir("inner", true, vec![])]);
    let repos = scan_repositories(&"/somewhere/base".to_string(), &tree);
    assert_eq!(repos, vec!["/somewhere/base".to_string()]);
}

#[test]
fn scan_descends_through_plain_directories() {
    let tree = dir(
        "base",
        false,
        vec![dir("work", false, vec![dir("one", true, vec![]), dir("two", true, vec![])])],
    );

    let repos = scan_repositories(&"/base".to_string(), &tree);

    assert_eq!(repos, vec!["/base/work/one".to_string(), "/base/work/two".to_string()]);
}

#[test]
fn scan_of_empty_tree_finds_nothing() {
    let tree = dir("base", false, vec![]);
    let repos = scan_repositories(&"/base".to_string(), &tree);
    assert_eq!(repos.len(), 0);
}
