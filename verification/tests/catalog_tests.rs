use gitcode_engine::catalog::{
    error_label, GitError, RepoManager, RepoStatus, Repository, Searchable, SYNCED_SIZE_KB,
};

#[test]
fn new_repository_is_unsynced_and_empty() {
    let repo = Repository::new(1, "tokio", "https://github.com/tokio-rs/tokio");
    assert_eq!(repo.id, 1);
    assert_eq!(repo.name, "tokio");
    assert_eq!(repo.url, "https://github.com/tokio-rs/tokio");
    assert_eq!(repo.status, RepoStatus::Unsynced);
    assert_eq!(repo.size_kb, 0);
}

#[test]
fn sync_of_a_good_url_succeeds() {
    let mut repo = Repository::new(2, "actix", "https://github.com/actix/actix");
    assert_eq!(repo.sync(), Ok(()));
    assert_eq!(repo.status, RepoStatus::Synced);
    assert_eq!(repo.size_kb, 1024);
    assert_eq!(SYNCED_SIZE_KB, 1024);
    assert_eq!(repo.id, 2);
    assert_eq!(repo.name, "actix");
    assert_eq!(repo.url, "https://github.com/actix/actix");
}

#[test]
fn sync_of_a_refused_url_fails_with_not_found() {
    let mut repo = Repository::new(3, "broken-repo", "https://invalid.url/test");
    assert_eq!(repo.sync(), Err(GitError::NotFound));
    assert_eq!(repo.status, RepoStatus::Error("Invalid URL".to_string()));
    assert_eq!(repo.size_kb, 0);
    assert_eq!(repo.url, "https://invalid.url/test");
}

#[test]
fn sync_looks_for_the_marker_anywhere_and_in_lower_case_only() {
    let mut tail = Repository::new(1, "a", "https://host/path/invalid");
    assert_eq!(tail.sync(), Err(GitError::NotFound));
    let mut exact = Repository::new(2, "b", "invalid");
    assert_eq!(exact.sync(), Err(GitError::NotFound));
    let mut upper = Repository::new(3, "c", "https://INVALID.url/test");
    assert_eq!(upper.sync(), Ok(()));
    let mut split = Repository::new(4, "d", "https://inval.id/test");
    assert_eq!(split.sync(), Ok(()));
    let mut empty = Repository::new(5, "e", "");
    assert_eq!(empty.sync(), Ok(()));
}

#[test]
fn a_failed_sync_keeps_the_size_of_an_earlier_one() {
    let mut repo = Repository::new(1, "a", "https://host/a");
    repo.sync().unwrap();
    repo.url = "https://invalid/a".to_string();
    assert_eq!(repo.sync(), Err(GitError::NotFound));
    assert_eq!(repo.size_kb, 1024);
    assert_eq!(repo.status, RepoStatus::Error("Invalid URL".to_string()));
}

#[test]
fn begin_sync_marks_the_repository_and_finish_sync_decides() {
    let mut repo = Repository::new(1, "tokio", "https://github.com/tokio-rs/tokio");
    repo.begin_sync();
    assert_eq!(repo.status, RepoStatus::Syncing);
    assert_eq!(repo.size_kb, 0);
    assert_eq!(repo.finish_sync(), Ok(()));
    assert_eq!(repo.status, RepoStatus::Synced);
    assert_eq!(repo.size_kb, 1024);
}

#[test]
fn describe_shows_number_name_and_status() {
    let mut repo = Repository::new(1, "tokio", "https://github.com/tokio-rs/tokio");
    assert_eq!(repo.describe(), "[1] tokio (Unsynced)");
    repo.begin_sync();
    assert_eq!(repo.describe(), "[1] tokio (Syncing)");
    repo.finish_sync().unwrap();
    assert_eq!(repo.describe(), "[1] tokio (Synced)");
    let mut broken = Repository::new(3, "broken-repo", "https://invalid.url/test");
    let _ = broken.sync();
    assert_eq!(broken.describe(), "[3] broken-repo (Error(\"Invalid URL\"))");
}

#[test]
fn describe_writes_numbers_in_base_ten() {
    assert_eq!(Repository::new(0, "z", "u").describe(), "[0] z (Unsynced)");
    assert_eq!(Repository::new(10, "z", "u").describe(), "[10] z (Unsynced)");
    assert_eq!(Repository::new(4294967295, "z", "u").describe(), "[4294967295] z (Unsynced)");
}

#[test]
fn describe_agrees_with_the_debug_form_of_the_status() {
    let mut repo = Repository::new(7, "quo\"te", "u");
    repo.status = RepoStatus::Error("a \"b\" \\ c\n".to_string());
    let expected = format!("[{}] {} ({:?})", repo.id, repo.name, repo.status);
    assert_eq!(repo.describe(), expected);
    assert_eq!(repo.status.label(), "Error(\"a \\\"b\\\" \\\\ c\\n\")");
    assert_eq!(RepoStatus::Unsynced.label(), format!("{:?}", RepoStatus::Unsynced));
    assert_eq!(RepoStatus::Syncing.label(), format!("{:?}", RepoStatus::Syncing));
    assert_eq!(RepoStatus::Synced.label(), format!("{:?}", RepoStatus::Synced));
}

#[test]
fn contains_query_sets_case_aside() {
    let repo = Repository::new(2, "actix", "https://github.com/actix/actix");
    assert!(repo.contains_query("act"));
    assert!(repo.contains_query("ACT"));
    assert!(repo.contains_query("tix"));
    assert!(repo.contains_query("actix"));
    assert!(repo.contains_query(""));
    assert!(!repo.contains_query("tok"));
    assert!(!repo.contains_query("actixx"));
    assert!(!repo.contains_query("github"));
    let shouting = Repository::new(4, "TOKIO-Utils", "u");
    assert!(shouting.contains_query("tokio"));
    assert!(shouting.contains_query("o-u"));
    assert!(!shouting.contains_query("o_u"));
}

#[test]
fn manager_finds_what_was_added() {
    let mut manager = RepoManager::new();
    assert!(manager.list_all().is_empty());
    assert!(manager.get_mut(1).is_none());
    manager.add(Repository::new(1, "tokio", "https://github.com/tokio-rs/tokio"));
    manager.add(Repository::new(2, "actix", "https://github.com/actix/actix"));
    assert_eq!(manager.get_mut(1).unwrap().name, "tokio");
    assert_eq!(manager.get_mut(2).unwrap().name, "actix");
    assert!(manager.get_mut(4).is_none());
}

#[test]
fn manager_add_replaces_under_the_same_number() {
    let mut manager = RepoManager::new();
    manager.add(Repository::new(1, "tokio", "a"));
    manager.add(Repository::new(1, "hyper", "b"));
    assert_eq!(manager.list_all(), vec!["[1] hyper (Unsynced)".to_string()]);
}

#[test]
fn changes_through_get_mut_stay_in_the_manager() {
    let mut manager = RepoManager::new();
    manager.add(Repository::new(1, "tokio", "https://github.com/tokio-rs/tokio"));
    manager.add(Repository::new(3, "broken-repo", "https://invalid.url/test"));
    assert_eq!(manager.get_mut(1).unwrap().sync(), Ok(()));
    assert_eq!(manager.get_mut(3).unwrap().sync(), Err(GitError::NotFound));
    assert_eq!(manager.get_mut(1).unwrap().status, RepoStatus::Synced);
    assert_eq!(manager.get_mut(1).unwrap().size_kb, 1024);
    assert_eq!(
        manager.get_mut(3).unwrap().status,
        RepoStatus::Error("Invalid URL".to_string())
    );
    manager.get_mut(1).unwrap().name = "renamed".to_string();
    assert_eq!(manager.get_mut(1).unwrap().name, "renamed");
}

#[test]
fn list_all_has_one_line_for_each_repository() {
    let mut manager = RepoManager::new();
    manager.add(Repository::new(1, "tokio", "https://github.com/tokio-rs/tokio"));
    manager.add(Repository::new(2, "actix", "https://github.com/actix/actix"));
    manager.add(Repository::new(3, "broken-repo", "https://invalid.url/test"));
    let mut lines = manager.list_all();
    lines.sort();
    assert_eq!(
        lines,
        vec![
            "[1] tokio (Unsynced)".to_string(),
            "[2] actix (Unsynced)".to_string(),
            "[3] broken-repo (Unsynced)".to_string(),
        ]
    );
    for id in [1u32, 2, 3, 4] {
        if let Some(repo) = manager.get_mut(id) {
            let _ = repo.sync();
        }
    }
    let mut lines = manager.list_all();
    lines.sort();
    assert_eq!(
        lines,
        vec![
            "[1] tokio (Synced)".to_string(),
            "[2] actix (Synced)".to_string(),
            "[3] broken-repo (Error(\"Invalid URL\"))".to_string(),
        ]
    );
}

#[test]
fn search_finds_the_repositories_whose_name_is_hit() {
    let mut manager = RepoManager::new();
    manager.add(Repository::new(1, "tokio", "https://github.com/tokio-rs/tokio"));
    manager.add(Repository::new(2, "actix", "https://github.com/actix/actix"));
    manager.add(Repository::new(3, "broken-repo", "https://invalid.url/test"));
    let names: Vec<String> = manager.search("act").iter().map(|r| r.name.clone()).collect();
    assert_eq!(names, vec!["actix".to_string()]);
    let mut with_o: Vec<u32> = manager.search("O").iter().map(|r| r.id).collect();
    with_o.sort();
    assert_eq!(with_o, vec![1, 3]);
    assert_eq!(manager.search("").len(), 3);
    assert!(manager.search("github").is_empty());
    assert!(RepoManager::new().search("").is_empty());
}

#[test]
fn error_label_wraps_the_quoted_message() {
    assert_eq!(error_label("\"Invalid URL\""), "Error(\"Invalid URL\")");
    assert_eq!(error_label(""), "Error()");
}
