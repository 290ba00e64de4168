use cosmic_gemini::observation::ObservationDiary;
use cosmic_gemini::paths::{bookmarks_path, join_path, session_path, tor_data_dir};

#[test]
fn paths_join_like_std() {
    assert_eq!(join_path("/a/b", "c"), "/a/b/c");
    assert_eq!(join_path("/a/b/", "c"), "/a/b/c");
    assert_eq!(join_path("", "c"), "c");
    assert_eq!(join_path("/a", "/abs"), "/abs");
    assert_eq!(ObservationDiary::new("/data").path, "/data/observations.jsonl");
}

#[test]
fn files_live_in_the_app_directory() {
    assert!(bookmarks_path().ends_with("cosmic-gemini/bookmarks.gemini"));
    assert!(session_path().ends_with("cosmic-gemini/session.json"));
    assert!(tor_data_dir().ends_with("cosmic-gemini/hydra/tor"));
}

#[test]
fn bookmark_and_history_lines() {
    assert_eq!(cosmic_gemini::paths::add_bookmark("gemini://a/", "A page"), "=> gemini://a/ A page\n");
    assert_eq!(cosmic_gemini::paths::add_history("gemini://b/", "B"), "=> gemini://b/ B\n");
    assert!(cosmic_gemini::paths::DEFAULT_BOOKMARKS.starts_with("# Bookmarks\n"));
}
