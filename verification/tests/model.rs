use cosmic_gemini::model::AppModel;
use cosmic_gemini::session::{SessionData, SessionHistoryEntry, SessionTab};
use cosmic_gemini::tab::{TabContent, TabState};

#[test]
fn new_model_has_one_blank_tab() {
    let m = AppModel::new();
    assert_eq!(m.tabs.len(), 1);
    assert_eq!(m.active_tab, 0);
    assert_eq!(m.active_tab().title, "New Tab");
    assert!(matches!(m.active_tab().content, TabContent::Blank));
    assert!(m.url_bar_focused);
}

#[test]
fn history_back_and_forward() {
    let mut t = TabState::new_blank();
    assert!(!t.can_go_back());
    t.push_history("gemini://a/", "A", None);
    t.push_history("gemini://b/", "B", None);
    assert!(t.can_go_back());
    assert!(!t.can_go_forward());
    assert_eq!(t.go_back().unwrap().url, "gemini://a/");
    assert!(t.can_go_forward());
    assert_eq!(t.go_forward().unwrap().url, "gemini://b/");
    assert!(t.go_forward().is_none());
}

#[test]
fn push_after_back_drops_forward_pages() {
    let mut t = TabState::new_blank();
    t.push_history("1", "1", None);
    t.push_history("2", "2", None);
    t.push_history("3", "3", None);
    t.go_back();
    t.go_back();
    t.push_history("4", "4", None);
    let urls: Vec<&str> = t.history.iter().map(|h| h.url.as_str()).collect();
    assert_eq!(urls, vec!["1", "4"]);
    assert_eq!(t.history_index, Some(1));
    assert_eq!(t.go_back().unwrap().url, "1");
}

#[test]
fn tabs_open_switch_and_close() {
    let mut m = AppModel::new();
    m.active_tab_mut().url = "gemini://first/".to_string();
    m.new_tab();
    assert_eq!(m.tabs.len(), 2);
    assert_eq!(m.active_tab, 1);
    assert_eq!(m.url_bar_text, "");
    m.switch_tab(0);
    assert_eq!(m.url_bar_text, "gemini://first/");
    m.switch_tab(5);
    assert_eq!(m.active_tab, 0);
    m.switch_tab(1);
    assert!(m.close_tab(1));
    assert_eq!(m.tabs.len(), 1);
    assert_eq!(m.active_tab, 0);
    assert_eq!(m.url_bar_text, "gemini://first/");
    assert!(!m.close_tab(0));
    assert_eq!(m.tabs.len(), 1);
}

#[test]
fn session_round_trip_keeps_tabs() {
    let mut m = AppModel::new();
    m.active_tab_mut().url = "gemini://example.com/".to_string();
    m.active_tab_mut().title = "Example".to_string();
    m.active_tab_mut().push_history("gemini://example.com/", "Example", None);
    m.new_tab();
    m.active_tab_mut().url = "gemini://other.com/".to_string();
    m.active_tab_mut().title = "Other".to_string();
    let data = m.to_session_data();
    assert_eq!(data.active_tab, 1);
    assert_eq!(data.tabs.len(), 2);
    assert_eq!(data.tabs[0].url, "gemini://example.com/");
    assert_eq!(data.tabs[1].title, "Other");

    let mut r = AppModel::new();
    r.restore_from_session(data);
    assert_eq!(r.tabs.len(), 2);
    assert_eq!(r.active_tab, 1);
    assert_eq!(r.url_bar_text, "gemini://other.com/");
    assert_eq!(r.tabs[0].history.len(), 1);
    assert_eq!(r.tabs[0].history_index, Some(0));
    assert!(matches!(r.tabs[0].content, TabContent::Loading));
}

#[test]
fn restore_clamps_active_tab_and_ignores_empty_sessions() {
    let mut r = AppModel::new();
    r.restore_from_session(SessionData { active_tab: 0, tabs: vec![] });
    assert_eq!(r.tabs.len(), 1);
    let data = SessionData {
        active_tab: 7,
        tabs: vec![
            SessionTab {
                url: String::new(),
                title: "Blank".to_string(),
                history: vec![SessionHistoryEntry { url: "u".to_string(), title: "t".to_string() }],
                history_index: Some(0),
            },
            SessionTab {
                url: "gemini://x/".to_string(),
                title: "X".to_string(),
                history: vec![],
                history_index: None,
            },
        ],
    };
    r.restore_from_session(data);
    assert_eq!(r.active_tab, 1);
    assert!(matches!(r.tabs[0].content, TabContent::Blank));
    assert!(r.tabs[0].history[0].content.is_none());
}
