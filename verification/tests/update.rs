use cosmic_gemini::alert::{AlertLevel, AlertResult, Confidence};
use cosmic_gemini::browser::{AppMessage, Effect};
use cosmic_gemini::config::{AppConfig, MenuActionItem, PageContent, PageStatus, TabContextAction};
use cosmic_gemini::identity::{Identity, IdentityConfig};
use cosmic_gemini::keys::{handle_key_press, tab_context_menu_items, Key, Modifiers};
use cosmic_gemini::model::AppModel;
use cosmic_gemini::node::HydraCommand;
use cosmic_gemini::tab::{Block, TabContent};
use cosmic_gemini::session::{SessionData, SessionTab};
use cosmic_gemini::update::{load_bookmarks_into_active_tab, startup, update, update_allowed, Startup};

fn ident(id: &str, name: &str) -> Identity {
    Identity {
        id: id.to_string(),
        name: name.to_string(),
        created_at: "2024-01-01T00:00:00+00:00".to_string(),
        expires_at: String::new(),
        common_name: name.to_string(),
        fingerprint: format!("fp-{}", id),
    }
}

fn run(m: &mut AppModel, ids: &mut IdentityConfig, msg: AppMessage) -> Vec<Effect> {
    update(m, &AppConfig::default(), ids, false, msg)
}

fn page(url: &str, status: PageStatus, meta: &str, body: Option<&str>) -> AppMessage {
    AppMessage::PageLoaded(Ok(PageContent {
        url: url.to_string(),
        status,
        meta: meta.to_string(),
        body: body.map(|b| b.to_string()),
    }))
}

#[test]
fn navigate_normalizes_and_fetches() {
    let mut m = AppModel::new();
    let mut ids = IdentityConfig::default();
    let fx = run(&mut m, &mut ids, AppMessage::Navigate("  example.org ".to_string()));
    assert_eq!(m.url_bar_text, "gemini://example.org");
    assert_eq!(m.active_tab().url, "gemini://example.org");
    assert!(matches!(m.active_tab().content, TabContent::Loading));
    assert!(matches!(&fx[..], [Effect::Fetch(u)] if u == "gemini://example.org"));
}

#[test]
fn navigate_search_terms() {
    let mut m = AppModel::new();
    let mut ids = IdentityConfig::default();
    let fx = run(&mut m, &mut ids, AppMessage::Navigate("hello world".to_string()));
    assert!(matches!(&fx[..], [Effect::Fetch(u)] if u == "gemini://tlgs.one/search?hello%20world"));
}

#[test]
fn navigate_titan_opens_upload_form() {
    let mut m = AppModel::new();
    let mut ids = IdentityConfig::default();
    let fx = run(&mut m, &mut ids, AppMessage::Navigate("titan://host/file".to_string()));
    assert!(fx.is_empty());
    assert_eq!(m.active_tab().title, "Titan Upload");
    match &m.active_tab().content {
        TabContent::TitanUpload { url, mime, text, token } => {
            assert_eq!(url, "titan://host/file");
            assert_eq!(mime, "text/gemini");
            assert!(text.is_empty() && token.is_empty());
        }
        other => panic!("unexpected: {:?}", other),
    }
}

#[test]
fn navigate_misfin_opens_message_form() {
    let mut m = AppModel::new();
    let mut ids = IdentityConfig::default();
    ids.identities.push(ident("id1", "Me"));
    run(&mut m, &mut ids, AppMessage::Navigate("misfin://bob@host".to_string()));
    assert_eq!(m.active_tab().title, "Misfin Message");
    match &m.active_tab().content {
        TabContent::MisfinCompose { recipient, identities, char_count, .. } => {
            assert_eq!(recipient, "bob@host");
            assert_eq!(identities, &vec![("id1".to_string(), "Me".to_string())]);
            assert_eq!(*char_count, 0);
        }
        other => panic!("unexpected: {:?}", other),
    }
}

#[test]
fn link_resolves_against_page() {
    let mut m = AppModel::new();
    let mut ids = IdentityConfig::default();
    m.tabs[0].url = "gemini://host/dir/page".to_string();
    let fx = run(&mut m, &mut ids, AppMessage::LinkClicked("other.gmi".to_string()));
    assert!(matches!(&fx[..], [Effect::Fetch(u)] if u == "gemini://host/dir/other.gmi"));
    assert_eq!(m.url_bar_text, "gemini://host/dir/other.gmi");
}

#[test]
fn web_links_open_outside() {
    let mut m = AppModel::new();
    let mut ids = IdentityConfig::default();
    let fx = run(&mut m, &mut ids, AppMessage::LinkClicked("https://example.com/".to_string()));
    assert!(matches!(&fx[..], [Effect::OpenExternal(u)] if u == "https://example.com/"));
    assert!(matches!(m.active_tab().content, TabContent::Blank));
}

#[test]
fn loaded_page_is_rendered_and_recorded() {
    let mut m = AppModel::new();
    let mut ids = IdentityConfig::default();
    let fx = run(&mut m, &mut ids, page("gemini://h/", PageStatus::Success, "text/gemini", Some("# Title\nhello")));
    assert_eq!(m.active_tab().title, "Title");
    assert_eq!(m.active_tab().history.len(), 1);
    assert_eq!(m.active_tab().history_index, Some(0));
    match &m.active_tab().content {
        TabContent::Document(b) => assert_eq!(b.len(), 2),
        other => panic!("unexpected: {:?}", other),
    }
    assert_eq!(fx.len(), 3);
    assert!(matches!(&fx[0], Effect::RebuildTabs));
    assert!(matches!(&fx[1], Effect::AddHistory { url, title } if url == "gemini://h/" && title == "Title"));
    assert!(matches!(&fx[2], Effect::FetchImages { tab_index: 0 }));
}

#[test]
fn untitled_page_is_titled_by_url() {
    let mut m = AppModel::new();
    let mut ids = IdentityConfig::default();
    run(&mut m, &mut ids, page("gemini://h/p", PageStatus::Success, "text/gemini", Some("just text")));
    assert_eq!(m.active_tab().title, "gemini://h/p");
}

#[test]
fn back_and_forward_use_the_history() {
    let mut m = AppModel::new();
    let mut ids = IdentityConfig::default();
    run(&mut m, &mut ids, page("gemini://h/1", PageStatus::Success, "text/gemini", Some("# One")));
    run(&mut m, &mut ids, page("gemini://h/2", PageStatus::Success, "text/gemini", Some("# Two")));
    let fx = run(&mut m, &mut ids, AppMessage::Back);
    assert!(fx.is_empty());
    assert_eq!(m.active_tab().title, "One");
    assert_eq!(m.url_bar_text, "gemini://h/1");
    run(&mut m, &mut ids, AppMessage::Forward);
    assert_eq!(m.active_tab().title, "Two");
    let fx = run(&mut m, &mut ids, AppMessage::Forward);
    assert!(fx.is_empty());
    assert_eq!(m.active_tab().title, "Two");
}

#[test]
fn input_prompt_and_answer() {
    let mut m = AppModel::new();
    let mut ids = IdentityConfig::default();
    m.tabs[0].url = "gemini://h/search".to_string();
    run(&mut m, &mut ids, page("gemini://h/search", PageStatus::Input { sensitive: true }, "Query?", None));
    match &m.active_tab().content {
        TabContent::Input { prompt, sensitive, value } => {
            assert_eq!(prompt, "Query?");
            assert!(*sensitive);
            assert!(value.is_empty());
        }
        other => panic!("unexpected: {:?}", other),
    }
    run(&mut m, &mut ids, AppMessage::InputChanged("abc".to_string()));
    assert!(matches!(&m.active_tab().content, TabContent::Input { value, .. } if value == "abc"));
    let fx = run(&mut m, &mut ids, AppMessage::InputSubmitted("a b".to_string()));
    assert!(matches!(&fx[..], [Effect::Fetch(u)] if u == "gemini://h/search?a%20b"));
}

#[test]
fn redirect_uses_bound_identity() {
    let mut m = AppModel::new();
    let mut ids = IdentityConfig::default();
    ids.host_bindings.insert("other.org", "id7");
    let fx = run(&mut m, &mut ids, page("gemini://h/a", PageStatus::Redirect("gemini://other.org/b".to_string()), "gemini://other.org/b", None));
    assert!(matches!(&fx[..], [Effect::FetchWithIdentity { url, identity_id }] if url == "gemini://other.org/b" && identity_id == "id7"));
    assert!(matches!(m.active_tab().content, TabContent::Loading));
}

#[test]
fn server_error_is_shown() {
    let mut m = AppModel::new();
    let mut ids = IdentityConfig::default();
    run(&mut m, &mut ids, page("gemini://h/", PageStatus::PermFail, "Not found", None));
    assert!(matches!(&m.active_tab().content, TabContent::Error(e) if e == "Server error: Not found"));
    run(&mut m, &mut ids, AppMessage::PageLoaded(Err("boom".to_string())));
    assert!(matches!(&m.active_tab().content, TabContent::Error(e) if e == "boom"));
}

#[test]
fn certificate_request_offers_identities() {
    let mut m = AppModel::new();
    let mut ids = IdentityConfig::default();
    ids.identities.push(ident("id1", "Me"));
    let fx = run(&mut m, &mut ids, page("gemini://h/", PageStatus::CertRequired, "", None));
    assert!(fx.is_empty());
    match &m.active_tab().content {
        TabContent::IdentityRequired { url, identities } => {
            assert_eq!(url, "gemini://h/");
            assert_eq!(identities, &vec![("id1".to_string(), "Me".to_string(), "fp-id1".to_string())]);
        }
        other => panic!("unexpected: {:?}", other),
    }
    let fx = run(&mut m, &mut ids, AppMessage::SelectIdentity { url: "gemini://h/".to_string(), identity_id: "id1".to_string() });
    assert_eq!(ids.host_bindings.get("h"), Some("id1"));
    assert!(matches!(&fx[..], [Effect::SaveIdentities, Effect::FetchWithIdentity { .. }]));
    let fx = run(&mut m, &mut ids, page("gemini://h/", PageStatus::CertRequired, "", None));
    assert!(matches!(&fx[..], [Effect::FetchWithIdentity { identity_id, .. }] if identity_id == "id1"));
}

#[test]
fn tabs_open_close_and_cycle() {
    let mut m = AppModel::new();
    let mut ids = IdentityConfig::default();
    let fx = run(&mut m, &mut ids, AppMessage::NewTab);
    assert_eq!(m.tabs.len(), 2);
    assert_eq!(m.active_tab, 1);
    assert!(matches!(&fx[..], [Effect::ShowBookmarks, Effect::RebuildTabs]));
    run(&mut m, &mut ids, AppMessage::NextTab);
    assert_eq!(m.active_tab, 0);
    run(&mut m, &mut ids, AppMessage::PrevTab);
    assert_eq!(m.active_tab, 1);
    let fx = run(&mut m, &mut ids, AppMessage::CloseTab(usize::MAX));
    assert_eq!(m.tabs.len(), 1);
    assert!(matches!(&fx[..], [Effect::RebuildTabs]));
    m.tabs[0].url = "gemini://x/".to_string();
    let fx = run(&mut m, &mut ids, AppMessage::CloseTab(0));
    assert_eq!(m.tabs.len(), 1);
    assert_eq!(m.active_tab().url, "");
    assert_eq!(m.active_tab().title, "New Tab");
    assert!(matches!(&fx[..], [Effect::ShowBookmarks, Effect::RebuildTabs]));
}

#[test]
fn new_tab_opens_home_page() {
    let mut m = AppModel::new();
    let mut ids = IdentityConfig::default();
    let mut config = AppConfig::default();
    config.home_page = "gemini://home/".to_string();
    let fx = update(&mut m, &config, &mut ids, false, AppMessage::NewTab);
    assert_eq!(m.url_bar_text, "gemini://home/");
    assert!(matches!(&fx[..], [Effect::RebuildTabs, Effect::Fetch(u)] if u == "gemini://home/"));
    let fx = update(&mut m, &config, &mut ids, false, AppMessage::GoHome);
    assert!(matches!(&fx[..], [Effect::Fetch(u)] if u == "gemini://home/"));
}

#[test]
fn go_home_without_home_page_shows_bookmarks() {
    let mut m = AppModel::new();
    let mut ids = IdentityConfig::default();
    let fx = run(&mut m, &mut ids, AppMessage::GoHome);
    assert!(matches!(&fx[..], [Effect::ShowBookmarks]));
    load_bookmarks_into_active_tab(&mut m, "=> gemini://a/ A\n");
    assert_eq!(m.active_tab().title, "Bookmarks");
    match &m.active_tab().content {
        TabContent::Document(b) => {
            assert!(matches!(&b[0], Block::Link { href, label } if href == "gemini://a/" && label == "A"))
        }
        other => panic!("unexpected: {:?}", other),
    }
}

#[test]
fn bookmark_only_pages_with_url() {
    let mut m = AppModel::new();
    let mut ids = IdentityConfig::default();
    assert!(run(&mut m, &mut ids, AppMessage::ToggleBookmark).is_empty());
    m.tabs[0].url = "gemini://x/".to_string();
    m.tabs[0].title = "X".to_string();
    let fx = run(&mut m, &mut ids, AppMessage::ToggleBookmark);
    assert!(matches!(&fx[..], [Effect::AddBookmark { url, title }] if url == "gemini://x/" && title == "X"));
    let fx = run(&mut m, &mut ids, AppMessage::BookmarkTab(0));
    assert_eq!(fx.len(), 1);
    assert!(run(&mut m, &mut ids, AppMessage::BookmarkTab(3)).is_empty());
}

#[test]
fn trusting_a_certificate_forgets_the_pin() {
    let mut m = AppModel::new();
    let mut ids = IdentityConfig::default();
    let fx = run(&mut m, &mut ids, AppMessage::TrustCertificate("gemini://h.org/x".to_string()));
    assert!(matches!(&fx[..], [Effect::RemoveKnownHost(h), Effect::Fetch(u)] if h == "h.org" && u == "gemini://h.org/x"));
    assert!(matches!(m.active_tab().content, TabContent::Loading));
}

#[test]
fn download_progress() {
    let mut m = AppModel::new();
    let mut ids = IdentityConfig::default();
    run(&mut m, &mut ids, AppMessage::DownloadProgress { filename: "f".to_string(), bytes: 3 });
    assert!(matches!(m.active_tab().content, TabContent::Blank));
    run(&mut m, &mut ids, AppMessage::DownloadStarted { filename: "f".to_string() });
    run(&mut m, &mut ids, AppMessage::DownloadProgress { filename: "f".to_string(), bytes: 3 });
    assert!(matches!(&m.active_tab().content, TabContent::Download { bytes_downloaded: 3, complete: false, .. }));
    run(&mut m, &mut ids, AppMessage::DownloadComplete { filename: "f".to_string(), path: "/d/f".to_string() });
    assert!(matches!(&m.active_tab().content, TabContent::Download { complete: true, path: Some(p), .. } if p == "/d/f"));
    run(&mut m, &mut ids, AppMessage::DownloadFailed("disk".to_string()));
    assert!(matches!(&m.active_tab().content, TabContent::Error(e) if e == "Download failed: disk"));
}

#[test]
fn identity_manager_lists_identities_and_bindings() {
    let mut m = AppModel::new();
    let mut ids = IdentityConfig::default();
    ids.identities.push(ident("id1", "Me"));
    ids.host_bindings.insert("a.org", "id1");
    run(&mut m, &mut ids, AppMessage::ShowIdentityManager);
    assert_eq!(m.active_tab().title, "Identity Manager");
    run(&mut m, &mut ids, AppMessage::IdentityNameChanged("New".to_string()));
    match &m.active_tab().content {
        TabContent::IdentityManager { identities, bindings, new_identity_name } => {
            assert_eq!(identities.len(), 1);
            assert_eq!(identities[0].0, "id1");
            assert_eq!(bindings, &vec![("id1".to_string(), vec!["a.org".to_string()])]);
            assert_eq!(new_identity_name, "New");
        }
        other => panic!("unexpected: {:?}", other),
    }
    let fx = run(&mut m, &mut ids, AppMessage::UnbindHost("a.org".to_string()));
    assert!(matches!(&fx[..], [Effect::SaveIdentities]));
    assert_eq!(ids.host_bindings.get("a.org"), None);
    let fx = run(&mut m, &mut ids, AppMessage::DeleteIdentity("id1".to_string()));
    assert!(ids.identities.is_empty());
    assert!(matches!(&fx[..], [Effect::SaveIdentities, Effect::DeleteIdentityFiles(i)] if i == "id1"));
    assert!(matches!(&m.active_tab().content, TabContent::IdentityManager { new_identity_name, .. } if new_identity_name == "New"));
}

#[test]
fn creating_an_identity_adds_it() {
    let mut m = AppModel::new();
    let mut ids = IdentityConfig::default();
    let fx = run(&mut m, &mut ids, AppMessage::CreateIdentity { name: "Me".to_string(), duration_days: 30 });
    assert_eq!(ids.identities.len(), 1);
    assert_eq!(ids.identities[0].name, "Me");
    assert!(matches!(&fx[..], [Effect::WriteIdentityFiles { id, .. }, Effect::SaveIdentities] if *id == ids.identities[0].id));
    assert!(matches!(m.active_tab().content, TabContent::IdentityManager { .. }));
}

#[test]
fn importing_bad_pem_shows_the_reason() {
    let mut m = AppModel::new();
    let mut ids = IdentityConfig::default();
    let fx = run(&mut m, &mut ids, AppMessage::ImportIdentity { name: "X".to_string(), cert_pem: "nothing".to_string(), key_pem: "".to_string() });
    assert!(fx.is_empty());
    assert!(ids.identities.is_empty());
    assert!(matches!(&m.active_tab().content, TabContent::Error(e) if e == "Identity error: No certificates found in PEM data"));
}

#[test]
fn titan_form_and_upload() {
    let mut m = AppModel::new();
    let mut ids = IdentityConfig::default();
    run(&mut m, &mut ids, AppMessage::TitanUploadRequested("titan://h/f.gmi".to_string()));
    run(&mut m, &mut ids, AppMessage::TitanTextChanged("hello".to_string()));
    run(&mut m, &mut ids, AppMessage::TitanTokenChanged("".to_string()));
    run(&mut m, &mut ids, AppMessage::TitanMimeChanged("text/plain".to_string()));
    let fx = run(&mut m, &mut ids, AppMessage::TitanSubmit);
    match &fx[..] {
        [Effect::TitanUpload { request, identity_id }] => {
            assert_eq!(request.url, "titan://h/f.gmi");
            assert_eq!(request.mime, "text/plain");
            assert_eq!(request.token, None);
            assert_eq!(request.payload, b"hello".to_vec());
            assert_eq!(*identity_id, None);
        }
        other => panic!("unexpected: {:?}", other),
    }
    assert!(matches!(m.active_tab().content, TabContent::Loading));
}

#[test]
fn misfin_compose_and_send() {
    let mut m = AppModel::new();
    let mut ids = IdentityConfig::default();
    run(&mut m, &mut ids, AppMessage::MisfinComposeRequested("misfin://bob@h".to_string()));
    assert!(run(&mut m, &mut ids, AppMessage::MisfinSend).is_empty());
    run(&mut m, &mut ids, AppMessage::MisfinMessageChanged("héllo".to_string()));
    assert!(matches!(&m.active_tab().content, TabContent::MisfinCompose { char_count: 6, .. }));
    run(&mut m, &mut ids, AppMessage::MisfinIdentitySelected("id1".to_string()));
    let fx = run(&mut m, &mut ids, AppMessage::MisfinSend);
    assert!(matches!(&fx[..], [Effect::MisfinSend { recipient, message, identity_id }] if recipient == "bob@h" && message == "héllo" && identity_id == "id1"));
    run(&mut m, &mut ids, AppMessage::MisfinResult(Ok("20 ok".to_string())));
    assert!(matches!(&m.active_tab().content, TabContent::MisfinSent { recipient, status } if recipient == "unknown" && status == "Success: 20 ok"));
}

#[test]
fn image_data_is_stored() {
    let mut m = AppModel::new();
    let mut ids = IdentityConfig::default();
    m.tabs[0].content = TabContent::Document(vec![Block::Image { alt: "a".to_string(), url: "u".to_string(), data: None }]);
    run(&mut m, &mut ids, AppMessage::ImageLoaded { tab_index: 0, block_index: 0, data: vec![9, 9] });
    assert!(matches!(&m.active_tab().content, TabContent::Document(b) if matches!(&b[0], Block::Image { data: Some(d), .. } if d == &vec![9, 9])));
    run(&mut m, &mut ids, AppMessage::ImageLoaded { tab_index: 4, block_index: 0, data: vec![1] });
}

#[test]
fn hydra_messages() {
    let mut m = AppModel::new();
    let mut ids = IdentityConfig::default();
    let config = AppConfig::default();
    let fx = update(&mut m, &config, &mut ids, true, AppMessage::HydraManualSync);
    assert!(matches!(&fx[..], [Effect::Hydra(HydraCommand::ManualSync)]));
    let fx = update(&mut m, &config, &mut ids, false, AppMessage::HydraManualSync);
    assert!(fx.is_empty());
    let alert = AlertResult {
        domain: "d".to_string(),
        level: AlertLevel::NovelDivergence,
        my_fingerprint: "a".to_string(),
        consensus_fingerprint: None,
        confidence: Confidence { num: 0, den: 1 },
        observer_count: 0,
        message: "m".to_string(),
    };
    update(&mut m, &config, &mut ids, true, AppMessage::HydraAlert(alert));
    assert_eq!(m.hydra_alerts.len(), 1);
    update(&mut m, &config, &mut ids, true, AppMessage::HydraDismissAlert(3));
    assert_eq!(m.hydra_alerts.len(), 1);
    update(&mut m, &config, &mut ids, true, AppMessage::HydraDismissAlert(0));
    assert!(m.hydra_alerts.is_empty());
    let fx = update(&mut m, &config, &mut ids, true, AppMessage::ShowHydraPanel);
    assert!(matches!(&fx[..], [Effect::Hydra(HydraCommand::GetStatus)]));
    update(&mut m, &config, &mut ids, true, AppMessage::HydraPeerAddressChanged("p.onion".to_string()));
    assert!(matches!(&m.active_tab().content, TabContent::HydraPanel { new_peer_address } if new_peer_address == "p.onion"));
    let fx = update(&mut m, &config, &mut ids, true, AppMessage::HydraAddPeer("p.onion".to_string()));
    assert!(matches!(&fx[..], [Effect::Hydra(HydraCommand::AddPeer { onion_address })] if onion_address == "p.onion"));
    assert!(matches!(&m.active_tab().content, TabContent::HydraPanel { new_peer_address } if new_peer_address.is_empty()));
}

#[test]
fn keyboard_shortcuts() {
    let ctrl = Modifiers { control: true, shift: false, alt: false };
    let alt = Modifiers { control: false, shift: false, alt: true };
    let none = Modifiers { control: false, shift: false, alt: false };
    let ctrl_shift = Modifiers { control: true, shift: true, alt: false };
    assert!(matches!(handle_key_press(&Key::Character("l".to_string()), ctrl), Some(AppMessage::FocusUrlBar)));
    assert!(matches!(handle_key_press(&Key::Character("w".to_string()), ctrl), Some(AppMessage::CloseTab(usize::MAX))));
    assert!(matches!(handle_key_press(&Key::ArrowLeft, alt), Some(AppMessage::Back)));
    assert!(matches!(handle_key_press(&Key::F5, none), Some(AppMessage::Reload)));
    assert!(matches!(handle_key_press(&Key::Tab, ctrl_shift), Some(AppMessage::PrevTab)));
    assert!(matches!(handle_key_press(&Key::Tab, ctrl), Some(AppMessage::NextTab)));
    assert!(handle_key_press(&Key::Character("q".to_string()), ctrl).is_none());
}

#[test]
fn menu_entries() {
    assert!(matches!(MenuActionItem::Bookmark.message(), AppMessage::ToggleBookmark));
    assert!(matches!(TabContextAction::CloseTab.message(2), AppMessage::CloseTab(2)));
    assert!(matches!(TabContextAction::BookmarkTab.message(1), AppMessage::BookmarkTab(1)));
    let items = tab_context_menu_items();
    assert_eq!(items.len(), 3);
    assert_eq!(items[2].0, "Close Tab");
}

#[test]
fn startup_opens_given_url() {
    let (m, s) = startup(Some("gemini://x/".to_string()), None, &AppConfig::default());
    assert_eq!(m.url_bar_text, "gemini://x/");
    assert!(matches!(s, Startup::Navigate(u) if u == "gemini://x/"));
}

#[test]
fn startup_restores_session() {
    let data = SessionData {
        active_tab: 1,
        tabs: vec![
            SessionTab { url: "gemini://a/".to_string(), title: "A".to_string(), history: vec![], history_index: None },
            SessionTab { url: "gemini://b/".to_string(), title: "B".to_string(), history: vec![], history_index: None },
        ],
    };
    let (m, s) = startup(None, Some(data), &AppConfig::default());
    assert_eq!(m.tabs.len(), 2);
    assert_eq!(m.active_tab, 1);
    assert!(matches!(m.active_tab().content, TabContent::Loading));
    assert!(matches!(s, Startup::Navigate(u) if u == "gemini://b/"));
}

#[test]
fn startup_falls_back_to_home_or_bookmarks() {
    let mut config = AppConfig::default();
    let (_, s) = startup(None, None, &config);
    assert!(matches!(s, Startup::ShowBookmarks));
    config.home_page = "gemini://home/".to_string();
    let (m, s) = startup(None, None, &config);
    assert_eq!(m.url_bar_text, "gemini://home/");
    assert!(matches!(s, Startup::Navigate(u) if u == "gemini://home/"));
}

#[test]
fn session_loaded_refetches_active_page() {
    let mut m = AppModel::new();
    let mut ids = IdentityConfig::default();
    let data = SessionData {
        active_tab: 0,
        tabs: vec![SessionTab { url: "gemini://a/".to_string(), title: "A".to_string(), history: vec![], history_index: None }],
    };
    let fx = run(&mut m, &mut ids, AppMessage::SessionLoaded(data));
    assert!(matches!(&fx[..], [Effect::RebuildTabs, Effect::Fetch(u)] if u == "gemini://a/"));
    let fx = run(&mut m, &mut ids, AppMessage::SaveSession);
    assert!(matches!(&fx[..], [Effect::SaveSession]));
}

#[test]
fn messages_update_can_take() {
    let mut m = AppModel::new();
    assert!(update_allowed(&m, &AppMessage::CloseTab(5)));
    m.new_tab();
    assert!(!update_allowed(&m, &AppMessage::CloseTab(5)));
    assert!(update_allowed(&m, &AppMessage::CloseTab(1)));
    assert!(update_allowed(&m, &AppMessage::CloseTab(usize::MAX)));
    assert!(update_allowed(&m, &AppMessage::NewTab));
}
