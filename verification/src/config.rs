//! Settings of the browser and of its HYDRA node.
use vstd::prelude::*;
use vstd::string::StringExecFns;

verus! {

/// A peer the HYDRA node syncs with.
#[derive(Debug, Clone)]
pub struct PeerConfig {
    pub node_id: String,
    pub onion_address: String,
}

/// Settings of the HYDRA node.
#[derive(Debug, Clone)]
pub struct HydraConfig {
    pub enabled: bool,
    pub bootstrap_port: u16,
    pub sync_interval_secs: u64,
    pub max_observation_age_days: u64,
    pub peers: Vec<PeerConfig>,
}

impl Default for HydraConfig {
    /// Disabled, bootstrap port 19650, a sync every 300 s, observations
    /// kept 90 days, no peers.
    fn default() -> (c: Self)
        ensures
            !c.enabled,
            c.bootstrap_port == 19650,
            c.sync_interval_secs == 300,
            c.max_observation_age_days == 90,
            c.peers@.len() == 0,
    {
        HydraConfig {
            enabled: false,
            bootstrap_port: 19650,
            sync_interval_secs: 300,
            max_observation_age_days: 90,
            peers: Vec::new(),
        }
    }
}

/// The application's identifier.
pub const APP_ID: &'static str = "com.cosmic_gemini.app";

/// Settings of the browser.
#[derive(Debug, Clone, PartialEq)]
pub struct AppConfig {
    pub font_size: u16,
    pub max_content_width: u16,
    pub search_engine: String,
    pub auto_load_images: bool,
    pub home_page: String,
    pub hydra_enabled: bool,
}

impl Default for AppConfig {
    /// 16 pt text at most 800 px wide, TLGS search, images loaded, no home
    /// page, HYDRA off.
    fn default() -> (c: Self)
        ensures
            c.font_size == 16,
            c.max_content_width == 800,
            c.search_engine@ == "gemini://tlgs.one/search?%s"@,
            c.auto_load_images,
            c.home_page@.len() == 0,
            !c.hydra_enabled,
    {
        AppConfig {
            font_size: 16,
            max_content_width: 800,
            search_engine: String::from_str("gemini://tlgs.one/search?%s"),
            auto_load_images: true,
            home_page: String::new(),
            hydra_enabled: false,
        }
    }
}

/// What the application is started with.
#[derive(Debug, Clone)]
pub struct Flags {
    pub url: Option<String>,
}

impl Default for Flags {
    fn default() -> (f: Self)
        ensures
            f.url is None,
    {
        Flags { url: None }
    }
}

/// Entries of the main menu.
#[derive(Debug, Clone, Copy, PartialEq, Eq, Structural)]
pub enum MenuActionItem {
    Home,
    NewTab,
    Back,
    Forward,
    Reload,
    Bookmark,
    IdentityManager,
    FocusUrlBar,
}

/// Entries of a tab's context menu.
#[derive(Debug, Clone, Copy, PartialEq, Eq, Structural)]
pub enum TabContextAction {
    NewTab,
    CloseTab,
    BookmarkTab,
}

/// A fetched page, ready for display.
#[derive(Debug, Clone)]
pub struct PageContent {
    pub url: String,
    pub status: PageStatus,
    pub meta: String,
    pub body: Option<String>,
}

/// What a fetched page is.
#[derive(Debug, Clone)]
pub enum PageStatus {
    Success,
    Input { sensitive: bool },
    Redirect(String),
    TempFail,
    PermFail,
    CertRequired,
}

} // verus!
