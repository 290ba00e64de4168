//! What the browser does with each message: the new state of the model,
//! and the work (fetches, file writes, commands to the HYDRA node) that the
//! application is to carry out.
use vstd::prelude::*;
use vstd::string::{StrSliceExecFns, StringExecFns, StringSliceAdditionalSpecFns};
use vstd::utf8::encode_utf8;

use crate::alert::AlertResult;
use crate::config::{AppConfig, PageContent, PageStatus};
use crate::gemtext::{
    extract_title, normalize_url, normalize_url_spec, parse_gemtext, resolve_url,
    resolve_url_spec,
};
use crate::identity::{
    bind_host, bindings_without, delete_identity, get_bindings_for_identity, get_host_binding,
    identities_without, unbind_host, Identity, IdentityConfig,
};
use crate::model::AppModel;
use crate::node::{HydraCommand, HydraStatus};
use crate::session::SessionData;
use crate::tab::{blocks_view, clone_blocks, Block, BlockView, HistoryEntry, TabContent, TabState};
use crate::text::{has_prefix_at, starts_with, str_chars, sub_chars};
use crate::titan::TitanRequest;
use crate::urlparse::{parse_url_parts, url_components};

verus! {

// ---------------------------------------------------------------------
// Messages and effects
// ---------------------------------------------------------------------

/// What happened: user actions, and results of earlier work.
#[derive(Debug)]
pub enum AppMessage {
    Navigate(String),
    LinkClicked(String),
    GoHome,
    Back,
    Forward,
    Reload,
    UrlBarChanged(String),
    FocusUrlBar,
    NewTab,
    /// Close the tab at an index (`usize::MAX`: the active tab).
    CloseTab(usize),
    SwitchTab(usize),
    NextTab,
    PrevTab,
    PageLoaded(Result<PageContent, String>),
    InputSubmitted(String),
    InputChanged(String),
    ToggleBookmark,
    /// Bookmark the tab at an index.
    BookmarkTab(usize),
    CertWarning { url: String, error: String },
    TrustCertificate(String),
    DownloadStarted { filename: String },
    DownloadProgress { filename: String, bytes: u64 },
    DownloadComplete { filename: String, path: String },
    DownloadFailed(String),
    OpenDownload(String),
    IdentityRequired { url: String },
    SelectIdentity { url: String, identity_id: String },
    CreateIdentity { name: String, duration_days: u64 },
    ImportIdentity { name: String, cert_pem: String, key_pem: String },
    DeleteIdentity(String),
    IdentityCreated(Result<String, String>),
    BindIdentityToHost { hostname: String, identity_id: String },
    UnbindHost(String),
    IdentityNameChanged(String),
    ShowIdentityManager,
    TitanUploadRequested(String),
    TitanTextChanged(String),
    TitanTokenChanged(String),
    TitanMimeChanged(String),
    TitanSubmit,
    TitanUploadResult(Result<PageContent, String>),
    MisfinComposeRequested(String),
    MisfinMessageChanged(String),
    MisfinIdentitySelected(String),
    MisfinSend,
    MisfinResult(Result<String, String>),
    ImageLoaded { tab_index: usize, block_index: usize, data: Vec<u8> },
    ImageFailed { tab_index: usize, block_index: usize, error: String },
    SaveSession,
    SessionLoaded(SessionData),
    HydraStatusUpdate(HydraStatus),
    HydraAlert(AlertResult),
    HydraObservationRecorded(String),
    HydraSyncComplete { peer_id: String, events_exchanged: usize },
    HydraError(String),
    ShowHydraPanel,
    HydraToggleEnabled,
    HydraAddPeer(String),
    HydraRemovePeer(String),
    HydraManualSync,
    HydraDismissAlert(usize),
    HydraPeerAddressChanged(String),
    NoOp,
}

/// Work for the application to carry out.
#[derive(Debug)]
pub enum Effect {
    /// Fetch a page into the active tab.
    Fetch(String),
    /// Fetch a page presenting a client identity.
    FetchWithIdentity { url: String, identity_id: String },
    /// Open a URL or file with the desktop's default application.
    OpenExternal(String),
    AddBookmark { url: String, title: String },
    AddHistory { url: String, title: String },
    /// Read the bookmarks file and show it in the active tab.
    ShowBookmarks,
    /// Rebuild the tab bar.
    RebuildTabs,
    /// Fetch the inline images of a tab.
    FetchImages { tab_index: usize },
    /// Forget the pinned certificate of a host.
    RemoveKnownHost(String),
    /// Store the identity configuration.
    SaveIdentities,
    /// Store a new identity's certificate and key in its directory.
    WriteIdentityFiles { id: String, cert_pem: String, key_pem: String },
    /// Delete the files of an identity.
    DeleteIdentityFiles(String),
    TitanUpload { request: TitanRequest, identity_id: Option<String> },
    MisfinSend { recipient: String, message: String, identity_id: String },
    /// Store the session (`AppModel::to_session_data`).
    SaveSession,
    /// Send a command to the HYDRA node.
    Hydra(HydraCommand),
}

/// Mathematical form of a HYDRA command.
pub enum CommandView {
    Shutdown,
    GetStatus,
    AddPeer(Seq<char>),
    RemovePeer(Seq<char>),
    ManualSync,
    ToggleEnabled,
}

/// Mathematical form of an [`Effect`].
pub enum EffectView {
    Fetch(Seq<char>),
    FetchWithIdentity(Seq<char>, Seq<char>),
    OpenExternal(Seq<char>),
    AddBookmark(Seq<char>, Seq<char>),
    AddHistory(Seq<char>, Seq<char>),
    ShowBookmarks,
    RebuildTabs,
    FetchImages(usize),
    RemoveKnownHost(Seq<char>),
    SaveIdentities,
    /// Identity id, certificate PEM, key PEM.
    WriteIdentityFiles(Seq<char>, Seq<char>, Seq<char>),
    DeleteIdentityFiles(Seq<char>),
    /// URL, MIME type, token, payload, identity.
    TitanUpload(Seq<char>, Seq<char>, Option<Seq<char>>, Seq<u8>, Option<Seq<char>>),
    MisfinSend(Seq<char>, Seq<char>, Seq<char>),
    SaveSession,
    Hydra(CommandView),
}

pub open spec fn opt_view(o: Option<String>) -> Option<Seq<char>> {
    match o {
        Some(s) => Some(s@),
        None => None,
    }
}

impl View for HydraCommand {
    type V = CommandView;

    open spec fn view(&self) -> CommandView {
        match self {
            HydraCommand::Shutdown => CommandView::Shutdown,
            HydraCommand::GetStatus => CommandView::GetStatus,
            HydraCommand::AddPeer { onion_address } => CommandView::AddPeer(onion_address@),
            HydraCommand::RemovePeer { node_id } => CommandView::RemovePeer(node_id@),
            HydraCommand::ManualSync => CommandView::ManualSync,
            HydraCommand::ToggleEnabled => CommandView::ToggleEnabled,
        }
    }
}

impl View for Effect {
    type V = EffectView;

    open spec fn view(&self) -> EffectView {
        match self {
            Effect::Fetch(u) => EffectView::Fetch(u@),
            Effect::FetchWithIdentity { url, identity_id } => EffectView::FetchWithIdentity(
                url@,
                identity_id@,
            ),
            Effect::OpenExternal(u) => EffectView::OpenExternal(u@),
            Effect::AddBookmark { url, title } => EffectView::AddBookmark(url@, title@),
            Effect::AddHistory { url, title } => EffectView::AddHistory(url@, title@),
            Effect::ShowBookmarks => EffectView::ShowBookmarks,
            Effect::RebuildTabs => EffectView::RebuildTabs,
            Effect::FetchImages { tab_index } => EffectView::FetchImages(*tab_index),
            Effect::RemoveKnownHost(h) => EffectView::RemoveKnownHost(h@),
            Effect::SaveIdentities => EffectView::SaveIdentities,
            Effect::WriteIdentityFiles { id, cert_pem, key_pem } => EffectView::WriteIdentityFiles(
                id@,
                cert_pem@,
                key_pem@,
            ),
            Effect::DeleteIdentityFiles(id) => EffectView::DeleteIdentityFiles(id@),
            Effect::TitanUpload { request, identity_id } => EffectView::TitanUpload(
                request.url@,
                request.mime@,
                opt_view(request.token),
                request.payload@,
                opt_view(*identity_id),
            ),
            Effect::MisfinSend { recipient, message, identity_id } => EffectView::MisfinSend(
                recipient@,
                message@,
                identity_id@,
            ),
            Effect::SaveSession => EffectView::SaveSession,
            Effect::Hydra(c) => EffectView::Hydra(c@),
        }
    }
}

pub open spec fn effects_view(v: Seq<Effect>) -> Seq<EffectView> {
    v.map_values(|e: Effect| e@)
}

// ---------------------------------------------------------------------
// Helpers on the model
// ---------------------------------------------------------------------

/// The active tab.
pub open spec fn active(m: AppModel) -> TabState {
    m.tabs@[m.active_tab as int]
}

/// Only the active tab and the URL bar text may differ.
pub open spec fn only_active_changed(old: AppModel, new: AppModel) -> bool {
    &&& new.tabs@.len() == old.tabs@.len()
    &&& new.active_tab == old.active_tab
    &&& forall|i: int|
        0 <= i < old.tabs@.len() && i != old.active_tab ==> #[trigger] new.tabs@[i]
            == old.tabs@[i]
    &&& new.url_bar_focused == old.url_bar_focused
    &&& new.hydra_status == old.hydra_status
    &&& new.hydra_alerts == old.hydra_alerts
}

/// The model is left as it was.
pub open spec fn model_unchanged(old: AppModel, new: AppModel) -> bool {
    &&& new.tabs@ == old.tabs@
    &&& new.active_tab == old.active_tab
    &&& new.url_bar_text == old.url_bar_text
    &&& new.url_bar_focused == old.url_bar_focused
    &&& new.hydra_status == old.hydra_status
    &&& new.hydra_alerts == old.hydra_alerts
}

/// Only the active tab's content differs.
pub open spec fn only_content_changed(old: AppModel, new: AppModel) -> bool {
    &&& only_active_changed(old, new)
    &&& new.url_bar_text == old.url_bar_text
    &&& active(new).url == active(old).url
    &&& active(new).title == active(old).title
    &&& active(new).history == active(old).history
    &&& active(new).history_index == active(old).history_index
}

/// The host of a URL, when it parses and has one.
pub open spec fn url_host(u: Seq<char>) -> Option<Seq<char>> {
    match url_components(u) {
        Ok((_, h, _, _)) => h,
        Err(_) => None,
    }
}

/// The identity bound to the host of a URL, if any.
pub open spec fn bound_identity(b: Map<Seq<char>, Seq<char>>, u: Seq<char>) -> Option<Seq<char>> {
    match url_host(u) {
        Some(h) => if b.contains_key(h) {
            Some(b[h])
        } else {
            None
        },
        None => None,
    }
}

/// The fetch of `u`: with the bound identity when its host has one.
pub open spec fn fetch_effect(b: Map<Seq<char>, Seq<char>>, u: Seq<char>) -> EffectView {
    match bound_identity(b, u) {
        Some(id) => EffectView::FetchWithIdentity(u, id),
        None => EffectView::Fetch(u),
    }
}

pub(crate) fn host_of(url: &str) -> (r: Option<String>)
    ensures
        opt_view(r) == url_host(url@),
{
    match parse_url_parts(url) {
        Ok(p) => p.host,
        Err(_) => None,
    }
}

pub(crate) fn bound_identity_for(ids: &IdentityConfig, url: &str) -> (r: Option<String>)
    ensures
        opt_view(r) == bound_identity(ids.host_bindings@, url@),
{
    match host_of(url) {
        Some(h) => get_host_binding(ids, h.as_str()),
        None => None,
    }
}

pub(crate) fn fetch_for(ids: &IdentityConfig, url: String) -> (e: Effect)
    ensures
        e@ == fetch_effect(ids.host_bindings@, url@),
{
    match bound_identity_for(ids, url.as_str()) {
        Some(id) => Effect::FetchWithIdentity { url, identity_id: id },
        None => Effect::Fetch(url),
    }
}

/// `s` with every leading copy of `p` removed (`str::trim_start_matches`).
pub open spec fn strip_prefixes(s: Seq<char>, p: Seq<char>) -> Seq<char>
    decreases s.len(),
{
    if p.len() > 0 && starts_with(s, p) {
        strip_prefixes(s.skip(p.len() as int), p)
    } else {
        s
    }
}

pub(crate) fn strip_prefixes_exec(s: &str, p: &str) -> (r: String)
    ensures
        r@ == strip_prefixes(s@, p@),
{
    let c = str_chars(s);
    let pc = str_chars(p);
    let mut i: usize = 0;
    assert(c@.skip(0) =~= c@);
    while pc.len() > 0 && i <= c.len() && has_prefix_at(&c, i, &pc)
        invariant
            i <= c@.len(),
            c@ == s@,
            pc@ == p@,
            strip_prefixes(s@, p@) == strip_prefixes(c@.skip(i as int), p@),
        decreases c@.len() - i,
    {
        proof {
            assert(c@.skip(i as int).skip(pc@.len() as int) =~= c@.skip(i + pc@.len()));
        }
        i = i + pc.len();
    }
    let r = s.substring_char(i, c.len());
    assert(r@ =~= c@.skip(i as int));
    r.to_owned()
}

/// The identities as (id, name) pairs.
pub open spec fn id_name_pairs(ids: Seq<Identity>) -> Seq<(Seq<char>, Seq<char>)> {
    ids.map_values(|i: Identity| (i.id@, i.name@))
}

pub open spec fn pairs_view(v: Seq<(String, String)>) -> Seq<(Seq<char>, Seq<char>)> {
    v.map_values(|p: (String, String)| (p.0@, p.1@))
}

/// A copy of a list of string pairs.
pub(crate) fn copy_pairs(v: &Vec<(String, String)>) -> (r: Vec<(String, String)>)
    ensures
        r@ == v@,
{
    let mut r: Vec<(String, String)> = Vec::new();
    let mut i: usize = 0;
    while i < v.len()
        invariant
            i <= v@.len(),
            r@ == v@.take(i as int),
        decreases v@.len() - i,
    {
        let p = (v[i].0.clone(), v[i].1.clone());
        r.push(p);
        i = i + 1;
        assert(r@ =~= v@.take(i as int));
    }
    assert(r@ =~= v@);
    r
}

/// The (id, name) pairs of the identities, for a view to list.
pub fn identity_name_list(ids: &IdentityConfig) -> (r: Vec<(String, String)>)
    ensures
        pairs_view(r@) == id_name_pairs(ids.identities@),
{
    let mut r: Vec<(String, String)> = Vec::new();
    let mut i: usize = 0;
    while i < ids.identities.len()
        invariant
            i <= ids.identities@.len(),
            pairs_view(r@) == id_name_pairs(ids.identities@.take(i as int)),
        decreases ids.identities@.len() - i,
    {
        let ghost r0 = r@;
        let id = ids.identities[i].id.clone();
        let name = ids.identities[i].name.clone();
        r.push((id, name));
        proof {
            assert(r@ == r0.push((id, name)));
            assert(pairs_view(r@) =~= pairs_view(r0).push((id@, name@)));
            assert(ids.identities@.take(i + 1) =~= ids.identities@.take(i as int).push(
                ids.identities@[i as int],
            ));
            assert(id_name_pairs(ids.identities@.take(i + 1)) =~= id_name_pairs(
                ids.identities@.take(i as int),
            ).push((id@, name@)));
        }
        i = i + 1;
    }
    assert(ids.identities@.take(ids.identities@.len() as int) =~= ids.identities@);
    r
}

// ---------------------------------------------------------------------
// Navigation
// ---------------------------------------------------------------------

pub(crate) fn has_prefix(s: &str, p: &str) -> (b: bool)
    ensures
        b == starts_with(s@, p@),
{
    let c = str_chars(s);
    let pc = str_chars(p);
    assert(c@.subrange(0, c@.len() as int) =~= c@);
    has_prefix_at(&c, 0, &pc)
}

/// Going to `url` typed or followed: a `titan://` URL opens the upload
/// form, a `misfin://` URL the message form, anything else is fetched.
pub open spec fn open_url_post(
    old: AppModel,
    new: AppModel,
    ids: Seq<Identity>,
    url: Seq<char>,
    fx: Seq<EffectView>,
) -> bool {
    let t = active(new);
    &&& only_active_changed(old, new)
    &&& new.url_bar_text@ == url
    &&& t.url@ == url
    &&& t.history == active(old).history
    &&& t.history_index == active(old).history_index
    &&& if starts_with(url, "titan://"@) {
        &&& t.content matches TabContent::TitanUpload { url: u, mime, text, token } && u@ == url
            && mime@ == "text/gemini"@ && text@.len() == 0 && token@.len() == 0
        &&& t.title@ == "Titan Upload"@
        &&& fx.len() == 0
    } else if starts_with(url, "misfin://"@) {
        &&& t.content matches TabContent::MisfinCompose {
            recipient,
            message,
            identity_id,
            char_count,
            identities,
        } && recipient@ == strip_prefixes(url, "misfin://"@) && message@.len() == 0
            && identity_id is None && char_count == 0 && pairs_view(identities@)
            == id_name_pairs(ids)
        &&& t.title@ == "Misfin Message"@
        &&& fx.len() == 0
    } else {
        &&& t.content is Loading
        &&& t.title == active(old).title
        &&& fx == seq![EffectView::Fetch(url)]
    }
}

pub(crate) fn open_url(model: &mut AppModel, ids: &IdentityConfig, url: String) -> (fx: Vec<Effect>)
    requires
        old(model).wf(),
    ensures
        final(model).wf(),
        open_url_post(*old(model), *final(model), ids.identities@, url@, effects_view(fx@)),
{
    model.url_bar_text = url.clone();
    let is_titan = has_prefix(url.as_str(), "titan://");
    let is_misfin = has_prefix(url.as_str(), "misfin://");
    let mut fx: Vec<Effect> = Vec::new();
    if is_titan {
        let t = model.active_tab_mut();
        t.url = url.clone();
        t.content = TabContent::TitanUpload {
            url: url.clone(),
            mime: String::from_str("text/gemini"),
            text: String::new(),
            token: String::new(),
        };
        t.title = String::from_str("Titan Upload");
    } else if is_misfin {
        let recipient = strip_prefixes_exec(url.as_str(), "misfin://");
        let idents = identity_name_list(ids);
        let t = model.active_tab_mut();
        t.url = url.clone();
        t.content = TabContent::MisfinCompose {
            recipient,
            message: String::new(),
            identity_id: None,
            char_count: 0,
            identities: idents,
        };
        t.title = String::from_str("Misfin Message");
    } else {
        let t = model.active_tab_mut();
        t.url = url.clone();
        t.content = TabContent::Loading;
        fx.push(Effect::Fetch(url));
    }
    proof {
        assert(effects_view(fx@) =~= (if !is_titan && !is_misfin {
            seq![EffectView::Fetch(url@)]
        } else {
            Seq::empty()
        }));
    }
    fx
}

/// The page at `url` is being fetched into the active tab.
pub open spec fn loading_post(old: AppModel, new: AppModel, url: Seq<char>) -> bool {
    let t = active(new);
    &&& only_active_changed(old, new)
    &&& new.url_bar_text@ == url
    &&& t.url@ == url
    &&& t.content is Loading
    &&& t.title == active(old).title
    &&& t.history == active(old).history
    &&& t.history_index == active(old).history_index
}

pub(crate) fn start_loading(model: &mut AppModel, url: &String)
    requires
        old(model).wf(),
    ensures
        final(model).wf(),
        loading_post(*old(model), *final(model), url@),
{
    model.url_bar_text = url.clone();
    let t = model.active_tab_mut();
    t.url = url.clone();
    t.content = TabContent::Loading;
}

/// Following a link: relative links are resolved against the page; links
/// to Titan or Misfin open their forms, other non-Gemini links open
/// outside the browser.
pub open spec fn link_post(
    old: AppModel,
    new: AppModel,
    ids: Seq<Identity>,
    href: Seq<char>,
    fx: Seq<EffectView>,
) -> bool {
    let r = resolve_url_spec(active(old).url@, href);
    match url_components(r) {
        Ok((scheme, _, _, _)) => if scheme == "titan"@ || scheme == "misfin"@ {
            open_url_post(old, new, ids, normalize_url_spec(r), fx)
        } else if scheme != "gemini"@ {
            new == old && fx == seq![EffectView::OpenExternal(r)]
        } else {
            loading_post(old, new, r) && fx == seq![EffectView::Fetch(r)]
        },
        Err(_) => loading_post(old, new, r) && fx == seq![EffectView::Fetch(r)],
    }
}

pub(crate) fn link_clicked(model: &mut AppModel, ids: &IdentityConfig, href: &str) -> (fx: Vec<Effect>)
    requires
        old(model).wf(),
    ensures
        final(model).wf(),
        link_post(*old(model), *final(model), ids.identities@, href@, effects_view(fx@)),
{
    let resolved = resolve_url(model.active_tab().url.as_str(), href);
    match parse_url_parts(resolved.as_str()) {
        Ok(parts) => {
            let s = parts.scheme.as_str();
            if crate::strmap::str_eq(s, "titan") || crate::strmap::str_eq(s, "misfin") {
                let url = normalize_url(resolved.as_str());
                return open_url(model, ids, url);
            }
            if !crate::strmap::str_eq(s, "gemini") {
                let mut fx: Vec<Effect> = Vec::new();
                fx.push(Effect::OpenExternal(resolved));
                assert(effects_view(fx@) =~= seq![fx@[0]@]);
                return fx;
            }
        },
        Err(_) => {},
    }
    start_loading(model, &resolved);
    let mut fx: Vec<Effect> = Vec::new();
    fx.push(Effect::Fetch(resolved));
    assert(effects_view(fx@) =~= seq![fx@[0]@]);
    fx
}

/// Showing a history page: its cached blocks when it has them, else a
/// fetch.
pub open spec fn history_page_post(
    old: AppModel,
    new: AppModel,
    idx: usize,
    e: HistoryEntry,
    fx: Seq<EffectView>,
) -> bool {
    let t = active(new);
    &&& only_active_changed(old, new)
    &&& new.url_bar_text@ == e.url@
    &&& t.url@ == e.url@
    &&& t.history == active(old).history
    &&& t.history_index == Some(idx)
    &&& match e.content {
        Some(c) => {
            &&& t.content matches TabContent::Document(b) && blocks_view(b@) == blocks_view(c@)
            &&& t.title@ == e.title@
            &&& fx.len() == 0
        },
        None => {
            &&& t.content is Loading
            &&& t.title == active(old).title
            &&& fx == seq![EffectView::Fetch(e.url@)]
        },
    }
}

/// Moving through the history one step back or forward.
pub open spec fn history_move_post(
    old: AppModel,
    new: AppModel,
    back: bool,
    fx: Seq<EffectView>,
) -> bool {
    let t = active(old);
    if !can_move(t, back) {
        model_unchanged(old, new) && fx.len() == 0
    } else {
        let i = moved_index(t, back);
        if i < t.history@.len() {
            history_page_post(old, new, i as usize, t.history@[i], fx)
        } else {
            &&& only_active_changed(old, new)
            &&& new.url_bar_text == old.url_bar_text
            &&& active(new) == TabState { history_index: Some(i as usize), ..t }
            &&& fx.len() == 0
        }
    }
}

fn show_history_entry(model: &mut AppModel, idx: usize, url: String, title: String, content: Option<Vec<Block>>) -> (fx: Vec<Effect>)
    requires
        old(model).wf(),
    ensures
        final(model).wf(),
        ({
            let t = active(*final(model));
            &&& only_active_changed(*old(model), *final(model))
            &&& final(model).url_bar_text@ == url@
            &&& t.url@ == url@
            &&& t.history == active(*old(model)).history
            &&& t.history_index == active(*old(model)).history_index
            &&& match content {
                Some(c) => {
                    &&& t.content matches TabContent::Document(b) && blocks_view(b@) == blocks_view(c@)
                    &&& t.title@ == title@
                    &&& effects_view(fx@).len() == 0
                },
                None => {
                    &&& t.content is Loading
                    &&& t.title == active(*old(model)).title
                    &&& effects_view(fx@) == seq![EffectView::Fetch(url@)]
                },
            }
        }),
{
    model.url_bar_text = url.clone();
    let mut fx: Vec<Effect> = Vec::new();
    let t = model.active_tab_mut();
    t.url = url.clone();
    match content {
        Some(c) => {
            t.content = TabContent::Document(c);
            t.title = title;
        },
        None => {
            t.content = TabContent::Loading;
            fx.push(Effect::Fetch(url));
        },
    }
    assert(effects_view(fx@) =~= (if fx@.len() == 0 {
        Seq::empty()
    } else {
        seq![fx@[0]@]
    }));
    fx
}

/// The blocks of an optional list, as views.
pub open spec fn opt_blocks_view(o: Option<Vec<Block>>) -> Option<Seq<BlockView>> {
    match o {
        Some(v) => Some(blocks_view(v@)),
        None => None,
    }
}

/// The cursor position a history move leads to.
pub open spec fn moved_index(t: TabState, back: bool) -> int {
    if back {
        t.history_index->0 - 1
    } else {
        t.history_index->0 + 1
    }
}

/// Whether a history move is possible.
pub open spec fn can_move(t: TabState, back: bool) -> bool {
    if back {
        crate::tab::can_back(t.history_index)
    } else {
        crate::tab::can_forward(t.history@, t.history_index)
    }
}

fn step_history(t: &mut TabState, back: bool) -> (r: Option<(String, String, Option<Vec<Block>>)>)
    ensures
        !can_move(*old(t), back) ==> *final(t) == *old(t) && r is None,
        can_move(*old(t), back) ==> {
            let i = moved_index(*old(t), back);
            &&& *final(t) == TabState { history_index: Some(i as usize), ..*old(t) }
            &&& (r is Some <==> i < old(t).history@.len())
            &&& r matches Some((u, ti, c)) ==> u@ == old(t).history@[i].url@ && ti@ == old(
                t,
            ).history@[i].title@ && opt_blocks_view(c) == opt_blocks_view(
                old(t).history@[i].content,
            )
        },
{
    let r = if back {
        t.go_back()
    } else {
        t.go_forward()
    };
    match r {
        Some(e) => {
            let content = match &e.content {
                Some(c) => Some(clone_blocks(c)),
                None => None,
            };
            Some((e.url.clone(), e.title.clone(), content))
        },
        None => None,
    }
}

pub(crate) fn move_in_history(model: &mut AppModel, back: bool) -> (fx: Vec<Effect>)
    requires
        old(model).wf(),
    ensures
        final(model).wf(),
        history_move_post(*old(model), *final(model), back, effects_view(fx@)),
{
    let ghost t0 = active(*model);
    let ghost i = moved_index(t0, back);
    let found = step_history(model.active_tab_mut(), back);
    let ghost mid = *model;
    if found.is_none() {
        proof {
            assert(model.tabs@ =~= old(model).tabs@.update(old(model).active_tab as int, active(*model)));
            if !can_move(t0, back) {
                assert(model.tabs@ =~= old(model).tabs@);
            }
        }
        return Vec::new();
    }
    let (url, title, content) = found.unwrap();
    let idx = match model.tabs[model.active_tab].history_index {
        Some(k) => k,
        None => 0,
    };
    let fx = show_history_entry(model, idx, url, title, content);
    proof {
        assert forall|k: int|
            0 <= k < old(model).tabs@.len() && k != old(model).active_tab implies #[trigger] model.tabs@[k]
                == old(model).tabs@[k] by {
            assert(mid.tabs@[k] == old(model).tabs@[k]);
        }
    }
    fx
}

} // verus!
