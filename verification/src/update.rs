//! The browser's reaction to each message, one handler per kind of
//! message, and [`update`], which picks the handler.
use vstd::prelude::*;
use vstd::string::{StrSliceExecFns, StringExecFns};

use crate::browser::{
    active, effects_view, fetch_effect, fetch_for, has_prefix, link_clicked, link_post,
    model_unchanged, move_in_history, only_active_changed, only_content_changed, open_url,
    open_url_post, start_loading, loading_post, history_move_post, moved_index, url_host, host_of, AppMessage,
    Effect, EffectView,
};
use crate::browser::{bound_identity, bound_identity_for};
use crate::config::{AppConfig, PageContent, PageStatus};
use crate::gemtext::{
    extract_title, gemtext_blocks, normalize_url, normalize_url_spec, parse_gemtext, resolve_url,
    resolve_url_spec, title_index,
};
use crate::identity::{
    bindings_without, generate_identity, identities_without, import_identity, import_outcome,
    made_identity, Identity, IdentityConfig,
};
use crate::model::AppModel;
use crate::tab::{
    blocks_view, clone_blocks, history_after_push, index_after_push, BlockView, TabContent,
    TabState,
};
use crate::browser::{id_name_pairs, identity_name_list, pairs_view, strip_prefixes, strip_prefixes_exec};
use crate::model::restored_tab;
use crate::browser::CommandView;
use crate::node::HydraCommand;
use crate::session::SessionData;
use crate::tab::Block;
use crate::text::starts_with;
use crate::titan::TitanRequest;
use crate::urlparse::{set_url_query, url_with_query_serialization};
use crate::time::rfc3339_offset;
use vstd::utf8::encode_utf8;
use vstd::string::StringSliceAdditionalSpecFns;

verus! {

// ---------------------------------------------------------------------
// Changing the active tab's content
// ---------------------------------------------------------------------

/// Only the active tab's content changed, and it is now `c`.
pub open spec fn content_is(old: AppModel, new: AppModel, c: TabContent) -> bool {
    only_content_changed(old, new) && active(new).content == c
}

/// Only the active tab's content and title changed, to `c` and `title`.
pub open spec fn content_titled(old: AppModel, new: AppModel, c: TabContent, title: Seq<char>) -> bool {
    &&& only_active_changed(old, new)
    &&& new.url_bar_text == old.url_bar_text
    &&& active(new).url == active(old).url
    &&& active(new).history == active(old).history
    &&& active(new).history_index == active(old).history_index
    &&& active(new).content == c
    &&& active(new).title@ == title
}

fn set_content(model: &mut AppModel, c: TabContent)
    requires
        old(model).wf(),
    ensures
        final(model).wf(),
        content_is(*old(model), *final(model), c),
{
    let t = model.active_tab_mut();
    t.content = c;
}

fn set_content_titled(model: &mut AppModel, c: TabContent, title: &str)
    requires
        old(model).wf(),
    ensures
        final(model).wf(),
        content_titled(*old(model), *final(model), c, title@),
{
    let t = model.active_tab_mut();
    t.content = c;
    t.title = String::from_str(title);
}

fn no_effects() -> (fx: Vec<Effect>)
    ensures
        effects_view(fx@) == Seq::<EffectView>::empty(),
{
    let fx: Vec<Effect> = Vec::new();
    assert(effects_view(fx@) =~= Seq::<EffectView>::empty());
    fx
}

fn one_effect(e: Effect) -> (fx: Vec<Effect>)
    ensures
        effects_view(fx@) == seq![e@],
{
    let mut fx: Vec<Effect> = Vec::new();
    fx.push(e);
    assert(effects_view(fx@) =~= seq![e@]);
    fx
}

fn two_effects(a: Effect, b: Effect) -> (fx: Vec<Effect>)
    ensures
        effects_view(fx@) == seq![a@, b@],
{
    let mut fx: Vec<Effect> = Vec::new();
    fx.push(a);
    fx.push(b);
    assert(effects_view(fx@) =~= seq![a@, b@]);
    fx
}

// ---------------------------------------------------------------------
// Navigation and tabs
// ---------------------------------------------------------------------

/// Going home: the home page when one is set, else the bookmarks.
pub open spec fn go_home_post(
    old: AppModel,
    new: AppModel,
    ids: Seq<Identity>,
    home: Seq<char>,
    fx: Seq<EffectView>,
) -> bool {
    if home.len() > 0 {
        open_url_post(old, new, ids, normalize_url_spec(home), fx)
    } else {
        model_unchanged(old, new) && fx == seq![EffectView::ShowBookmarks]
    }
}

fn go_home(model: &mut AppModel, ids: &IdentityConfig, config: &AppConfig) -> (fx: Vec<Effect>)
    requires
        old(model).wf(),
    ensures
        final(model).wf(),
        go_home_post(*old(model), *final(model), ids.identities@, config.home_page@, effects_view(fx@)),
{
    if config.home_page.as_str().unicode_len() > 0 {
        let url = normalize_url(config.home_page.as_str());
        open_url(model, ids, url)
    } else {
        one_effect(Effect::ShowBookmarks)
    }
}

/// Reloading fetches the active tab's page again, when it has one.
pub open spec fn reload_post(old: AppModel, new: AppModel, fx: Seq<EffectView>) -> bool {
    let u = active(old).url@;
    if u.len() > 0 {
        content_is(old, new, TabContent::Loading) && fx == seq![EffectView::Fetch(u)]
    } else {
        model_unchanged(old, new) && fx.len() == 0
    }
}

fn reload(model: &mut AppModel) -> (fx: Vec<Effect>)
    requires
        old(model).wf(),
    ensures
        final(model).wf(),
        reload_post(*old(model), *final(model), effects_view(fx@)),
{
    let url = model.active_tab().url.clone();
    if url.as_str().unicode_len() > 0 {
        set_content(model, TabContent::Loading);
        one_effect(Effect::Fetch(url))
    } else {
        no_effects()
    }
}

/// A new tab opens on the home page, fetched as typed, or else on the
/// bookmarks.
pub open spec fn new_tab_post(old: AppModel, new: AppModel, home: Seq<char>, fx: Seq<EffectView>) -> bool {
    let n = old.tabs@.len();
    let t = new.tabs@[n as int];
    &&& new.wf()
    &&& new.tabs@.len() == n + 1
    &&& new.tabs@.take(n as int) == old.tabs@
    &&& new.active_tab == n
    &&& new.url_bar_focused
    &&& new.hydra_status == old.hydra_status
    &&& new.hydra_alerts == old.hydra_alerts
    &&& t.title@ == "New Tab"@
    &&& t.history@.len() == 0
    &&& t.history_index is None
    &&& if home.len() > 0 {
        &&& new.url_bar_text@ == home
        &&& t.url@ == home
        &&& t.content is Loading
        &&& fx == seq![EffectView::RebuildTabs, EffectView::Fetch(home)]
    } else {
        &&& new.url_bar_text@.len() == 0
        &&& t.url@.len() == 0
        &&& t.content is Blank
        &&& fx == seq![EffectView::ShowBookmarks, EffectView::RebuildTabs]
    }
}

fn open_new_tab(model: &mut AppModel, config: &AppConfig) -> (fx: Vec<Effect>)
    requires
        old(model).wf(),
        old(model).tabs@.len() < usize::MAX,
    ensures
        final(model).wf(),
        new_tab_post(*old(model), *final(model), config.home_page@, effects_view(fx@)),
{
    model.new_tab();
    if config.home_page.as_str().unicode_len() > 0 {
        let url = config.home_page.clone();
        model.url_bar_text = url.clone();
        let t = model.active_tab_mut();
        t.url = url.clone();
        t.content = TabContent::Loading;
        proof {
            assert(model.tabs@.take(old(model).tabs@.len() as int) =~= old(model).tabs@);
        }
        two_effects(Effect::RebuildTabs, Effect::Fetch(url))
    } else {
        two_effects(Effect::ShowBookmarks, Effect::RebuildTabs)
    }
}

/// Closing a tab (`usize::MAX`: the active one). The last tab is not
/// closed but emptied, and the bookmarks shown in it.
pub open spec fn close_tab_post(old: AppModel, new: AppModel, index: usize, fx: Seq<EffectView>) -> bool {
    let idx = if index == usize::MAX {
        old.active_tab
    } else {
        index
    };
    if old.tabs@.len() > 1 {
        &&& new.tabs@ == old.tabs@.remove(idx as int)
        &&& new.active_tab == (if old.active_tab < new.tabs@.len() {
            old.active_tab as int
        } else {
            new.tabs@.len() - 1
        })
        &&& new.url_bar_text@ == new.tabs@[new.active_tab as int].url@
        &&& new.url_bar_focused == old.url_bar_focused
        &&& new.hydra_status == old.hydra_status
        &&& new.hydra_alerts == old.hydra_alerts
        &&& fx == seq![EffectView::RebuildTabs]
    } else {
        &&& only_active_changed(old, new)
        &&& new.url_bar_text@.len() == 0
        &&& active(new).url@.len() == 0
        &&& active(new).title@ == "New Tab"@
        &&& active(new).content == active(old).content
        &&& active(new).history == active(old).history
        &&& active(new).history_index == active(old).history_index
        &&& fx == seq![EffectView::ShowBookmarks, EffectView::RebuildTabs]
    }
}

fn close_tab_at(model: &mut AppModel, index: usize) -> (fx: Vec<Effect>)
    requires
        old(model).wf(),
        index == usize::MAX || index < old(model).tabs@.len() || old(model).tabs@.len() <= 1,
    ensures
        final(model).wf(),
        close_tab_post(*old(model), *final(model), index, effects_view(fx@)),
{
    let idx = if index == usize::MAX {
        model.active_tab
    } else {
        index
    };
    if model.close_tab(idx) {
        one_effect(Effect::RebuildTabs)
    } else {
        model.url_bar_text = String::new();
        let t = model.active_tab_mut();
        t.url = String::new();
        t.title = String::from_str("New Tab");
        two_effects(Effect::ShowBookmarks, Effect::RebuildTabs)
    }
}

/// Switching to tab `index` (an index past the end changes nothing); the
/// tab bar is rebuilt either way.
pub open spec fn switch_post(old: AppModel, new: AppModel, index: int, fx: Seq<EffectView>) -> bool {
    &&& new.tabs == old.tabs
    &&& new.url_bar_focused == old.url_bar_focused
    &&& new.hydra_status == old.hydra_status
    &&& new.hydra_alerts == old.hydra_alerts
    &&& (0 <= index < old.tabs@.len() ==> new.active_tab == index && new.url_bar_text@
        == old.tabs@[index].url@)
    &&& (index >= old.tabs@.len() ==> model_unchanged(old, new))
    &&& fx == seq![EffectView::RebuildTabs]
}

fn switch_to(model: &mut AppModel, index: usize) -> (fx: Vec<Effect>)
    requires
        old(model).wf(),
    ensures
        final(model).wf(),
        switch_post(*old(model), *final(model), index as int, effects_view(fx@)),
{
    model.switch_tab(index);
    one_effect(Effect::RebuildTabs)
}

/// The tab after the active one, wrapping round.
pub open spec fn next_index(m: AppModel) -> int {
    (m.active_tab + 1) % (m.tabs@.len() as int)
}

/// The tab before the active one, wrapping round.
pub open spec fn prev_index(m: AppModel) -> int {
    (m.active_tab + m.tabs@.len() - 1) % (m.tabs@.len() as int)
}

fn next_tab(model: &mut AppModel) -> (fx: Vec<Effect>)
    requires
        old(model).wf(),
    ensures
        final(model).wf(),
        switch_post(*old(model), *final(model), next_index(*old(model)), effects_view(fx@)),
{
    let len = model.tabs.len();
    let next = if model.active_tab + 1 < len {
        model.active_tab + 1
    } else {
        0
    };
    assert(next == next_index(*model)) by {
        if model.active_tab + 1 < len {
            vstd::arithmetic::div_mod::lemma_small_mod((model.active_tab + 1) as nat, len as nat);
        } else {
            vstd::arithmetic::div_mod::lemma_mod_self_0(len as int);
        }
    }
    switch_to(model, next)
}

fn prev_tab(model: &mut AppModel) -> (fx: Vec<Effect>)
    requires
        old(model).wf(),
    ensures
        final(model).wf(),
        switch_post(*old(model), *final(model), prev_index(*old(model)), effects_view(fx@)),
{
    let len = model.tabs.len();
    let prev = if model.active_tab == 0 {
        len - 1
    } else {
        model.active_tab - 1
    };
    assert(prev == prev_index(*model)) by {
        if model.active_tab == 0 {
            vstd::arithmetic::div_mod::lemma_small_mod((len - 1) as nat, len as nat);
        } else {
            vstd::arithmetic::div_mod::lemma_mod_adds(model.active_tab - 1, len as int, len as int);
            vstd::arithmetic::div_mod::lemma_mod_self_0(len as int);
            vstd::arithmetic::div_mod::lemma_small_mod((model.active_tab - 1) as nat, len as nat);
        }
    }
    switch_to(model, prev)
}

// ---------------------------------------------------------------------
// Identities as the views list them
// ---------------------------------------------------------------------

/// The identities as (id, name, fingerprint).
pub open spec fn id_triples(ids: Seq<Identity>) -> Seq<(Seq<char>, Seq<char>, Seq<char>)> {
    ids.map_values(|i: Identity| (i.id@, i.name@, i.fingerprint@))
}

pub open spec fn triples_view(v: Seq<(String, String, String)>) -> Seq<
    (Seq<char>, Seq<char>, Seq<char>),
> {
    v.map_values(|p: (String, String, String)| (p.0@, p.1@, p.2@))
}

fn identity_triples(ids: &IdentityConfig) -> (r: Vec<(String, String, String)>)
    ensures
        triples_view(r@) == id_triples(ids.identities@),
{
    let mut r: Vec<(String, String, String)> = Vec::new();
    let mut i: usize = 0;
    while i < ids.identities.len()
        invariant
            i <= ids.identities@.len(),
            triples_view(r@) == id_triples(ids.identities@.take(i as int)),
        decreases ids.identities@.len() - i,
    {
        let ghost r0 = r@;
        let e = &ids.identities[i];
        let row = (e.id.clone(), e.name.clone(), e.fingerprint.clone());
        r.push(row);
        proof {
            assert(r@ == r0.push(row));
            assert(triples_view(r@) =~= triples_view(r0).push((row.0@, row.1@, row.2@)));
            assert(ids.identities@.take(i + 1) =~= ids.identities@.take(i as int).push(
                ids.identities@[i as int],
            ));
            assert(id_triples(ids.identities@.take(i + 1)) =~= id_triples(
                ids.identities@.take(i as int),
            ).push((row.0@, row.1@, row.2@)));
        }
        i = i + 1;
    }
    assert(ids.identities@.take(ids.identities@.len() as int) =~= ids.identities@);
    r
}

/// The page that offers the identities for `url`.
pub open spec fn identity_choice(c: TabContent, url: Seq<char>, ids: Seq<Identity>) -> bool {
    c matches TabContent::IdentityRequired { url: u, identities } && u@ == url && triples_view(
        identities@,
    ) == id_triples(ids)
}

fn offer_identities(model: &mut AppModel, ids: &IdentityConfig, url: String)
    requires
        old(model).wf(),
    ensures
        final(model).wf(),
        only_content_changed(*old(model), *final(model)),
        identity_choice(active(*final(model)).content, url@, ids.identities@),
{
    let identities = identity_triples(ids);
    set_content(model, TabContent::IdentityRequired { url, identities });
}

// ---------------------------------------------------------------------
// Loaded pages
// ---------------------------------------------------------------------

/// The title of a page rendered to `blocks` from `url`: its first
/// non-empty level-1 heading, else the URL.
pub open spec fn page_title(blocks: Seq<BlockView>, url: Seq<char>) -> Seq<char> {
    let j = title_index(blocks, 0);
    if j < blocks.len() {
        match blocks[j] {
            BlockView::Heading { text, .. } => text,
            _ => url,
        }
    } else {
        url
    }
}

/// The active tab shows the error `e`.
pub open spec fn error_shown(old: AppModel, new: AppModel, e: Seq<char>) -> bool {
    &&& only_content_changed(old, new)
    &&& active(new).content matches TabContent::Error(m) && m@ == e
}

/// A successful page with body `body` at `url`: rendered, titled, pushed
/// onto the history, recorded in the global history; its images fetched
/// when images load automatically.
pub open spec fn document_post(
    old: AppModel,
    new: AppModel,
    url: Seq<char>,
    body: Seq<char>,
    auto_images: bool,
    fx: Seq<EffectView>,
) -> bool {
    let blocks = gemtext_blocks(body, url);
    let title = page_title(blocks, url);
    let t = active(new);
    let t0 = active(old);
    &&& only_active_changed(old, new)
    &&& new.url_bar_text == old.url_bar_text
    &&& t.url == t0.url
    &&& t.title@ == title
    &&& t.content matches TabContent::Document(bs) && blocks_view(bs@) == blocks
    &&& t.history@ == history_after_push(t0.history@, t0.history_index, t.history@.last())
    &&& t.history@.last().url@ == url
    &&& t.history@.last().title@ == title
    &&& t.history@.last().content matches Some(c) && blocks_view(c@) == blocks
    &&& t.history_index matches Some(j) && index_after_push(t0.history_index) == Some(j as int)
    &&& fx == seq![EffectView::RebuildTabs, EffectView::AddHistory(url, title)] + (if auto_images {
        seq![EffectView::FetchImages(old.active_tab)]
    } else {
        Seq::empty()
    })
}

/// What a loaded page (or a failed load) does to the active tab.
pub open spec fn page_loaded_post(
    old: AppModel,
    new: AppModel,
    bindings: Map<Seq<char>, Seq<char>>,
    ids: Seq<Identity>,
    auto_images: bool,
    r: Result<PageContent, String>,
    fx: Seq<EffectView>,
) -> bool {
    match r {
        Err(e) => error_shown(old, new, e@) && fx.len() == 0,
        Ok(p) => {
            let url = p.url@;
            match p.status {
                PageStatus::Success => match p.body {
                    Some(body) => document_post(old, new, url, body@, auto_images, fx),
                    None => model_unchanged(old, new) && fx.len() == 0,
                },
                PageStatus::Input { sensitive } => {
                    &&& only_content_changed(old, new)
                    &&& active(new).content matches TabContent::Input {
                        prompt,
                        sensitive: s,
                        value,
                    } && prompt@ == p.meta@ && s == sensitive && value@.len() == 0
                    &&& fx.len() == 0
                },
                PageStatus::Redirect(target) => {
                    let to = resolve_url_spec(url, target@);
                    loading_post(old, new, to) && fx == seq![fetch_effect(bindings, to)]
                },
                PageStatus::TempFail | PageStatus::PermFail => {
                    error_shown(old, new, "Server error: "@ + p.meta@) && fx.len() == 0
                },
                PageStatus::CertRequired => match bound_identity(bindings, url) {
                    Some(id) => model_unchanged(old, new) && fx == seq![
                        EffectView::FetchWithIdentity(url, id),
                    ],
                    None => {
                        &&& only_content_changed(old, new)
                        &&& identity_choice(active(new).content, url, ids)
                        &&& fx.len() == 0
                    },
                },
            }
        },
    }
}

fn show_error(model: &mut AppModel, prefix: &str, detail: &str)
    requires
        old(model).wf(),
    ensures
        final(model).wf(),
        error_shown(*old(model), *final(model), prefix@ + detail@),
{
    let m = String::from_str(prefix).concat(detail);
    set_content(model, TabContent::Error(m));
}

fn show_document(model: &mut AppModel, url: &String, body: &String, auto_images: bool) -> (fx: Vec<Effect>)
    requires
        old(model).wf(),
        active(*old(model)).history_index matches Some(i) ==> i < usize::MAX,
    ensures
        final(model).wf(),
        document_post(*old(model), *final(model), url@, body@, auto_images, effects_view(fx@)),
{
    let blocks = parse_gemtext(body.as_str(), url.as_str());
    let title = match extract_title(blocks.as_slice()) {
        Some(t) => t,
        None => url.clone(),
    };
    let tab_index = model.active_tab;
    let t = model.active_tab_mut();
    t.title = title.clone();
    t.push_history(url.as_str(), title.as_str(), Some(clone_blocks(&blocks)));
    t.content = TabContent::Document(blocks);
    let mut fx: Vec<Effect> = Vec::new();
    fx.push(Effect::RebuildTabs);
    fx.push(Effect::AddHistory { url: url.clone(), title });
    if auto_images {
        fx.push(Effect::FetchImages { tab_index });
    }
    proof {
        let ghost bl = gemtext_blocks(body@, url@);
        assert(effects_view(fx@) =~= seq![
            EffectView::RebuildTabs,
            EffectView::AddHistory(url@, page_title(bl, url@)),
        ] + (if auto_images {
            seq![EffectView::FetchImages(old(model).active_tab)]
        } else {
            Seq::empty()
        }));
    }
    fx
}

fn page_loaded(
    model: &mut AppModel,
    ids: &IdentityConfig,
    config: &AppConfig,
    r: &Result<PageContent, String>,
) -> (fx: Vec<Effect>)
    requires
        old(model).wf(),
        active(*old(model)).history_index matches Some(i) ==> i < usize::MAX,
    ensures
        final(model).wf(),
        page_loaded_post(
            *old(model),
            *final(model),
            ids.host_bindings@,
            ids.identities@,
            config.auto_load_images,
            *r,
            effects_view(fx@),
        ),
{
    match r {
        Err(e) => {
            set_content(model, TabContent::Error(e.clone()));
            no_effects()
        },
        Ok(p) => match &p.status {
            PageStatus::Success => match &p.body {
                Some(body) => show_document(model, &p.url, body, config.auto_load_images),
                None => no_effects(),
            },
            PageStatus::Input { sensitive } => {
                set_content(
                    model,
                    TabContent::Input {
                        prompt: p.meta.clone(),
                        sensitive: *sensitive,
                        value: String::new(),
                    },
                );
                no_effects()
            },
            PageStatus::Redirect(target) => {
                let to = resolve_url(p.url.as_str(), target.as_str());
                start_loading(model, &to);
                one_effect(fetch_for(ids, to))
            },
            PageStatus::TempFail | PageStatus::PermFail => {
                show_error(model, "Server error: ", p.meta.as_str());
                no_effects()
            },
            PageStatus::CertRequired => match bound_identity_for(ids, p.url.as_str()) {
                Some(id) => one_effect(
                    Effect::FetchWithIdentity { url: p.url.clone(), identity_id: id },
                ),
                None => {
                    offer_identities(model, ids, p.url.clone());
                    no_effects()
                },
            },
        },
    }
}

// ---------------------------------------------------------------------
// Forms and other page states
// ---------------------------------------------------------------------

/// Only the active tab's content and title changed; the title is now
/// `title`.
pub open spec fn retitled(old: AppModel, new: AppModel, title: Seq<char>) -> bool {
    &&& only_active_changed(old, new)
    &&& new.url_bar_text == old.url_bar_text
    &&& active(new).url == active(old).url
    &&& active(new).history == active(old).history
    &&& active(new).history_index == active(old).history_index
    &&& active(new).title@ == title
}

/// Submitting an input prompt: the page's URL with the answer as its
/// query is fetched (with the identity bound to its host).
pub open spec fn input_submitted_post(
    old: AppModel,
    new: AppModel,
    bindings: Map<Seq<char>, Seq<char>>,
    value: Seq<char>,
    fx: Seq<EffectView>,
) -> bool {
    match url_with_query_serialization(active(old).url@, value) {
        Some(u) => loading_post(old, new, u) && fx == seq![fetch_effect(bindings, u)],
        None => model_unchanged(old, new) && fx.len() == 0,
    }
}

fn input_submitted(model: &mut AppModel, ids: &IdentityConfig, value: &str) -> (fx: Vec<Effect>)
    requires
        old(model).wf(),
    ensures
        final(model).wf(),
        input_submitted_post(*old(model), *final(model), ids.host_bindings@, value@, effects_view(fx@)),
{
    match set_url_query(model.active_tab().url.as_str(), value) {
        Some(u) => {
            start_loading(model, &u);
            one_effect(fetch_for(ids, u))
        },
        None => no_effects(),
    }
}

/// The typed answer of an input prompt is kept in the page.
pub open spec fn input_changed_post(old: AppModel, new: AppModel, value: String) -> bool {
    match active(old).content {
        TabContent::Input { prompt, sensitive, .. } => content_is(
            old,
            new,
            TabContent::Input { prompt, sensitive, value },
        ),
        _ => model_unchanged(old, new),
    }
}

fn input_changed(model: &mut AppModel, value: String)
    requires
        old(model).wf(),
    ensures
        final(model).wf(),
        input_changed_post(*old(model), *final(model), value),
{
    let c = match &model.active_tab().content {
        TabContent::Input { prompt, sensitive, .. } => Some(
            TabContent::Input { prompt: prompt.clone(), sensitive: *sensitive, value },
        ),
        _ => None,
    };
    if let Some(c) = c {
        set_content(model, c);
    }
}

/// Bookmarking the active page, when it has a URL.
pub open spec fn bookmark_effects(old: AppModel) -> Seq<EffectView> {
    let t = active(old);
    if t.url@.len() > 0 {
        seq![EffectView::AddBookmark(t.url@, t.title@)]
    } else {
        Seq::empty()
    }
}

fn toggle_bookmark(model: &AppModel) -> (fx: Vec<Effect>)
    requires
        model.wf(),
    ensures
        effects_view(fx@) == bookmark_effects(*model),
{
    let t = model.active_tab();
    if t.url.as_str().unicode_len() > 0 {
        one_effect(Effect::AddBookmark { url: t.url.clone(), title: t.title.clone() })
    } else {
        no_effects()
    }
}

/// Bookmarking tab `i`, when it exists and has a URL.
pub open spec fn tab_bookmark_effects(old: AppModel, i: usize) -> Seq<EffectView> {
    if i < old.tabs@.len() && old.tabs@[i as int].url@.len() > 0 {
        seq![EffectView::AddBookmark(old.tabs@[i as int].url@, old.tabs@[i as int].title@)]
    } else {
        Seq::empty()
    }
}

fn bookmark_tab(model: &AppModel, i: usize) -> (fx: Vec<Effect>)
    ensures
        effects_view(fx@) == tab_bookmark_effects(*model, i),
{
    if i < model.tabs.len() && model.tabs[i].url.as_str().unicode_len() > 0 {
        one_effect(Effect::AddBookmark { url: model.tabs[i].url.clone(), title: model.tabs[i].title.clone() })
    } else {
        no_effects()
    }
}

/// Trusting a certificate again: the pin of the URL's host is dropped and
/// the page fetched again.
pub open spec fn trust_effects(url: Seq<char>) -> Seq<EffectView> {
    match url_host(url) {
        Some(h) => seq![EffectView::RemoveKnownHost(h), EffectView::Fetch(url)],
        None => seq![EffectView::Fetch(url)],
    }
}

fn trust_certificate(model: &mut AppModel, url: String) -> (fx: Vec<Effect>)
    requires
        old(model).wf(),
    ensures
        final(model).wf(),
        content_is(*old(model), *final(model), TabContent::Loading),
        effects_view(fx@) == trust_effects(url@),
{
    set_content(model, TabContent::Loading);
    match host_of(url.as_str()) {
        Some(h) => two_effects(Effect::RemoveKnownHost(h), Effect::Fetch(url)),
        None => one_effect(Effect::Fetch(url)),
    }
}

/// Download progress is shown only while a download is shown.
pub open spec fn download_progress_post(old: AppModel, new: AppModel, filename: String, bytes: u64) -> bool {
    match active(old).content {
        TabContent::Download { complete, path, .. } => content_is(
            old,
            new,
            TabContent::Download { filename, bytes_downloaded: bytes, complete, path },
        ),
        _ => model_unchanged(old, new),
    }
}

fn download_progress(model: &mut AppModel, filename: String, bytes: u64)
    requires
        old(model).wf(),
    ensures
        final(model).wf(),
        download_progress_post(*old(model), *final(model), filename, bytes),
{
    let c = match &model.active_tab().content {
        TabContent::Download { complete, path, .. } => Some(
            TabContent::Download {
                filename,
                bytes_downloaded: bytes,
                complete: *complete,
                path: path.clone(),
            },
        ),
        _ => None,
    };
    if let Some(c) = c {
        set_content(model, c);
    }
}

// ---------------------------------------------------------------------
// Titan uploads
// ---------------------------------------------------------------------

/// The upload form for `url`, empty, for a gemtext document.
pub open spec fn titan_form(c: TabContent, url: Seq<char>) -> bool {
    c matches TabContent::TitanUpload { url: u, mime, text, token } && u@ == url && mime@
        == "text/gemini"@ && text@.len() == 0 && token@.len() == 0
}

fn open_titan_form(model: &mut AppModel, url: String)
    requires
        old(model).wf(),
    ensures
        final(model).wf(),
        retitled(*old(model), *final(model), "Titan Upload"@),
        titan_form(active(*final(model)).content, url@),
{
    let c = TabContent::TitanUpload {
        url,
        mime: String::from_str("text/gemini"),
        text: String::new(),
        token: String::new(),
    };
    set_content_titled(model, c, "Titan Upload");
}

/// Which field of the upload form an edit changes.
pub enum TitanField {
    Text,
    Token,
    Mime,
}

/// An edit of the upload form, kept only while the form is shown.
pub open spec fn titan_edit_post(old: AppModel, new: AppModel, field: TitanField, v: String) -> bool {
    match active(old).content {
        TabContent::TitanUpload { url, mime, text, token } => content_is(
            old,
            new,
            match field {
                TitanField::Text => TabContent::TitanUpload { url, mime, text: v, token },
                TitanField::Token => TabContent::TitanUpload { url, mime, text, token: v },
                TitanField::Mime => TabContent::TitanUpload { url, mime: v, text, token },
            },
        ),
        _ => model_unchanged(old, new),
    }
}

fn titan_edit(model: &mut AppModel, field: TitanField, v: String)
    requires
        old(model).wf(),
    ensures
        final(model).wf(),
        titan_edit_post(*old(model), *final(model), field, v),
{
    let c = match &model.active_tab().content {
        TabContent::TitanUpload { url, mime, text, token } => Some(
            match field {
                TitanField::Text => TabContent::TitanUpload {
                    url: url.clone(),
                    mime: mime.clone(),
                    text: v,
                    token: token.clone(),
                },
                TitanField::Token => TabContent::TitanUpload {
                    url: url.clone(),
                    mime: mime.clone(),
                    text: text.clone(),
                    token: v,
                },
                TitanField::Mime => TabContent::TitanUpload {
                    url: url.clone(),
                    mime: v,
                    text: text.clone(),
                    token: token.clone(),
                },
            },
        ),
        _ => None,
    };
    if let Some(c) = c {
        set_content(model, c);
    }
}

/// Sending the upload form: its text as the payload, its token unless
/// empty, with the identity bound to the URL's host.
pub open spec fn titan_submit_post(
    old: AppModel,
    new: AppModel,
    bindings: Map<Seq<char>, Seq<char>>,
    fx: Seq<EffectView>,
) -> bool {
    match active(old).content {
        TabContent::TitanUpload { url, mime, text, token } => {
            &&& content_is(old, new, TabContent::Loading)
            &&& fx == seq![
                EffectView::TitanUpload(
                    url@,
                    mime@,
                    if token@.len() == 0 {
                        None
                    } else {
                        Some(token@)
                    },
                    encode_utf8(text@),
                    bound_identity(bindings, url@),
                ),
            ]
        },
        _ => model_unchanged(old, new) && fx.len() == 0,
    }
}

fn titan_submit(model: &mut AppModel, ids: &IdentityConfig) -> (fx: Vec<Effect>)
    requires
        old(model).wf(),
    ensures
        final(model).wf(),
        titan_submit_post(*old(model), *final(model), ids.host_bindings@, effects_view(fx@)),
{
    let form = match &model.active_tab().content {
        TabContent::TitanUpload { url, mime, text, token } => Some(
            (url.clone(), mime.clone(), text.clone(), token.clone()),
        ),
        _ => None,
    };
    match form {
        Some((url, mime, text, token)) => {
            set_content(model, TabContent::Loading);
            let token = if token.as_str().unicode_len() == 0 {
                None
            } else {
                Some(token)
            };
            let identity_id = bound_identity_for(ids, url.as_str());
            let payload = text.as_str().as_bytes_vec();
            let request = TitanRequest { url, mime, token, payload };
            one_effect(Effect::TitanUpload { request, identity_id })
        },
        None => no_effects(),
    }
}

// ---------------------------------------------------------------------
// Misfin messages
// ---------------------------------------------------------------------

/// The message form for `recipient`, empty, offering the identities.
pub open spec fn misfin_form(c: TabContent, recipient: Seq<char>, ids: Seq<Identity>) -> bool {
    c matches TabContent::MisfinCompose { recipient: r, message, identity_id, char_count, identities }
        && r@ == recipient && message@.len() == 0 && identity_id is None && char_count == 0
        && pairs_view(identities@) == id_name_pairs(ids)
}

fn open_misfin_form(model: &mut AppModel, ids: &IdentityConfig, url: &str)
    requires
        old(model).wf(),
    ensures
        final(model).wf(),
        retitled(*old(model), *final(model), "Misfin Message"@),
        misfin_form(active(*final(model)).content, strip_prefixes(url@, "misfin://"@), ids.identities@),
{
    let recipient = strip_prefixes_exec(url, "misfin://");
    let identities = identity_name_list(ids);
    let c = TabContent::MisfinCompose {
        recipient,
        message: String::new(),
        identity_id: None,
        char_count: 0,
        identities,
    };
    set_content_titled(model, c, "Misfin Message");
}

/// Editing the message keeps its length in bytes; choosing an identity
/// records it. Both only while the form is shown.
pub open spec fn misfin_edit_post(old: AppModel, new: AppModel, text: Option<String>, id: Option<String>) -> bool {
    match active(old).content {
        TabContent::MisfinCompose { recipient, message, identity_id, char_count, identities } => {
            &&& only_content_changed(old, new)
            &&& active(new).content matches TabContent::MisfinCompose {
                recipient: r2,
                message: m2,
                identity_id: i2,
                char_count: c2,
                identities: ids2,
            }
            &&& r2 == recipient && ids2@ == identities@
            &&& match text {
                Some(t) => m2 == t && c2 == encode_utf8(t@).len() as usize && i2 == identity_id,
                None => m2 == message && c2 == char_count && i2 == (match id {
                    Some(x) => Some(x),
                    None => identity_id,
                }),
            }
        },
        _ => model_unchanged(old, new),
    }
}

fn misfin_edit(model: &mut AppModel, text: Option<String>, id: Option<String>)
    requires
        old(model).wf(),
    ensures
        final(model).wf(),
        misfin_edit_post(*old(model), *final(model), text, id),
{
    let c = match &model.active_tab().content {
        TabContent::MisfinCompose { recipient, message, identity_id, char_count, identities } => {
            let (m, n, i) = match text {
                Some(t) => {
                    let n = t.as_str().len();
                    (t, n, identity_id.clone())
                },
                None => (message.clone(), *char_count, match id {
                    Some(x) => Some(x),
                    None => identity_id.clone(),
                }),
            };
            Some(
                TabContent::MisfinCompose {
                    recipient: recipient.clone(),
                    message: m,
                    identity_id: i,
                    char_count: n,
                    identities: crate::browser::copy_pairs(identities),
                },
            )
        },
        _ => None,
    };
    if let Some(c) = c {
        set_content(model, c);
    }
}

/// Sending the message, when an identity is chosen.
pub open spec fn misfin_send_post(old: AppModel, new: AppModel, fx: Seq<EffectView>) -> bool {
    match active(old).content {
        TabContent::MisfinCompose { recipient, message, identity_id: Some(id), .. } => {
            &&& content_is(old, new, TabContent::Loading)
            &&& fx == seq![EffectView::MisfinSend(recipient@, message@, id@)]
        },
        _ => model_unchanged(old, new) && fx.len() == 0,
    }
}

fn misfin_send(model: &mut AppModel) -> (fx: Vec<Effect>)
    requires
        old(model).wf(),
    ensures
        final(model).wf(),
        misfin_send_post(*old(model), *final(model), effects_view(fx@)),
{
    let form = match &model.active_tab().content {
        TabContent::MisfinCompose { recipient, message, identity_id: Some(id), .. } => Some(
            (recipient.clone(), message.clone(), id.clone()),
        ),
        _ => None,
    };
    match form {
        Some((recipient, message, identity_id)) => {
            set_content(model, TabContent::Loading);
            one_effect(Effect::MisfinSend { recipient, message, identity_id })
        },
        None => no_effects(),
    }
}

/// The recipient the form was for, or "unknown".
pub open spec fn form_recipient(c: TabContent) -> Seq<char> {
    match c {
        TabContent::MisfinCompose { recipient, .. } => recipient@,
        _ => "unknown"@,
    }
}

/// The outcome of sending a message, shown in place of the form.
pub open spec fn misfin_result_post(old: AppModel, new: AppModel, r: Result<String, String>) -> bool {
    &&& only_content_changed(old, new)
    &&& active(new).content matches TabContent::MisfinSent { recipient, status }
    &&& recipient@ == form_recipient(active(old).content)
    &&& status@ == match r {
        Ok(m) => "Success: "@ + m@,
        Err(e) => "Error: "@ + e@,
    }
}

fn misfin_result(model: &mut AppModel, r: Result<String, String>)
    requires
        old(model).wf(),
    ensures
        final(model).wf(),
        misfin_result_post(*old(model), *final(model), r),
{
    let recipient = match &model.active_tab().content {
        TabContent::MisfinCompose { recipient, .. } => recipient.clone(),
        _ => String::from_str("unknown"),
    };
    let status = match &r {
        Ok(m) => String::from_str("Success: ").concat(m.as_str()),
        Err(e) => String::from_str("Error: ").concat(e.as_str()),
    };
    set_content(model, TabContent::MisfinSent { recipient, status });
}

// ---------------------------------------------------------------------
// Identity management
// ---------------------------------------------------------------------

/// The identities as (id, name, fingerprint, created, expires).
pub open spec fn id_rows(ids: Seq<Identity>) -> Seq<(Seq<char>, Seq<char>, Seq<char>, Seq<char>, Seq<char>)> {
    ids.map_values(|i: Identity| (i.id@, i.name@, i.fingerprint@, i.created_at@, i.expires_at@))
}

pub open spec fn rows_view(v: Seq<(String, String, String, String, String)>) -> Seq<
    (Seq<char>, Seq<char>, Seq<char>, Seq<char>, Seq<char>),
> {
    v.map_values(|p: (String, String, String, String, String)| (p.0@, p.1@, p.2@, p.3@, p.4@))
}

/// `hosts` are the hosts bound to identity `id`, each once.
pub open spec fn bound_hosts(b: Map<Seq<char>, Seq<char>>, id: Seq<char>, hosts: Seq<String>) -> bool {
    &&& forall|i: int|
        0 <= i < hosts.len() ==> b.contains_key(#[trigger] hosts[i]@) && b[hosts[i]@] == id
    &&& forall|k: Seq<char>|
        #![trigger b.contains_key(k)]
        b.contains_key(k) && b[k] == id ==> exists|i: int| 0 <= i < hosts.len() && hosts[i]@ == k
    &&& forall|i: int, j: int| 0 <= i < j < hosts.len() ==> (#[trigger] hosts[i])@ != (#[trigger] hosts[j])@
}

/// For each identity, in order, its id and the hosts bound to it.
pub open spec fn binding_rows(
    b: Map<Seq<char>, Seq<char>>,
    ids: Seq<Identity>,
    rows: Seq<(String, Vec<String>)>,
) -> bool {
    &&& rows.len() == ids.len()
    &&& forall|i: int|
        0 <= i < rows.len() ==> (#[trigger] rows[i]).0@ == ids[i].id@ && bound_hosts(
            b,
            ids[i].id@,
            rows[i].1@,
        )
}

/// The identity manager page for the configuration `ids`, with `name`
/// typed as the name of a new identity.
pub open spec fn manager_page(c: TabContent, ids: IdentityConfig, name: Seq<char>) -> bool {
    c matches TabContent::IdentityManager { identities, bindings, new_identity_name }
        && rows_view(identities@) == id_rows(ids.identities@) && binding_rows(
        ids.host_bindings@,
        ids.identities@,
        bindings@,
    ) && new_identity_name@ == name
}

/// The name already typed in the identity manager, if it is shown.
pub open spec fn typed_name(c: TabContent) -> Seq<char> {
    match c {
        TabContent::IdentityManager { new_identity_name, .. } => new_identity_name@,
        _ => Seq::empty(),
    }
}

/// Showing the identity manager keeps a name already typed in it.
pub open spec fn manager_post(old: AppModel, new: AppModel, ids: IdentityConfig) -> bool {
    &&& retitled(old, new, "Identity Manager"@)
    &&& manager_page(active(new).content, ids, typed_name(active(old).content))
}

fn identity_rows(ids: &IdentityConfig) -> (r: Vec<(String, String, String, String, String)>)
    ensures
        rows_view(r@) == id_rows(ids.identities@),
{
    let mut r: Vec<(String, String, String, String, String)> = Vec::new();
    let mut i: usize = 0;
    while i < ids.identities.len()
        invariant
            i <= ids.identities@.len(),
            rows_view(r@) == id_rows(ids.identities@.take(i as int)),
        decreases ids.identities@.len() - i,
    {
        let ghost r0 = r@;
        let e = &ids.identities[i];
        let row = (
            e.id.clone(),
            e.name.clone(),
            e.fingerprint.clone(),
            e.created_at.clone(),
            e.expires_at.clone(),
        );
        r.push(row);
        proof {
            assert(r@ == r0.push(row));
            assert(rows_view(r@) =~= rows_view(r0).push((row.0@, row.1@, row.2@, row.3@, row.4@)));
            assert(ids.identities@.take(i + 1) =~= ids.identities@.take(i as int).push(
                ids.identities@[i as int],
            ));
            assert(id_rows(ids.identities@.take(i + 1)) =~= id_rows(
                ids.identities@.take(i as int),
            ).push((row.0@, row.1@, row.2@, row.3@, row.4@)));
        }
        i = i + 1;
    }
    assert(ids.identities@.take(ids.identities@.len() as int) =~= ids.identities@);
    r
}

fn identity_binding_rows(ids: &IdentityConfig) -> (r: Vec<(String, Vec<String>)>)
    ensures
        binding_rows(ids.host_bindings@, ids.identities@, r@),
{
    let mut r: Vec<(String, Vec<String>)> = Vec::new();
    let mut i: usize = 0;
    while i < ids.identities.len()
        invariant
            i <= ids.identities@.len(),
            r@.len() == i,
            forall|k: int|
                0 <= k < i ==> (#[trigger] r@[k]).0@ == ids.identities@[k].id@ && bound_hosts(
                    ids.host_bindings@,
                    ids.identities@[k].id@,
                    r@[k].1@,
                ),
        decreases ids.identities@.len() - i,
    {
        let id = ids.identities[i].id.clone();
        let hosts = crate::identity::get_bindings_for_identity(ids, id.as_str());
        r.push((id, hosts));
        i = i + 1;
    }
    r
}

fn show_identity_manager(model: &mut AppModel, ids: &IdentityConfig)
    requires
        old(model).wf(),
    ensures
        final(model).wf(),
        manager_post(*old(model), *final(model), *ids),
{
    let name = match &model.active_tab().content {
        TabContent::IdentityManager { new_identity_name, .. } => new_identity_name.clone(),
        _ => String::new(),
    };
    let identities = identity_rows(ids);
    let bindings = identity_binding_rows(ids);
    let c = TabContent::IdentityManager { identities, bindings, new_identity_name: name };
    set_content_titled(model, c, "Identity Manager");
}

/// The name typed for a new identity is kept while the manager is shown.
pub open spec fn name_changed_post(old: AppModel, new: AppModel, name: String) -> bool {
    match active(old).content {
        TabContent::IdentityManager { identities, bindings, .. } => content_is(
            old,
            new,
            TabContent::IdentityManager { identities, bindings, new_identity_name: name },
        ),
        _ => model_unchanged(old, new),
    }
}

fn identity_name_changed(model: &mut AppModel, name: String)
    requires
        old(model).wf(),
    ensures
        final(model).wf(),
        name_changed_post(*old(model), *final(model), name),
{
    let t = model.active_tab_mut();
    let mut c = TabContent::Blank;
    std::mem::swap(&mut c, &mut t.content);
    match c {
        TabContent::IdentityManager { identities, bindings, .. } => {
            t.content = TabContent::IdentityManager { identities, bindings, new_identity_name: name };
        },
        other => {
            t.content = other;
        },
    }
    proof {
        if !(active(*old(model)).content is IdentityManager) {
            assert(model.tabs@ =~= old(model).tabs@);
        }
    }
}

/// Choosing an identity for `url`: it is bound to the URL's host (and the
/// configuration stored), and the page fetched presenting it.
pub open spec fn select_identity_post(
    old: AppModel,
    new: AppModel,
    ids: IdentityConfig,
    ids2: IdentityConfig,
    url: Seq<char>,
    id: Seq<char>,
    fx: Seq<EffectView>,
) -> bool {
    &&& content_is(old, new, TabContent::Loading)
    &&& ids2.identities@ == ids.identities@
    &&& match url_host(url) {
        Some(h) => {
            &&& ids2.host_bindings@ == ids.host_bindings@.insert(h, id)
            &&& fx == seq![EffectView::SaveIdentities, EffectView::FetchWithIdentity(url, id)]
        },
        None => {
            &&& ids2.host_bindings@ == ids.host_bindings@
            &&& fx == seq![EffectView::FetchWithIdentity(url, id)]
        },
    }
}

fn select_identity(model: &mut AppModel, ids: &mut IdentityConfig, url: String, identity_id: String) -> (fx: Vec<Effect>)
    requires
        old(model).wf(),
    ensures
        final(model).wf(),
        select_identity_post(*old(model), *final(model), *old(ids), *final(ids), url@, identity_id@, effects_view(fx@)),
{
    set_content(model, TabContent::Loading);
    match host_of(url.as_str()) {
        Some(h) => {
            crate::identity::bind_host(ids, h.as_str(), identity_id.as_str());
            two_effects(Effect::SaveIdentities, Effect::FetchWithIdentity { url, identity_id })
        },
        None => one_effect(Effect::FetchWithIdentity { url, identity_id }),
    }
}

/// A new identity exists, or making one failed: a page asking for an
/// identity lists it, else the identity manager is shown; a failure is
/// shown as an error.
pub open spec fn identity_created_post(
    old: AppModel,
    new: AppModel,
    ids: IdentityConfig,
    r: Result<String, String>,
) -> bool {
    match r {
        Ok(_) => match active(old).content {
            TabContent::IdentityRequired { url, .. } => {
                &&& only_content_changed(old, new)
                &&& identity_choice(active(new).content, url@, ids.identities@)
            },
            _ => manager_post(old, new, ids),
        },
        Err(e) => error_shown(old, new, "Identity error: "@ + e@),
    }
}

fn identity_created(model: &mut AppModel, ids: &IdentityConfig, r: &Result<String, String>)
    requires
        old(model).wf(),
    ensures
        final(model).wf(),
        identity_created_post(*old(model), *final(model), *ids, *r),
{
    match r {
        Ok(_) => {
            let url = match &model.active_tab().content {
                TabContent::IdentityRequired { url, .. } => Some(url.clone()),
                _ => None,
            };
            match url {
                Some(u) => offer_identities(model, ids, u),
                None => show_identity_manager(model, ids),
            }
        },
        Err(e) => show_error(model, "Identity error: ", e.as_str()),
    }
}

// ---------------------------------------------------------------------
// The HYDRA node
// ---------------------------------------------------------------------

/// A command for the node is sent only while the node runs.
pub open spec fn node_command(running: bool, c: CommandView) -> Seq<EffectView> {
    if running {
        seq![EffectView::Hydra(c)]
    } else {
        Seq::empty()
    }
}

fn command_node(running: bool, c: HydraCommand) -> (fx: Vec<Effect>)
    ensures
        effects_view(fx@) == node_command(running, c@),
{
    if running {
        one_effect(Effect::Hydra(c))
    } else {
        no_effects()
    }
}

/// The peer address already typed in the HYDRA panel, if it is shown.
pub open spec fn typed_address(c: TabContent) -> Seq<char> {
    match c {
        TabContent::HydraPanel { new_peer_address } => new_peer_address@,
        _ => Seq::empty(),
    }
}

/// Showing the HYDRA panel keeps an address already typed in it.
pub open spec fn hydra_panel_post(old: AppModel, new: AppModel) -> bool {
    &&& retitled(old, new, "HYDRA Panel"@)
    &&& active(new).content matches TabContent::HydraPanel { new_peer_address }
    &&& new_peer_address@ == typed_address(active(old).content)
}

fn show_hydra_panel(model: &mut AppModel)
    requires
        old(model).wf(),
    ensures
        final(model).wf(),
        hydra_panel_post(*old(model), *final(model)),
{
    let a = match &model.active_tab().content {
        TabContent::HydraPanel { new_peer_address } => new_peer_address.clone(),
        _ => String::new(),
    };
    set_content_titled(model, TabContent::HydraPanel { new_peer_address: a }, "HYDRA Panel");
}

/// The panel's peer address is set to `a`, while the panel is shown.
pub open spec fn address_set_post(old: AppModel, new: AppModel, a: Seq<char>) -> bool {
    match active(old).content {
        TabContent::HydraPanel { .. } => {
            &&& only_content_changed(old, new)
            &&& active(new).content matches TabContent::HydraPanel { new_peer_address }
            &&& new_peer_address@ == a
        },
        _ => model_unchanged(old, new),
    }
}

fn set_peer_address(model: &mut AppModel, a: String)
    requires
        old(model).wf(),
    ensures
        final(model).wf(),
        address_set_post(*old(model), *final(model), a@),
{
    if let TabContent::HydraPanel { .. } = &model.active_tab().content {
        set_content(model, TabContent::HydraPanel { new_peer_address: a });
    }
}

// ---------------------------------------------------------------------
// Inline images and sessions
// ---------------------------------------------------------------------

/// Block `bi` of tab `t` is an image awaiting its data.
pub open spec fn image_slot(t: TabState, bi: usize) -> bool {
    t.content matches TabContent::Document(bs) && bi < bs@.len() && bs@[bi as int] is Image
}

/// The block with its image data set.
pub open spec fn with_data(b: BlockView, data: Seq<u8>) -> BlockView {
    match b {
        BlockView::Image { alt, url, .. } => BlockView::Image { alt, url, data: Some(data) },
        _ => b,
    }
}

/// An image's data arrived for block `bi` of tab `ti`; it is stored there
/// when that block is still an image.
pub open spec fn image_loaded_post(old: AppModel, new: AppModel, ti: usize, bi: usize, data: Seq<u8>) -> bool {
    if ti < old.tabs@.len() && image_slot(old.tabs@[ti as int], bi) {
        let t0 = old.tabs@[ti as int];
        let t = new.tabs@[ti as int];
        &&& new.tabs@.len() == old.tabs@.len()
        &&& forall|k: int| 0 <= k < old.tabs@.len() && k != ti ==> #[trigger] new.tabs@[k] == old.tabs@[k]
        &&& new.active_tab == old.active_tab
        &&& new.url_bar_text == old.url_bar_text
        &&& new.url_bar_focused == old.url_bar_focused
        &&& new.hydra_status == old.hydra_status
        &&& new.hydra_alerts == old.hydra_alerts
        &&& t.url == t0.url && t.title == t0.title && t.history == t0.history
        &&& t.history_index == t0.history_index
        &&& t0.content matches TabContent::Document(bs0)
        &&& t.content matches TabContent::Document(bs)
        &&& blocks_view(bs@) == blocks_view(bs0@).update(bi as int, with_data(bs0@[bi as int]@, data))
    } else {
        model_unchanged(old, new)
    }
}

fn image_loaded(model: &mut AppModel, ti: usize, bi: usize, data: Vec<u8>)
    requires
        old(model).wf(),
    ensures
        final(model).wf(),
        image_loaded_post(*old(model), *final(model), ti, bi, data@),
{
    if ti >= model.tabs.len() {
        return;
    }
    let ghost d = data@;
    let t = &mut model.tabs[ti];
    let mut c = TabContent::Blank;
    std::mem::swap(&mut c, &mut t.content);
    match c {
        TabContent::Document(mut blocks) => {
            if bi < blocks.len() {
                let nb = match &blocks[bi] {
                    Block::Image { alt, url, .. } => Some(
                        Block::Image { alt: alt.clone(), url: url.clone(), data: Some(data) },
                    ),
                    _ => None,
                };
                if let Some(b) = nb {
                    let ghost b0 = blocks@;
                    blocks.set(bi, b);
                    assert(blocks_view(blocks@) =~= blocks_view(b0).update(
                        bi as int,
                        with_data(b0[bi as int]@, d),
                    ));
                }
            }
            t.content = TabContent::Document(blocks);
        },
        other => {
            t.content = other;
        },
    }
    proof {
        if !image_slot(old(model).tabs@[ti as int], bi) {
            assert(model.tabs@ =~= old(model).tabs@);
        }
    }
}

/// A restored session: as `AppModel::restore_from_session` leaves it.
pub open spec fn restored(old: AppModel, new: AppModel, data: SessionData) -> bool {
    &&& new.wf()
    &&& new.url_bar_focused == old.url_bar_focused
    &&& new.hydra_status == old.hydra_status
    &&& new.hydra_alerts == old.hydra_alerts
    &&& (data.tabs@.len() == 0 ==> new == old)
    &&& (data.tabs@.len() > 0 ==> {
        &&& new.tabs@.len() == data.tabs@.len()
        &&& forall|i: int|
            0 <= i < data.tabs@.len() ==> restored_tab(#[trigger] new.tabs@[i], data.tabs@[i])
        &&& new.active_tab == (if data.active_tab < data.tabs@.len() {
            data.active_tab as int
        } else {
            data.tabs@.len() - 1
        })
        &&& new.url_bar_text@ == new.tabs@[new.active_tab as int].url@
    })
}

/// After a session is restored the tab bar is rebuilt and the active
/// tab's page fetched.
pub open spec fn session_loaded_effects(new: AppModel) -> Seq<EffectView> {
    let u = active(new).url@;
    if u.len() > 0 {
        seq![EffectView::RebuildTabs, EffectView::Fetch(u)]
    } else {
        seq![EffectView::RebuildTabs]
    }
}

fn session_loaded(model: &mut AppModel, data: SessionData) -> (fx: Vec<Effect>)
    requires
        old(model).wf(),
    ensures
        final(model).wf(),
        restored(*old(model), *final(model), data),
        effects_view(fx@) == session_loaded_effects(*final(model)),
{
    model.restore_from_session(data);
    let url = model.active_tab().url.clone();
    if url.as_str().unicode_len() > 0 {
        two_effects(Effect::RebuildTabs, Effect::Fetch(url))
    } else {
        one_effect(Effect::RebuildTabs)
    }
}

/// The identity manager after the configuration changed and was stored.
pub open spec fn config_changed_post(
    old: AppModel,
    new: AppModel,
    ids2: IdentityConfig,
    fx: Seq<EffectView>,
) -> bool {
    manager_post(old, new, ids2) && fx == seq![EffectView::SaveIdentities]
}

/// A new identity was added to `ids2` as its last entry, with `cert` and
/// `key` to be stored: the configuration is stored too, and the page that
/// lists identities refreshed.
pub open spec fn identity_added_post(
    old: AppModel,
    new: AppModel,
    ids: IdentityConfig,
    ids2: IdentityConfig,
    fx: Seq<EffectView>,
) -> bool {
    let i = ids2.identities@.last();
    &&& ids2.identities@ == ids.identities@.push(i)
    &&& identity_created_post(old, new, ids2, Ok(i.id))
    &&& fx.len() == 2
    &&& fx[0] matches EffectView::WriteIdentityFiles(id, _, _) && id == i.id@
    &&& fx[1] == EffectView::SaveIdentities
}

/// Making an identity for `name`: on success it is added and listed; a
/// failure (of key or certificate generation, which nothing here
/// decides) is shown and the configuration kept.
pub open spec fn create_identity_post(
    old: AppModel,
    new: AppModel,
    ids: IdentityConfig,
    ids2: IdentityConfig,
    name: Seq<char>,
    duration_days: u64,
    fx: Seq<EffectView>,
) -> bool {
    &&& ids2.host_bindings@ == ids.host_bindings@
    &&& if ids2.identities@.len() == ids.identities@.len() + 1 {
        let i = ids2.identities@.last();
        &&& identity_added_post(old, new, ids, ids2, fx)
        &&& i.name@ == name && i.common_name@ == name && i.id@.len() == 36
        &&& i.fingerprint@.len() == 64
        &&& exists|s: i64, ns: u32|
            #![trigger rfc3339_offset(s, ns)]
            rfc3339_offset(s, ns) == i.created_at@ && rfc3339_offset(
                (s + 86400 * duration_days) as i64,
                ns,
            ) == i.expires_at@
    } else {
        &&& ids2.identities@ == ids.identities@
        &&& fx.len() == 0
        &&& only_content_changed(old, new)
        &&& active(new).content matches TabContent::Error(m) && m@.take(16) == "Identity error: "@
    }
}

fn create_identity(model: &mut AppModel, ids: &mut IdentityConfig, name: &str, duration_days: u64) -> (fx: Vec<Effect>)
    requires
        old(model).wf(),
    ensures
        final(model).wf(),
        create_identity_post(*old(model), *final(model), *old(ids), *final(ids), name@, duration_days, effects_view(fx@)),
{
    match generate_identity(ids, name, duration_days) {
        Ok(n) => {
            let id = n.identity.id.clone();
            let r: Result<String, String> = Ok(id.clone());
            identity_created(model, ids, &r);
            two_effects(
                Effect::WriteIdentityFiles { id, cert_pem: n.cert_pem, key_pem: n.key_pem },
                Effect::SaveIdentities,
            )
        },
        Err(e) => {
            let r: Result<String, String> = Err(e);
            identity_created(model, ids, &r);
            proof {
                reveal_strlit("Identity error: ");
                let m = "Identity error: "@ + e@;
                assert(m.take(16) =~= "Identity error: "@);
            }
            no_effects()
        },
    }
}

/// Importing an identity from PEM texts: on success it is added and
/// listed, else the reason is shown and the configuration kept.
pub open spec fn import_identity_post(
    old: AppModel,
    new: AppModel,
    ids: IdentityConfig,
    ids2: IdentityConfig,
    name: Seq<char>,
    cert: Seq<char>,
    key: Seq<char>,
    fx: Seq<EffectView>,
) -> bool {
    &&& ids2.host_bindings@ == ids.host_bindings@
    &&& match import_outcome(cert, key) {
        Err(m) => {
            &&& ids2.identities@ == ids.identities@
            &&& error_shown(old, new, "Identity error: "@ + m)
            &&& fx.len() == 0
        },
        Ok(der) => {
            let i = ids2.identities@.last();
            &&& identity_added_post(old, new, ids, ids2, fx)
            &&& fx[0] == EffectView::WriteIdentityFiles(i.id@, cert, key)
            &&& made_identity(i, name, der)
            &&& i.expires_at@.len() == 0
        },
    }
}

fn import_identity_from_pem(
    model: &mut AppModel,
    ids: &mut IdentityConfig,
    name: &str,
    cert_pem: String,
    key_pem: String,
) -> (fx: Vec<Effect>)
    requires
        old(model).wf(),
    ensures
        final(model).wf(),
        import_identity_post(
            *old(model),
            *final(model),
            *old(ids),
            *final(ids),
            name@,
            cert_pem@,
            key_pem@,
            effects_view(fx@),
        ),
{
    match import_identity(ids, name, cert_pem.as_str(), key_pem.as_str()) {
        Ok(i) => {
            let id = i.id.clone();
            let r: Result<String, String> = Ok(id.clone());
            identity_created(model, ids, &r);
            two_effects(Effect::WriteIdentityFiles { id, cert_pem, key_pem }, Effect::SaveIdentities)
        },
        Err(e) => {
            let r: Result<String, String> = Err(e);
            identity_created(model, ids, &r);
            no_effects()
        },
    }
}

/// Deleting an identity drops it and its bindings, stores the
/// configuration, deletes its files and shows the manager.
pub open spec fn delete_identity_post(
    old: AppModel,
    new: AppModel,
    ids: IdentityConfig,
    ids2: IdentityConfig,
    id: Seq<char>,
    fx: Seq<EffectView>,
) -> bool {
    &&& ids2.identities@ == identities_without(ids.identities@, id)
    &&& ids2.host_bindings@ == bindings_without(ids.host_bindings@, id)
    &&& manager_post(old, new, ids2)
    &&& fx == seq![EffectView::SaveIdentities, EffectView::DeleteIdentityFiles(id)]
}

fn delete_identity_and_files(model: &mut AppModel, ids: &mut IdentityConfig, id: String) -> (fx: Vec<Effect>)
    requires
        old(model).wf(),
    ensures
        final(model).wf(),
        delete_identity_post(*old(model), *final(model), *old(ids), *final(ids), id@, effects_view(fx@)),
{
    crate::identity::delete_identity(ids, id.as_str());
    show_identity_manager(model, ids);
    two_effects(Effect::SaveIdentities, Effect::DeleteIdentityFiles(id))
}

fn bind_identity(model: &mut AppModel, ids: &mut IdentityConfig, hostname: &str, identity_id: &str) -> (fx: Vec<Effect>)
    requires
        old(model).wf(),
    ensures
        final(model).wf(),
        final(ids).identities@ == old(ids).identities@,
        final(ids).host_bindings@ == old(ids).host_bindings@.insert(hostname@, identity_id@),
        config_changed_post(*old(model), *final(model), *final(ids), effects_view(fx@)),
{
    crate::identity::bind_host(ids, hostname, identity_id);
    show_identity_manager(model, ids);
    one_effect(Effect::SaveIdentities)
}

fn unbind_identity(model: &mut AppModel, ids: &mut IdentityConfig, hostname: &str) -> (fx: Vec<Effect>)
    requires
        old(model).wf(),
    ensures
        final(model).wf(),
        final(ids).identities@ == old(ids).identities@,
        final(ids).host_bindings@ == old(ids).host_bindings@.remove(hostname@),
        config_changed_post(*old(model), *final(model), *final(ids), effects_view(fx@)),
{
    crate::identity::unbind_host(ids, hostname);
    show_identity_manager(model, ids);
    one_effect(Effect::SaveIdentities)
}

/// The bookmarks page: `text` rendered as gemtext, titled "Bookmarks".
pub open spec fn bookmarks_post(old: AppModel, new: AppModel, text: Seq<char>) -> bool {
    &&& retitled(old, new, "Bookmarks"@)
    &&& active(new).content matches TabContent::Document(b) && blocks_view(b@) == gemtext_blocks(
        text,
        "about:bookmarks"@,
    )
}

/// Show the bookmarks file's text `bookmarks` in the active tab.
pub fn load_bookmarks_into_active_tab(model: &mut AppModel, bookmarks: &str)
    requires
        old(model).wf(),
    ensures
        final(model).wf(),
        bookmarks_post(*old(model), *final(model), bookmarks@),
{
    let blocks = parse_gemtext(bookmarks, "about:bookmarks");
    set_content_titled(model, TabContent::Document(blocks), "Bookmarks");
}

// ---------------------------------------------------------------------
// Dispatch
// ---------------------------------------------------------------------

/// What each message needs of the state: a valid model; room for one more
/// tab; a tab to close that exists (`usize::MAX` names the active one,
/// and the last tab is never removed); a history cursor that can advance.
pub open spec fn update_requires(m: AppModel, msg: AppMessage) -> bool {
    &&& m.wf()
    &&& match msg {
        AppMessage::NewTab => m.tabs@.len() < usize::MAX,
        AppMessage::CloseTab(i) => i == usize::MAX || i < m.tabs@.len() || m.tabs@.len() <= 1,
        AppMessage::PageLoaded(_) | AppMessage::TitanUploadResult(_) => active(m).history_index matches Some(
            i,
        ) ==> i < usize::MAX,
        _ => true,
    }
}

/// The identity configuration holds the same identities and bindings.
pub open spec fn ids_same(a: IdentityConfig, b: IdentityConfig) -> bool {
    a.identities@ == b.identities@ && a.host_bindings@ == b.host_bindings@
}

/// Only the list of HYDRA alerts may differ.
pub open spec fn only_alerts_changed(old: AppModel, new: AppModel) -> bool {
    &&& new.tabs@ == old.tabs@
    &&& new.active_tab == old.active_tab
    &&& new.url_bar_text == old.url_bar_text
    &&& new.url_bar_focused == old.url_bar_focused
    &&& new.hydra_status == old.hydra_status
}

/// The state after handling `msg`, and the work it leaves to do.
pub open spec fn update_post(
    old: AppModel,
    new: AppModel,
    ids: IdentityConfig,
    ids2: IdentityConfig,
    config: AppConfig,
    running: bool,
    msg: AppMessage,
    fx: Seq<EffectView>,
) -> bool {
    let b = ids.host_bindings@;
    let same = ids_same(ids, ids2);
    let quiet = model_unchanged(old, new);
    match msg {
        AppMessage::Navigate(input) => same && open_url_post(
            old,
            new,
            ids.identities@,
            normalize_url_spec(input@),
            fx,
        ),
        AppMessage::LinkClicked(href) => same && link_post(old, new, ids.identities@, href@, fx),
        AppMessage::GoHome => same && go_home_post(old, new, ids.identities@, config.home_page@, fx),
        AppMessage::Back => same && history_move_post(old, new, true, fx),
        AppMessage::Forward => same && history_move_post(old, new, false, fx),
        AppMessage::Reload => same && reload_post(old, new, fx),
        AppMessage::UrlBarChanged(t) => same && new == (AppModel { url_bar_text: t, ..old })
            && fx.len() == 0,
        AppMessage::FocusUrlBar => same && new == (AppModel { url_bar_focused: true, ..old })
            && fx.len() == 0,
        AppMessage::NewTab => same && new_tab_post(old, new, config.home_page@, fx),
        AppMessage::CloseTab(i) => same && close_tab_post(old, new, i, fx),
        AppMessage::SwitchTab(i) => same && switch_post(old, new, i as int, fx),
        AppMessage::NextTab => same && switch_post(old, new, next_index(old), fx),
        AppMessage::PrevTab => same && switch_post(old, new, prev_index(old), fx),
        AppMessage::PageLoaded(r) => same && page_loaded_post(
            old,
            new,
            b,
            ids.identities@,
            config.auto_load_images,
            r,
            fx,
        ),
        AppMessage::InputSubmitted(v) => same && input_submitted_post(old, new, b, v@, fx),
        AppMessage::InputChanged(v) => same && input_changed_post(old, new, v) && fx.len() == 0,
        AppMessage::ToggleBookmark => same && quiet && fx == bookmark_effects(old),
        AppMessage::BookmarkTab(i) => same && quiet && fx == tab_bookmark_effects(old, i),
        AppMessage::CertWarning { url, error } => same && content_is(
            old,
            new,
            TabContent::CertWarning { url, error },
        ) && fx.len() == 0,
        AppMessage::TrustCertificate(url) => same && content_is(old, new, TabContent::Loading)
            && fx == trust_effects(url@),
        AppMessage::DownloadStarted { filename } => same && content_is(
            old,
            new,
            TabContent::Download { filename, bytes_downloaded: 0, complete: false, path: None },
        ) && fx.len() == 0,
        AppMessage::DownloadProgress { filename, bytes } => same && download_progress_post(
            old,
            new,
            filename,
            bytes,
        ) && fx.len() == 0,
        AppMessage::DownloadComplete { filename, path } => same && content_is(
            old,
            new,
            TabContent::Download { filename, bytes_downloaded: 0, complete: true, path: Some(path) },
        ) && fx.len() == 0,
        AppMessage::DownloadFailed(e) => same && error_shown(old, new, "Download failed: "@ + e@)
            && fx.len() == 0,
        AppMessage::OpenDownload(p) => same && quiet && fx == seq![EffectView::OpenExternal(p@)],
        AppMessage::IdentityRequired { url } => same && only_content_changed(old, new)
            && identity_choice(active(new).content, url@, ids.identities@) && fx.len() == 0,
        AppMessage::SelectIdentity { url, identity_id } => select_identity_post(
            old,
            new,
            ids,
            ids2,
            url@,
            identity_id@,
            fx,
        ),
        AppMessage::CreateIdentity { name, duration_days } => create_identity_post(
            old,
            new,
            ids,
            ids2,
            name@,
            duration_days,
            fx,
        ),
        AppMessage::ImportIdentity { name, cert_pem, key_pem } => import_identity_post(
            old,
            new,
            ids,
            ids2,
            name@,
            cert_pem@,
            key_pem@,
            fx,
        ),
        AppMessage::DeleteIdentity(id) => delete_identity_post(old, new, ids, ids2, id@, fx),
        AppMessage::IdentityCreated(r) => same && identity_created_post(old, new, ids, r)
            && fx.len() == 0,
        AppMessage::BindIdentityToHost { hostname, identity_id } => {
            &&& ids2.identities@ == ids.identities@
            &&& ids2.host_bindings@ == b.insert(hostname@, identity_id@)
            &&& config_changed_post(old, new, ids2, fx)
        },
        AppMessage::UnbindHost(h) => {
            &&& ids2.identities@ == ids.identities@
            &&& ids2.host_bindings@ == b.remove(h@)
            &&& config_changed_post(old, new, ids2, fx)
        },
        AppMessage::IdentityNameChanged(n) => same && name_changed_post(old, new, n) && fx.len()
            == 0,
        AppMessage::ShowIdentityManager => same && manager_post(old, new, ids) && fx.len() == 0,
        AppMessage::TitanUploadRequested(url) => same && retitled(old, new, "Titan Upload"@)
            && titan_form(active(new).content, url@) && fx.len() == 0,
        AppMessage::TitanTextChanged(t) => same && titan_edit_post(old, new, TitanField::Text, t)
            && fx.len() == 0,
        AppMessage::TitanTokenChanged(t) => same && titan_edit_post(old, new, TitanField::Token, t)
            && fx.len() == 0,
        AppMessage::TitanMimeChanged(t) => same && titan_edit_post(old, new, TitanField::Mime, t)
            && fx.len() == 0,
        AppMessage::TitanSubmit => same && titan_submit_post(old, new, b, fx),
        AppMessage::TitanUploadResult(r) => same && match r {
            Ok(c) => page_loaded_post(
                old,
                new,
                b,
                ids.identities@,
                config.auto_load_images,
                Ok(c),
                fx,
            ),
            Err(e) => error_shown(old, new, e@) && fx.len() == 0,
        },
        AppMessage::MisfinComposeRequested(url) => same && retitled(old, new, "Misfin Message"@)
            && misfin_form(active(new).content, strip_prefixes(url@, "misfin://"@), ids.identities@)
            && fx.len() == 0,
        AppMessage::MisfinMessageChanged(t) => same && misfin_edit_post(old, new, Some(t), None)
            && fx.len() == 0,
        AppMessage::MisfinIdentitySelected(id) => same && misfin_edit_post(old, new, None, Some(id))
            && fx.len() == 0,
        AppMessage::MisfinSend => same && misfin_send_post(old, new, fx),
        AppMessage::MisfinResult(r) => same && misfin_result_post(old, new, r) && fx.len() == 0,
        AppMessage::ImageLoaded { tab_index, block_index, data } => same && image_loaded_post(
            old,
            new,
            tab_index,
            block_index,
            data@,
        ) && fx.len() == 0,
        AppMessage::ImageFailed { .. } => same && quiet && fx.len() == 0,
        AppMessage::SaveSession => same && quiet && fx == seq![EffectView::SaveSession],
        AppMessage::SessionLoaded(d) => same && restored(old, new, d) && fx == session_loaded_effects(
            new,
        ),
        AppMessage::HydraStatusUpdate(st) => same && new == (AppModel {
            hydra_status: Some(st),
            ..old
        }) && fx.len() == 0,
        AppMessage::HydraAlert(a) => same && only_alerts_changed(old, new) && new.hydra_alerts@
            == old.hydra_alerts@.push(a) && fx.len() == 0,
        AppMessage::HydraObservationRecorded(_) => same && quiet && fx == node_command(
            running,
            CommandView::GetStatus,
        ),
        AppMessage::HydraSyncComplete { .. } => same && quiet && fx == node_command(
            running,
            CommandView::GetStatus,
        ),
        AppMessage::HydraError(_) => same && quiet && fx.len() == 0,
        AppMessage::ShowHydraPanel => same && hydra_panel_post(old, new) && fx == node_command(
            running,
            CommandView::GetStatus,
        ),
        AppMessage::HydraToggleEnabled => same && quiet && fx == node_command(
            running,
            CommandView::ToggleEnabled,
        ),
        AppMessage::HydraAddPeer(a) => same && address_set_post(old, new, Seq::empty()) && fx
            == node_command(running, CommandView::AddPeer(a@)),
        AppMessage::HydraRemovePeer(id) => same && quiet && fx == node_command(
            running,
            CommandView::RemovePeer(id@),
        ),
        AppMessage::HydraManualSync => same && quiet && fx == node_command(
            running,
            CommandView::ManualSync,
        ),
        AppMessage::HydraDismissAlert(i) => same && fx.len() == 0 && if i < old.hydra_alerts@.len() {
            only_alerts_changed(old, new) && new.hydra_alerts@ == old.hydra_alerts@.remove(i as int)
        } else {
            quiet
        },
        AppMessage::HydraPeerAddressChanged(a) => same && address_set_post(old, new, a@) && fx.len()
            == 0,
        AppMessage::NoOp => same && quiet && fx.len() == 0,
    }
}

/// Whether `update` may be given `msg` in state `model`: the model is well
/// formed, and the message is not one on which the browser would fail (a
/// tab index to close that names no tab while others are open, a new tab
/// past the largest count, a page loaded at the last history position).
pub fn update_allowed(model: &AppModel, msg: &AppMessage) -> (b: bool)
    ensures
        b == update_requires(*model, *msg),
{
    if !(model.tabs.len() > 0 && model.active_tab < model.tabs.len()) {
        return false;
    }
    match msg {
        AppMessage::NewTab => model.tabs.len() < usize::MAX,
        AppMessage::CloseTab(i) => *i == usize::MAX || *i < model.tabs.len() || model.tabs.len() <= 1,
        AppMessage::PageLoaded(_) | AppMessage::TitanUploadResult(_) => match model.active_tab().history_index {
            Some(i) => i < usize::MAX,
            None => true,
        },
        _ => true,
    }
}

proof fn lemma_index_arith(m: AppModel)
    requires
        m.wf(),
    ensures
        next_index(m) == (if m.active_tab + 1 < m.tabs@.len() {
            m.active_tab + 1
        } else {
            0
        }),
        prev_index(m) == (if m.active_tab > 0 {
            m.active_tab - 1
        } else {
            m.tabs@.len() - 1
        }),
{
    let len = m.tabs@.len() as int;
    let a = m.active_tab as int;
    if a + 1 < len {
        vstd::arithmetic::div_mod::lemma_small_mod((a + 1) as nat, len as nat);
    } else {
        vstd::arithmetic::div_mod::lemma_mod_self_0(len);
    }
    if a == 0 {
        vstd::arithmetic::div_mod::lemma_small_mod((len - 1) as nat, len as nat);
    } else {
        vstd::arithmetic::div_mod::lemma_mod_adds(a - 1, len, len);
        vstd::arithmetic::div_mod::lemma_mod_self_0(len);
        vstd::arithmetic::div_mod::lemma_small_mod((a - 1) as nat, len as nat);
    }
}

/// Ctrl+Tab's message moves to the tab after the active one, from the
/// last to the first; the tabs themselves stay.
pub proof fn lemma_next_tab(
    old: AppModel,
    new: AppModel,
    ids: IdentityConfig,
    ids2: IdentityConfig,
    config: AppConfig,
    running: bool,
    fx: Seq<EffectView>,
)
    requires
        old.wf(),
        update_post(old, new, ids, ids2, config, running, AppMessage::NextTab, fx),
    ensures
        new.tabs == old.tabs,
        new.active_tab == (if old.active_tab + 1 < old.tabs@.len() {
            old.active_tab + 1
        } else {
            0
        }),
{
    lemma_index_arith(old);
}

/// Ctrl+Shift+Tab's message moves to the tab before the active one, from
/// the first to the last; the tabs themselves stay.
pub proof fn lemma_prev_tab(
    old: AppModel,
    new: AppModel,
    ids: IdentityConfig,
    ids2: IdentityConfig,
    config: AppConfig,
    running: bool,
    fx: Seq<EffectView>,
)
    requires
        old.wf(),
        update_post(old, new, ids, ids2, config, running, AppMessage::PrevTab, fx),
    ensures
        new.tabs == old.tabs,
        old.active_tab > 0 ==> new.active_tab == old.active_tab - 1,
        old.active_tab == 0 ==> new.active_tab == old.tabs@.len() - 1,
{
    lemma_index_arith(old);
}

/// Going to the next tab and then to the previous one comes back to the
/// tab that was active.
pub proof fn lemma_prev_undoes_next(
    m0: AppModel,
    m1: AppModel,
    m2: AppModel,
    ids: IdentityConfig,
    ids2: IdentityConfig,
    ids3: IdentityConfig,
    config: AppConfig,
    running: bool,
    fx1: Seq<EffectView>,
    fx2: Seq<EffectView>,
)
    requires
        m0.wf(),
        update_post(m0, m1, ids, ids2, config, running, AppMessage::NextTab, fx1),
        update_post(m1, m2, ids2, ids3, config, running, AppMessage::PrevTab, fx2),
    ensures
        m2.active_tab == m0.active_tab,
        m2.tabs == m0.tabs,
{
    lemma_next_tab(m0, m1, ids, ids2, config, running, fx1);
    lemma_prev_tab(m1, m2, ids2, ids3, config, running, fx2);
}

/// The Back message moves the active tab's history cursor one page back
/// and shows that page (its URL in the tab and the URL bar); the history
/// itself, and the other tabs, stay. With the cursor on the first page,
/// or no history, nothing changes.
pub proof fn lemma_back_message(
    old: AppModel,
    new: AppModel,
    ids: IdentityConfig,
    ids2: IdentityConfig,
    config: AppConfig,
    running: bool,
    fx: Seq<EffectView>,
)
    requires
        old.wf(),
        update_post(old, new, ids, ids2, config, running, AppMessage::Back, fx),
    ensures
        ({
            let t = active(old);
            let i = t.history_index->0 as int;
            &&& t.history_index is Some && 0 < i <= t.history@.len() ==> {
                &&& new.active_tab == old.active_tab
                &&& new.tabs@.len() == old.tabs@.len()
                &&& active(new).history == t.history
                &&& active(new).history_index == Some((i - 1) as usize)
                &&& active(new).url@ == t.history@[i - 1].url@
                &&& new.url_bar_text@ == t.history@[i - 1].url@
            }
            &&& (t.history_index is None || i == 0) ==> new.tabs@ == old.tabs@ && new.active_tab
                == old.active_tab
        }),
{
    let t = active(old);
    assert(history_move_post(old, new, true, fx));
    if t.history_index is Some && 0 < t.history_index->0 <= t.history@.len() {
        assert(crate::tab::can_back(t.history_index));
        assert(moved_index(t, true) == t.history_index->0 - 1);
    }
}


/// The Forward message moves the active tab's history cursor one page on
/// and shows that page; at the last page, or with no history, nothing
/// changes.
pub proof fn lemma_forward_message(
    old: AppModel,
    new: AppModel,
    ids: IdentityConfig,
    ids2: IdentityConfig,
    config: AppConfig,
    running: bool,
    fx: Seq<EffectView>,
)
    requires
        old.wf(),
        update_post(old, new, ids, ids2, config, running, AppMessage::Forward, fx),
    ensures
        ({
            let t = active(old);
            let i = t.history_index->0 as int;
            &&& t.history_index is Some && i + 1 < t.history@.len() ==> {
                &&& new.active_tab == old.active_tab
                &&& new.tabs@.len() == old.tabs@.len()
                &&& active(new).history == t.history
                &&& active(new).history_index == Some((i + 1) as usize)
                &&& active(new).url@ == t.history@[i + 1].url@
                &&& new.url_bar_text@ == t.history@[i + 1].url@
            }
            &&& (t.history_index is None || i + 1 >= t.history@.len()) ==> new.tabs@ == old.tabs@
                && new.active_tab == old.active_tab
        }),
{
    let t = active(old);
    assert(history_move_post(old, new, false, fx));
    if t.history_index is Some && t.history_index->0 + 1 < t.history@.len() {
        assert(crate::tab::can_forward(t.history@, t.history_index));
        assert(moved_index(t, false) == t.history_index->0 + 1);
    }
}


/// Handle one message: change the model (and the identity configuration)
/// and return the work for the application to carry out, in order.
/// `hydra_running` tells whether the HYDRA node is up to take commands.
pub fn update(
    model: &mut AppModel,
    config: &AppConfig,
    ids: &mut IdentityConfig,
    hydra_running: bool,
    msg: AppMessage,
) -> (fx: Vec<Effect>)
    requires
        update_requires(*old(model), msg),
    ensures
        final(model).wf(),
        update_post(*old(model), *final(model), *old(ids), *final(ids), *config, hydra_running, msg, effects_view(fx@)),
{
    match msg {
        AppMessage::Navigate(input) => {
            let url = normalize_url(input.as_str());
            open_url(model, ids, url)
        },
        AppMessage::LinkClicked(href) => link_clicked(model, ids, href.as_str()),
        AppMessage::GoHome => go_home(model, ids, config),
        AppMessage::Back => move_in_history(model, true),
        AppMessage::Forward => move_in_history(model, false),
        AppMessage::Reload => reload(model),
        AppMessage::UrlBarChanged(t) => {
            model.url_bar_text = t;
            no_effects()
        },
        AppMessage::FocusUrlBar => {
            model.url_bar_focused = true;
            no_effects()
        },
        AppMessage::NewTab => open_new_tab(model, config),
        AppMessage::CloseTab(i) => close_tab_at(model, i),
        AppMessage::SwitchTab(i) => switch_to(model, i),
        AppMessage::NextTab => next_tab(model),
        AppMessage::PrevTab => prev_tab(model),
        AppMessage::PageLoaded(r) => page_loaded(model, ids, config, &r),
        AppMessage::InputSubmitted(v) => input_submitted(model, ids, v.as_str()),
        AppMessage::InputChanged(v) => {
            input_changed(model, v);
            no_effects()
        },
        AppMessage::ToggleBookmark => toggle_bookmark(model),
        AppMessage::BookmarkTab(i) => bookmark_tab(model, i),
        AppMessage::CertWarning { url, error } => {
            set_content(model, TabContent::CertWarning { url, error });
            no_effects()
        },
        AppMessage::TrustCertificate(url) => trust_certificate(model, url),
        AppMessage::DownloadStarted { filename } => {
            set_content(
                model,
                TabContent::Download { filename, bytes_downloaded: 0, complete: false, path: None },
            );
            no_effects()
        },
        AppMessage::DownloadProgress { filename, bytes } => {
            download_progress(model, filename, bytes);
            no_effects()
        },
        AppMessage::DownloadComplete { filename, path } => {
            set_content(
                model,
                TabContent::Download {
                    filename,
                    bytes_downloaded: 0,
                    complete: true,
                    path: Some(path),
                },
            );
            no_effects()
        },
        AppMessage::DownloadFailed(e) => {
            show_error(model, "Download failed: ", e.as_str());
            no_effects()
        },
        AppMessage::OpenDownload(p) => one_effect(Effect::OpenExternal(p)),
        AppMessage::IdentityRequired { url } => {
            offer_identities(model, ids, url);
            no_effects()
        },
        AppMessage::SelectIdentity { url, identity_id } => select_identity(model, ids, url, identity_id),
        AppMessage::CreateIdentity { name, duration_days } => create_identity(
            model,
            ids,
            name.as_str(),
            duration_days,
        ),
        AppMessage::ImportIdentity { name, cert_pem, key_pem } => import_identity_from_pem(
            model,
            ids,
            name.as_str(),
            cert_pem,
            key_pem,
        ),
        AppMessage::DeleteIdentity(id) => delete_identity_and_files(model, ids, id),
        AppMessage::IdentityCreated(r) => {
            identity_created(model, ids, &r);
            no_effects()
        },
        AppMessage::BindIdentityToHost { hostname, identity_id } => bind_identity(
            model,
            ids,
            hostname.as_str(),
            identity_id.as_str(),
        ),
        AppMessage::UnbindHost(h) => unbind_identity(model, ids, h.as_str()),
        AppMessage::IdentityNameChanged(n) => {
            identity_name_changed(model, n);
            no_effects()
        },
        AppMessage::ShowIdentityManager => {
            show_identity_manager(model, ids);
            no_effects()
        },
        AppMessage::TitanUploadRequested(url) => {
            open_titan_form(model, url);
            no_effects()
        },
        AppMessage::TitanTextChanged(t) => {
            titan_edit(model, TitanField::Text, t);
            no_effects()
        },
        AppMessage::TitanTokenChanged(t) => {
            titan_edit(model, TitanField::Token, t);
            no_effects()
        },
        AppMessage::TitanMimeChanged(t) => {
            titan_edit(model, TitanField::Mime, t);
            no_effects()
        },
        AppMessage::TitanSubmit => titan_submit(model, ids),
        AppMessage::TitanUploadResult(r) => match r {
            Ok(c) => {
                let r2: Result<PageContent, String> = Ok(c);
                page_loaded(model, ids, config, &r2)
            },
            Err(e) => {
                set_content(model, TabContent::Error(e));
                no_effects()
            },
        },
        AppMessage::MisfinComposeRequested(url) => {
            open_misfin_form(model, ids, url.as_str());
            no_effects()
        },
        AppMessage::MisfinMessageChanged(t) => {
            misfin_edit(model, Some(t), None);
            no_effects()
        },
        AppMessage::MisfinIdentitySelected(id) => {
            misfin_edit(model, None, Some(id));
            no_effects()
        },
        AppMessage::MisfinSend => misfin_send(model),
        AppMessage::MisfinResult(r) => {
            misfin_result(model, r);
            no_effects()
        },
        AppMessage::ImageLoaded { tab_index, block_index, data } => {
            image_loaded(model, tab_index, block_index, data);
            no_effects()
        },
        AppMessage::ImageFailed { .. } => no_effects(),
        AppMessage::SaveSession => one_effect(Effect::SaveSession),
        AppMessage::SessionLoaded(d) => session_loaded(model, d),
        AppMessage::HydraStatusUpdate(st) => {
            model.hydra_status = Some(st);
            no_effects()
        },
        AppMessage::HydraAlert(a) => {
            model.hydra_alerts.push(a);
            no_effects()
        },
        AppMessage::HydraObservationRecorded(_) => command_node(hydra_running, HydraCommand::GetStatus),
        AppMessage::HydraSyncComplete { .. } => command_node(hydra_running, HydraCommand::GetStatus),
        AppMessage::HydraError(_) => no_effects(),
        AppMessage::ShowHydraPanel => {
            show_hydra_panel(model);
            command_node(hydra_running, HydraCommand::GetStatus)
        },
        AppMessage::HydraToggleEnabled => command_node(hydra_running, HydraCommand::ToggleEnabled),
        AppMessage::HydraAddPeer(a) => {
            set_peer_address(model, String::new());
            command_node(hydra_running, HydraCommand::AddPeer { onion_address: a })
        },
        AppMessage::HydraRemovePeer(id) => command_node(
            hydra_running,
            HydraCommand::RemovePeer { node_id: id },
        ),
        AppMessage::HydraManualSync => command_node(hydra_running, HydraCommand::ManualSync),
        AppMessage::HydraDismissAlert(i) => {
            if i < model.hydra_alerts.len() {
                model.hydra_alerts.remove(i);
            }
            no_effects()
        },
        AppMessage::HydraPeerAddressChanged(a) => {
            set_peer_address(model, a);
            no_effects()
        },
        AppMessage::NoOp => no_effects(),
    }
}

// ---------------------------------------------------------------------
// Start-up
// ---------------------------------------------------------------------

/// What the browser does first.
#[derive(Debug)]
pub enum Startup {
    /// Go to this address (as typed: it is sent as `Navigate`).
    Navigate(String),
    /// Show the bookmarks in the active tab.
    ShowBookmarks,
}

/// A model as `AppModel::new` makes it.
pub open spec fn fresh_model(m: AppModel) -> bool {
    &&& m.wf()
    &&& m.tabs@.len() == 1
    &&& m.tabs@[0].url@.len() == 0
    &&& m.tabs@[0].title@ == "New Tab"@
    &&& m.tabs@[0].content is Blank
    &&& m.tabs@[0].history@.len() == 0
    &&& m.tabs@[0].history_index is None
    &&& m.active_tab == 0
    &&& m.url_bar_focused
    &&& m.hydra_status is None
    &&& m.hydra_alerts@.len() == 0
}

/// The first state: an address given on the command line is opened;
/// else a saved session is restored and its active page fetched again;
/// else the home page is opened; else the bookmarks are shown.
pub fn startup(url: Option<String>, session: Option<SessionData>, config: &AppConfig) -> (r: (AppModel, Startup))
    ensures
        r.0.wf(),
        match url {
            Some(u) => {
                &&& fresh_model(r.0)
                &&& r.0.url_bar_text@ == u@
                &&& r.1 matches Startup::Navigate(v) && v == u
            },
            None => match session {
                Some(d) => {
                    let t = active(r.0);
                    &&& r.0.url_bar_focused
                    &&& r.0.hydra_status is None
                    &&& r.0.hydra_alerts@.len() == 0
                    &&& (d.tabs@.len() == 0 ==> fresh_model(r.0) && r.0.url_bar_text@.len() == 0)
                    &&& (d.tabs@.len() > 0 ==> {
                        &&& r.0.tabs@.len() == d.tabs@.len()
                        &&& forall|i: int|
                            0 <= i < d.tabs@.len() ==> restored_tab(
                                #[trigger] r.0.tabs@[i],
                                d.tabs@[i],
                            )
                        &&& r.0.active_tab == (if d.active_tab < d.tabs@.len() {
                            d.active_tab as int
                        } else {
                            d.tabs@.len() - 1
                        })
                        &&& r.0.url_bar_text@ == t.url@
                    })
                    &&& if t.url@.len() > 0 {
                        &&& t.content is Loading
                        &&& r.1 matches Startup::Navigate(v) && v@ == t.url@
                    } else {
                        r.1 is ShowBookmarks
                    }
                },
                None => if config.home_page@.len() > 0 {
                    &&& r.0.tabs@.len() == 1
                    &&& active(r.0).content is Loading
                    &&& r.0.url_bar_text@ == config.home_page@
                    &&& r.1 matches Startup::Navigate(v) && v@ == config.home_page@
                } else {
                    &&& fresh_model(r.0)
                    &&& r.1 is ShowBookmarks
                },
            },
        },
{
    let mut m = AppModel::new();
    match url {
        Some(u) => {
            m.url_bar_text = u.clone();
            (m, Startup::Navigate(u))
        },
        None => match session {
            Some(d) => {
                m.restore_from_session(d);
                let u = m.active_tab().url.clone();
                if u.as_str().unicode_len() > 0 {
                    let ghost before = m;
                    let t = m.active_tab_mut();
                    t.content = TabContent::Loading;
                    proof {
                        assert forall|i: int| 0 <= i < m.tabs@.len() && i != m.active_tab implies #[trigger] m.tabs@[i] == before.tabs@[i] by {}
                    }
                    (m, Startup::Navigate(u))
                } else {
                    (m, Startup::ShowBookmarks)
                }
            },
            None => if config.home_page.as_str().unicode_len() > 0 {
                m.url_bar_text = config.home_page.clone();
                let t = m.active_tab_mut();
                t.content = TabContent::Loading;
                (m, Startup::Navigate(config.home_page.clone()))
            } else {
                (m, Startup::ShowBookmarks)
            },
        },
    }
}

} // verus!
