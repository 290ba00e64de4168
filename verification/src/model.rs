//! The browser's top-level state: its tabs and the URL bar.
use vstd::prelude::*;
use vstd::string::StrSliceExecFns;

use crate::alert::AlertResult;
use crate::node::HydraStatus;
use crate::session::{SessionData, SessionHistoryEntry, SessionTab};
use crate::tab::{HistoryEntry, TabContent, TabState};

verus! {

/// Top-level application state.
pub struct AppModel {
    pub tabs: Vec<TabState>,
    pub active_tab: usize,
    pub url_bar_text: String,
    pub url_bar_focused: bool,
    pub hydra_status: Option<HydraStatus>,
    pub hydra_alerts: Vec<AlertResult>,
}

/// A tab and a saved tab agree on everything a session keeps.
pub open spec fn tab_matches_session(t: TabState, s: SessionTab) -> bool {
    &&& t.url@ == s.url@
    &&& t.title@ == s.title@
    &&& t.history_index == s.history_index
    &&& t.history@.len() == s.history@.len()
    &&& forall|k: int|
        0 <= k < t.history@.len() ==> (#[trigger] t.history@[k]).url@ == s.history@[k].url@
            && t.history@[k].title@ == s.history@[k].title@
}

/// A tab as a session restores it: pages are fetched again, so nothing is
/// cached and the tab shows `Loading` (or `Blank` when it has no URL).
pub open spec fn restored_tab(t: TabState, s: SessionTab) -> bool {
    &&& tab_matches_session(t, s)
    &&& (if s.url@.len() == 0 {
        t.content is Blank
    } else {
        t.content is Loading
    })
    &&& forall|k: int| 0 <= k < t.history@.len() ==> (#[trigger] t.history@[k]).content is None
}

impl AppModel {
    /// There is at least one tab and the active index names one of them.
    pub open spec fn wf(&self) -> bool {
        self.tabs@.len() > 0 && self.active_tab < self.tabs@.len()
    }

    /// One blank tab, active, with a focused empty URL bar.
    pub fn new() -> (m: Self)
        ensures
            m.wf(),
            m.tabs@.len() == 1,
            m.tabs@[0].url@.len() == 0,
            m.tabs@[0].title@ == "New Tab"@,
            m.tabs@[0].content is Blank,
            m.tabs@[0].history@.len() == 0,
            m.tabs@[0].history_index is None,
            m.active_tab == 0,
            m.url_bar_text@.len() == 0,
            m.url_bar_focused,
            m.hydra_status is None,
            m.hydra_alerts@.len() == 0,
    {
        let mut tabs: Vec<TabState> = Vec::new();
        tabs.push(TabState::new_blank());
        AppModel {
            tabs,
            active_tab: 0,
            url_bar_text: String::new(),
            url_bar_focused: true,
            hydra_status: None,
            hydra_alerts: Vec::new(),
        }
    }

    /// The tab being shown.
    pub fn active_tab(&self) -> (t: &TabState)
        requires
            self.wf(),
        ensures
            *t == self.tabs@[self.active_tab as int],
    {
        &self.tabs[self.active_tab]
    }

    /// The tab being shown, for changing it.
    pub fn active_tab_mut(&mut self) -> (t: &mut TabState)
        requires
            old(self).wf(),
        ensures
            *t == old(self).tabs@[old(self).active_tab as int],
            final(self).tabs@ == old(self).tabs@.update(old(self).active_tab as int, *final(t)),
            final(self).active_tab == old(self).active_tab,
            final(self).url_bar_text == old(self).url_bar_text,
            final(self).url_bar_focused == old(self).url_bar_focused,
            final(self).hydra_status == old(self).hydra_status,
            final(self).hydra_alerts == old(self).hydra_alerts,
    {
        &mut self.tabs[self.active_tab]
    }

    /// Open a blank tab and make it the active one.
    pub fn new_tab(&mut self)
        requires
            old(self).tabs@.len() < usize::MAX,
        ensures
            final(self).wf(),
            final(self).tabs@.len() == old(self).tabs@.len() + 1,
            final(self).tabs@.take(old(self).tabs@.len() as int) == old(self).tabs@,
            final(self).tabs@.last().url@.len() == 0,
            final(self).tabs@.last().title@ == "New Tab"@,
            final(self).tabs@.last().content is Blank,
            final(self).tabs@.last().history@.len() == 0,
            final(self).tabs@.last().history_index is None,
            final(self).active_tab == old(self).tabs@.len(),
            final(self).url_bar_text@.len() == 0,
            final(self).url_bar_focused,
            final(self).hydra_status == old(self).hydra_status,
            final(self).hydra_alerts == old(self).hydra_alerts,
    {
        self.tabs.push(TabState::new_blank());
        self.active_tab = self.tabs.len() - 1;
        self.url_bar_text = String::new();
        self.url_bar_focused = true;
        assert(self.tabs@.take(old(self).tabs@.len() as int) =~= old(self).tabs@);
    }

    /// Close the tab at `index`, unless it is the last tab (then nothing
    /// changes and the result is false). The active index stays put unless
    /// it would fall off the end.
    pub fn close_tab(&mut self, index: usize) -> (closed: bool)
        requires
            old(self).wf(),
            old(self).tabs@.len() <= 1 || index < old(self).tabs@.len(),
        ensures
            final(self).wf(),
            closed == (old(self).tabs@.len() > 1),
            !closed ==> *final(self) == *old(self),
            closed ==> {
                &&& final(self).tabs@ == old(self).tabs@.remove(index as int)
                &&& final(self).active_tab == (if old(self).active_tab < final(self).tabs@.len() {
                    old(self).active_tab as int
                } else {
                    final(self).tabs@.len() - 1
                })
                &&& final(self).url_bar_text@ == final(self).tabs@[final(self).active_tab as int].url@
                &&& final(self).url_bar_focused == old(self).url_bar_focused
                &&& final(self).hydra_status == old(self).hydra_status
                &&& final(self).hydra_alerts == old(self).hydra_alerts
            },
    {
        if self.tabs.len() <= 1 {
            return false;
        }
        self.tabs.remove(index);
        if self.active_tab >= self.tabs.len() {
            self.active_tab = self.tabs.len() - 1;
        }
        self.sync_url_bar();
        true
    }

    /// Make the tab at `index` active; an index past the end changes
    /// nothing.
    pub fn switch_tab(&mut self, index: usize)
        requires
            old(self).wf(),
        ensures
            final(self).wf(),
            final(self).tabs == old(self).tabs,
            final(self).url_bar_focused == old(self).url_bar_focused,
            final(self).hydra_status == old(self).hydra_status,
            final(self).hydra_alerts == old(self).hydra_alerts,
            index < old(self).tabs@.len() ==> final(self).active_tab == index
                && final(self).url_bar_text@ == old(self).tabs@[index as int].url@,
            index >= old(self).tabs@.len() ==> *final(self) == *old(self),
    {
        if index < self.tabs.len() {
            self.active_tab = index;
            self.sync_url_bar();
        }
    }

    /// Show the active tab's URL in the URL bar.
    pub fn sync_url_bar(&mut self)
        requires
            old(self).wf(),
        ensures
            final(self).tabs == old(self).tabs,
            final(self).active_tab == old(self).active_tab,
            final(self).url_bar_focused == old(self).url_bar_focused,
            final(self).hydra_status == old(self).hydra_status,
            final(self).hydra_alerts == old(self).hydra_alerts,
            final(self).url_bar_text@ == old(self).tabs@[old(self).active_tab as int].url@,
    {
        self.url_bar_text = self.tabs[self.active_tab].url.clone();
    }

    /// What a session saves of the current state.
    pub fn to_session_data(&self) -> (d: SessionData)
        ensures
            d.active_tab == self.active_tab,
            d.tabs@.len() == self.tabs@.len(),
            forall|i: int|
                0 <= i < self.tabs@.len() ==> tab_matches_session(
                    #[trigger] self.tabs@[i],
                    d.tabs@[i],
                ),
    {
        let mut tabs: Vec<SessionTab> = Vec::new();
        let mut i: usize = 0;
        while i < self.tabs.len()
            invariant
                i <= self.tabs@.len(),
                tabs@.len() == i,
                forall|j: int|
                    0 <= j < i ==> tab_matches_session(#[trigger] self.tabs@[j], tabs@[j]),
            decreases self.tabs@.len() - i,
        {
            let tab = &self.tabs[i];
            let mut history: Vec<SessionHistoryEntry> = Vec::new();
            let mut k: usize = 0;
            while k < tab.history.len()
                invariant
                    k <= tab.history@.len(),
                    history@.len() == k,
                    forall|j: int|
                        0 <= j < k ==> (#[trigger] tab.history@[j]).url@ == history@[j].url@
                            && tab.history@[j].title@ == history@[j].title@,
                decreases tab.history@.len() - k,
            {
                history.push(
                    SessionHistoryEntry {
                        url: tab.history[k].url.clone(),
                        title: tab.history[k].title.clone(),
                    },
                );
                k = k + 1;
            }
            tabs.push(
                SessionTab {
                    url: tab.url.clone(),
                    title: tab.title.clone(),
                    history,
                    history_index: tab.history_index,
                },
            );
            i = i + 1;
        }
        SessionData { active_tab: self.active_tab, tabs }
    }

    /// Replace the tabs with those of a saved session; an empty session
    /// changes nothing. The active index is clamped to the last tab.
    pub fn restore_from_session(&mut self, data: SessionData)
        requires
            old(self).wf(),
        ensures
            final(self).wf(),
            final(self).url_bar_focused == old(self).url_bar_focused,
            final(self).hydra_status == old(self).hydra_status,
            final(self).hydra_alerts == old(self).hydra_alerts,
            data.tabs@.len() == 0 ==> *final(self) == *old(self),
            data.tabs@.len() > 0 ==> {
                &&& final(self).tabs@.len() == data.tabs@.len()
                &&& forall|i: int|
                    0 <= i < data.tabs@.len() ==> restored_tab(
                        #[trigger] final(self).tabs@[i],
                        data.tabs@[i],
                    )
                &&& final(self).active_tab == (if data.active_tab < data.tabs@.len() {
                    data.active_tab as int
                } else {
                    data.tabs@.len() - 1
                })
                &&& final(self).url_bar_text@ == final(self).tabs@[final(self).active_tab as int].url@
            },
    {
        if data.tabs.len() == 0 {
            return ;
        }
        let mut tabs: Vec<TabState> = Vec::new();
        let mut i: usize = 0;
        while i < data.tabs.len()
            invariant
                i <= data.tabs@.len(),
                tabs@.len() == i,
                forall|j: int| 0 <= j < i ==> restored_tab(#[trigger] tabs@[j], data.tabs@[j]),
            decreases data.tabs@.len() - i,
        {
            let st = &data.tabs[i];
            let mut history: Vec<HistoryEntry> = Vec::new();
            let mut k: usize = 0;
            while k < st.history.len()
                invariant
                    k <= st.history@.len(),
                    history@.len() == k,
                    forall|j: int|
                        0 <= j < k ==> (#[trigger] history@[j]).url@ == st.history@[j].url@
                            && history@[j].title@ == st.history@[j].title@
                            && history@[j].content is None,
                decreases st.history@.len() - k,
            {
                history.push(
                    HistoryEntry {
                        url: st.history[k].url.clone(),
                        title: st.history[k].title.clone(),
                        content: None,
                    },
                );
                k = k + 1;
            }
            let content = if st.url.as_str().unicode_len() == 0 {
                TabContent::Blank
            } else {
                TabContent::Loading
            };
            tabs.push(
                TabState {
                    url: st.url.clone(),
                    title: st.title.clone(),
                    content,
                    history,
                    history_index: st.history_index,
                },
            );
            i = i + 1;
        }
        self.tabs = tabs;
        let last = self.tabs.len() - 1;
        self.active_tab = if data.active_tab < last {
            data.active_tab
        } else {
            last
        };
        self.sync_url_bar();
    }
}

/// Saving a session and restoring it gives back the same tabs (URL, title,
/// history pages and cursor) and the same active tab.
pub proof fn lemma_session_round_trip(m: AppModel, d: SessionData, r: AppModel)
    requires
        m.wf(),
        d.active_tab == m.active_tab,
        d.tabs@.len() == m.tabs@.len(),
        forall|i: int| 0 <= i < m.tabs@.len() ==> tab_matches_session(#[trigger] m.tabs@[i], d.tabs@[i]),
        r.tabs@.len() == d.tabs@.len(),
        forall|i: int| 0 <= i < d.tabs@.len() ==> restored_tab(#[trigger] r.tabs@[i], d.tabs@[i]),
        r.active_tab == (if d.active_tab < d.tabs@.len() {
            d.active_tab as int
        } else {
            d.tabs@.len() - 1
        }),
    ensures
        r.wf(),
        r.active_tab == m.active_tab,
        r.tabs@.len() == m.tabs@.len(),
        forall|i: int|
            0 <= i < m.tabs@.len() ==> {
                &&& (#[trigger] r.tabs@[i]).url@ == m.tabs@[i].url@
                &&& r.tabs@[i].title@ == m.tabs@[i].title@
                &&& r.tabs@[i].history_index == m.tabs@[i].history_index
                &&& r.tabs@[i].history@.len() == m.tabs@[i].history@.len()
                &&& forall|k: int|
                    0 <= k < r.tabs@[i].history@.len() ==> (#[trigger] r.tabs@[i].history@[k]).url@
                        == m.tabs@[i].history@[k].url@ && r.tabs@[i].history@[k].title@
                        == m.tabs@[i].history@[k].title@
            },
{
    assert forall|i: int| 0 <= i < m.tabs@.len() implies {
        &&& (#[trigger] r.tabs@[i]).url@ == m.tabs@[i].url@
        &&& r.tabs@[i].title@ == m.tabs@[i].title@
        &&& r.tabs@[i].history_index == m.tabs@[i].history_index
        &&& r.tabs@[i].history@.len() == m.tabs@[i].history@.len()
        &&& forall|k: int|
            0 <= k < r.tabs@[i].history@.len() ==> (#[trigger] r.tabs@[i].history@[k]).url@
                == m.tabs@[i].history@[k].url@ && r.tabs@[i].history@[k].title@
                == m.tabs@[i].history@[k].title@
    } by {
        assert(tab_matches_session(m.tabs@[i], d.tabs@[i]));
        assert(restored_tab(r.tabs@[i], d.tabs@[i]));
        assert forall|k: int| 0 <= k < r.tabs@[i].history@.len() implies (
        #[trigger] r.tabs@[i].history@[k]).url@ == m.tabs@[i].history@[k].url@
            && r.tabs@[i].history@[k].title@ == m.tabs@[i].history@[k].title@ by {
            assert(r.tabs@[i].history@[k].url@ == d.tabs@[i].history@[k].url@);
            assert(m.tabs@[i].history@[k].url@ == d.tabs@[i].history@[k].url@);
        }
    }
}

} // verus!
