//! What is saved of the open tabs between runs.
use vstd::prelude::*;

verus! {

/// The open tabs and which one is active.
#[derive(Debug, Clone)]
pub struct SessionData {
    pub active_tab: usize,
    pub tabs: Vec<SessionTab>,
}

/// One saved tab.
#[derive(Debug, Clone)]
pub struct SessionTab {
    pub url: String,
    pub title: String,
    pub history: Vec<SessionHistoryEntry>,
    pub history_index: Option<usize>,
}

/// One saved history page.
#[derive(Debug, Clone)]
pub struct SessionHistoryEntry {
    pub url: String,
    pub title: String,
}

} // verus!
