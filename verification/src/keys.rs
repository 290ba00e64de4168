//! Keyboard shortcuts and menu entries, and the messages they send.
use vstd::prelude::*;

use crate::browser::AppMessage;
use crate::config::{MenuActionItem, TabContextAction};
use crate::strmap::str_eq;

verus! {

/// A key as the shortcuts tell keys apart.
#[derive(Debug, Clone)]
pub enum Key {
    /// A key that types this text.
    Character(String),
    ArrowLeft,
    ArrowRight,
    Home,
    F5,
    F6,
    Tab,
    /// Any other key.
    Other,
}

/// The modifier keys held.
#[derive(Debug, Clone, Copy, PartialEq, Eq, Structural)]
pub struct Modifiers {
    pub control: bool,
    pub shift: bool,
    pub alt: bool,
}

/// The message of a shortcut: Ctrl with L, T, W, R, D, I (URL bar, new
/// tab, close tab, reload, bookmark, identities); Alt with Left, Right,
/// Home (back, forward, home); F5 and F6 alone (reload, URL bar); Ctrl+Tab
/// and Ctrl+Shift+Tab (next and previous tab).
pub open spec fn key_message(key: Key, m: Modifiers) -> Option<AppMessage> {
    if m.control && !m.shift && !m.alt {
        match key {
            Key::Character(s) => if s@ == "l"@ {
                Some(AppMessage::FocusUrlBar)
            } else if s@ == "t"@ {
                Some(AppMessage::NewTab)
            } else if s@ == "w"@ {
                Some(AppMessage::CloseTab(usize::MAX))
            } else if s@ == "r"@ {
                Some(AppMessage::Reload)
            } else if s@ == "d"@ {
                Some(AppMessage::ToggleBookmark)
            } else if s@ == "i"@ {
                Some(AppMessage::ShowIdentityManager)
            } else {
                None
            },
            Key::Tab => Some(AppMessage::NextTab),
            _ => None,
        }
    } else if m.alt && !m.control {
        match key {
            Key::ArrowLeft => Some(AppMessage::Back),
            Key::ArrowRight => Some(AppMessage::Forward),
            Key::Home => Some(AppMessage::GoHome),
            _ => None,
        }
    } else if !m.control && !m.alt && !m.shift {
        match key {
            Key::F5 => Some(AppMessage::Reload),
            Key::F6 => Some(AppMessage::FocusUrlBar),
            _ => None,
        }
    } else if m.control {
        match key {
            Key::Tab => if m.shift {
                Some(AppMessage::PrevTab)
            } else {
                Some(AppMessage::NextTab)
            },
            _ => None,
        }
    } else {
        None
    }
}

/// The message a key press sends, if it is a shortcut.
pub fn handle_key_press(key: &Key, modifiers: Modifiers) -> (r: Option<AppMessage>)
    ensures
        r == key_message(*key, modifiers),
{
    if modifiers.control && !modifiers.shift && !modifiers.alt {
        return match key {
            Key::Character(s) => {
                let s = s.as_str();
                if str_eq(s, "l") {
                    Some(AppMessage::FocusUrlBar)
                } else if str_eq(s, "t") {
                    Some(AppMessage::NewTab)
                } else if str_eq(s, "w") {
                    Some(AppMessage::CloseTab(usize::MAX))
                } else if str_eq(s, "r") {
                    Some(AppMessage::Reload)
                } else if str_eq(s, "d") {
                    Some(AppMessage::ToggleBookmark)
                } else if str_eq(s, "i") {
                    Some(AppMessage::ShowIdentityManager)
                } else {
                    None
                }
            },
            Key::Tab => Some(AppMessage::NextTab),
            _ => None,
        };
    }
    if modifiers.alt && !modifiers.control {
        return match key {
            Key::ArrowLeft => Some(AppMessage::Back),
            Key::ArrowRight => Some(AppMessage::Forward),
            Key::Home => Some(AppMessage::GoHome),
            _ => None,
        };
    }
    if !modifiers.control && !modifiers.alt && !modifiers.shift {
        return match key {
            Key::F5 => Some(AppMessage::Reload),
            Key::F6 => Some(AppMessage::FocusUrlBar),
            _ => None,
        };
    }
    if modifiers.control {
        return match key {
            Key::Tab => if modifiers.shift {
                Some(AppMessage::PrevTab)
            } else {
                Some(AppMessage::NextTab)
            },
            _ => None,
        };
    }
    None
}

impl MenuActionItem {
    /// The message of a menu entry.
    pub fn message(&self) -> (m: AppMessage)
        ensures
            m == (match *self {
                MenuActionItem::Home => AppMessage::GoHome,
                MenuActionItem::NewTab => AppMessage::NewTab,
                MenuActionItem::Back => AppMessage::Back,
                MenuActionItem::Forward => AppMessage::Forward,
                MenuActionItem::Reload => AppMessage::Reload,
                MenuActionItem::Bookmark => AppMessage::ToggleBookmark,
                MenuActionItem::IdentityManager => AppMessage::ShowIdentityManager,
                MenuActionItem::FocusUrlBar => AppMessage::FocusUrlBar,
            }),
    {
        match self {
            MenuActionItem::Home => AppMessage::GoHome,
            MenuActionItem::NewTab => AppMessage::NewTab,
            MenuActionItem::Back => AppMessage::Back,
            MenuActionItem::Forward => AppMessage::Forward,
            MenuActionItem::Reload => AppMessage::Reload,
            MenuActionItem::Bookmark => AppMessage::ToggleBookmark,
            MenuActionItem::IdentityManager => AppMessage::ShowIdentityManager,
            MenuActionItem::FocusUrlBar => AppMessage::FocusUrlBar,
        }
    }
}

impl TabContextAction {
    /// The message of an entry of the context menu of tab `tab`.
    pub fn message(&self, tab: usize) -> (m: AppMessage)
        ensures
            m == (match *self {
                TabContextAction::NewTab => AppMessage::NewTab,
                TabContextAction::CloseTab => AppMessage::CloseTab(tab),
                TabContextAction::BookmarkTab => AppMessage::BookmarkTab(tab),
            }),
    {
        match self {
            TabContextAction::NewTab => AppMessage::NewTab,
            TabContextAction::CloseTab => AppMessage::CloseTab(tab),
            TabContextAction::BookmarkTab => AppMessage::BookmarkTab(tab),
        }
    }
}

/// The entries of a tab's context menu, in order, with their labels
/// (dividers fall between them).
pub fn tab_context_menu_items() -> (v: Vec<(&'static str, TabContextAction)>)
    ensures
        v@.len() == 3,
        v@[0].0@ == "New Tab"@ && v@[0].1 == TabContextAction::NewTab,
        v@[1].0@ == "Bookmark"@ && v@[1].1 == TabContextAction::BookmarkTab,
        v@[2].0@ == "Close Tab"@ && v@[2].1 == TabContextAction::CloseTab,
{
    let mut v: Vec<(&'static str, TabContextAction)> = Vec::new();
    v.push(("New Tab", TabContextAction::NewTab));
    v.push(("Bookmark", TabContextAction::BookmarkTab));
    v.push(("Close Tab", TabContextAction::CloseTab));
    v
}

} // verus!
