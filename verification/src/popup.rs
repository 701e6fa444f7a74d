//! When the picker popup opens and closes: the global hotkey (debounced),
//! the tray icon and menu, focus loss (with a grace period after opening),
//! and the paste that follows a choice once the popup is gone.
use vstd::prelude::*;

verus! {

/// Hotkey presses closer than this to the last accepted one are ignored.
pub const HOTKEY_DEBOUNCE_MS: u64 = 250;

/// Losing focus this soon after opening does not close the popup.
pub const FOCUS_GRACE_MS: u64 = 400;

/// What the event loop is to do.
#[derive(PartialEq, Eq, Structural)]
pub enum PopupAction {
    Nothing,
    Open,
    Close,
    Quit,
    ClearHistory,
}

/// The tray menu item that was chosen.
pub enum MenuChoice {
    Show,
    Clear,
    Quit,
    Other,
}

/// Milliseconds from `since` to `now`, zero when `now` is not later.
pub open spec fn elapsed_ms(since: u64, now: u64) -> int {
    if now >= since {
        now - since
    } else {
        0
    }
}

/// Whether a hotkey press at `now` falls within the debounce interval of
/// the last accepted press.
pub open spec fn debounced(last: Option<u64>, now: u64) -> bool {
    match last {
        Some(t) => elapsed_ms(t, now) < HOTKEY_DEBOUNCE_MS,
        None => false,
    }
}

/// Whether losing focus at `now` falls within the grace period after the
/// popup opened.
pub open spec fn within_grace(opened_at: Option<u64>, now: u64) -> bool {
    match opened_at {
        Some(t) => elapsed_ms(t, now) < FOCUS_GRACE_MS,
        None => false,
    }
}

/// Open the popup when closed, close it when open.
pub open spec fn toggle(open: bool) -> PopupAction {
    if open {
        PopupAction::Close
    } else {
        PopupAction::Open
    }
}

fn elapsed(since: u64, now: u64) -> (r: u64)
    ensures
        r == elapsed_ms(since, now),
{
    if now >= since {
        now - since
    } else {
        0
    }
}

/// What the event loop remembers about the popup.
pub struct PopupControl {
    pub popup_open: bool,
    /// A paste is due once the popup has closed.
    pub pending_paste: bool,
    /// When the last accepted hotkey press came, in milliseconds.
    pub last_hotkey_ms: Option<u64>,
    /// When the popup opened, in milliseconds.
    pub opened_at_ms: Option<u64>,
}

impl PopupControl {
    /// No popup, nothing pending.
    pub fn new() -> (c: Self)
        ensures
            !c.popup_open,
            !c.pending_paste,
            c.last_hotkey_ms is None,
            c.opened_at_ms is None,
    {
        PopupControl { popup_open: false, pending_paste: false, last_hotkey_ms: None, opened_at_ms: None }
    }

    /// The hotkey was pressed at `now_ms`: ignored within the debounce
    /// interval, else it toggles the popup and is remembered.
    pub fn on_hotkey(&mut self, now_ms: u64) -> (a: PopupAction)
        ensures
            debounced(old(self).last_hotkey_ms, now_ms) ==> a == PopupAction::Nothing
                && *final(self) == *old(self),
            !debounced(old(self).last_hotkey_ms, now_ms) ==> {
                &&& a == toggle(old(self).popup_open)
                &&& final(self).last_hotkey_ms == Some(now_ms)
                &&& final(self).popup_open == old(self).popup_open
                &&& final(self).pending_paste == old(self).pending_paste
                &&& final(self).opened_at_ms == old(self).opened_at_ms
            },
    {
        match self.last_hotkey_ms {
            Some(t) => {
                if elapsed(t, now_ms) < HOTKEY_DEBOUNCE_MS {
                    return PopupAction::Nothing;
                }
            },
            None => {},
        }
        self.last_hotkey_ms = Some(now_ms);
        if self.popup_open {
            PopupAction::Close
        } else {
            PopupAction::Open
        }
    }

    /// The tray icon was clicked: toggle the popup.
    pub fn on_tray_click(&self) -> (a: PopupAction)
        ensures
            a == toggle(self.popup_open),
    {
        if self.popup_open {
            PopupAction::Close
        } else {
            PopupAction::Open
        }
    }

    /// A tray menu item was chosen.
    pub fn on_menu(&self, choice: MenuChoice) -> (a: PopupAction)
        ensures
            a == match choice {
                MenuChoice::Quit => PopupAction::Quit,
                MenuChoice::Clear => PopupAction::ClearHistory,
                MenuChoice::Show => if self.popup_open {
                    PopupAction::Nothing
                } else {
                    PopupAction::Open
                },
                MenuChoice::Other => PopupAction::Nothing,
            },
    {
        match choice {
            MenuChoice::Quit => PopupAction::Quit,
            MenuChoice::Clear => PopupAction::ClearHistory,
            MenuChoice::Show => if self.popup_open {
                PopupAction::Nothing
            } else {
                PopupAction::Open
            },
            MenuChoice::Other => PopupAction::Nothing,
        }
    }

    /// The popup was redrawn and the picker asks to close (perhaps with a
    /// paste to follow): close it and remember the paste.
    pub fn after_redraw(&mut self, should_close: bool, paste_on_close: bool) -> (a: PopupAction)
        ensures
            a == (if should_close {
                PopupAction::Close
            } else {
                PopupAction::Nothing
            }),
            final(self).pending_paste == (old(self).pending_paste || (should_close
                && paste_on_close)),
            final(self).popup_open == old(self).popup_open,
            final(self).last_hotkey_ms == old(self).last_hotkey_ms,
            final(self).opened_at_ms == old(self).opened_at_ms,
    {
        if should_close {
            if paste_on_close {
                self.pending_paste = true;
            }
            PopupAction::Close
        } else {
            PopupAction::Nothing
        }
    }

    /// The popup lost focus at `now_ms`: close it, unless it opened within
    /// the grace period.
    pub fn on_focus_lost(&self, now_ms: u64) -> (a: PopupAction)
        ensures
            a == (if within_grace(self.opened_at_ms, now_ms) {
                PopupAction::Nothing
            } else {
                PopupAction::Close
            }),
    {
        let within = match self.opened_at_ms {
            Some(t) => elapsed(t, now_ms) < FOCUS_GRACE_MS,
            None => false,
        };
        if within {
            PopupAction::Nothing
        } else {
            PopupAction::Close
        }
    }

    /// The popup window was created at `now_ms`.
    pub fn opened(&mut self, now_ms: u64)
        ensures
            final(self).popup_open,
            final(self).opened_at_ms == Some(now_ms),
            final(self).pending_paste == old(self).pending_paste,
            final(self).last_hotkey_ms == old(self).last_hotkey_ms,
    {
        self.popup_open = true;
        self.opened_at_ms = Some(now_ms);
    }

    /// The popup window was closed.
    pub fn closed(&mut self)
        ensures
            !final(self).popup_open,
            final(self).opened_at_ms is None,
            final(self).pending_paste == old(self).pending_paste,
            final(self).last_hotkey_ms == old(self).last_hotkey_ms,
    {
        self.popup_open = false;
        self.opened_at_ms = None;
    }

    /// Whether to paste now: a paste is due and the popup is gone. The
    /// paste is then no longer due.
    pub fn take_paste(&mut self) -> (paste: bool)
        ensures
            paste == (old(self).pending_paste && !old(self).popup_open),
            final(self).pending_paste == (old(self).pending_paste && !paste),
            final(self).popup_open == old(self).popup_open,
            final(self).last_hotkey_ms == old(self).last_hotkey_ms,
            final(self).opened_at_ms == old(self).opened_at_ms,
    {
        if self.pending_paste && !self.popup_open {
            self.pending_paste = false;
            true
        } else {
            false
        }
    }
}

} // verus!
