//! Clipboard history manager: the entry model, the bounded and deduplicated
//! history with fuzzy search, and the decision logic of the picker, the
//! clipboard poller and the popup window.
pub mod entry;
pub mod fuzzy;
pub mod history;
pub mod icon;
pub mod image;
pub mod laws;
pub mod picker;
pub mod poller;
pub mod popup;
pub mod ranking;

