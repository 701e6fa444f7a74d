//! What the clipboard poller records: text when it differs from the last
//! text seen, an image when its hash differs from the last image's.
use vstd::prelude::*;

use crate::image::{quick_hash, quick_hash_spec};

verus! {

/// Whether `text` differs from the last text seen (`None`: none seen yet).
pub open spec fn text_changed(last: Option<String>, text: Seq<char>) -> bool {
    match last {
        Some(t) => t@ != text,
        None => true,
    }
}

/// What the poller remembers between two reads of the clipboard.
pub struct PollerState {
    pub last_text: Option<String>,
    pub last_image_hash: Option<u64>,
}

impl PollerState {
    /// Nothing seen yet.
    pub fn new() -> (s: Self)
        ensures
            s.last_text is None,
            s.last_image_hash is None,
    {
        PollerState { last_text: None, last_image_hash: None }
    }

    /// Text read from the clipboard: record it (true) when it is not empty
    /// and differs from the last text seen, and remember it then.
    pub fn observe_text(&mut self, text: &String) -> (record: bool)
        ensures
            record == (text@.len() > 0 && text_changed(old(self).last_text, text@)),
            record ==> (final(self).last_text matches Some(t) && t@ == text@),
            !record ==> final(self).last_text == old(self).last_text,
            final(self).last_image_hash == old(self).last_image_hash,
    {
        if text.as_str().is_empty() {
            return false;
        }
        let changed = match &self.last_text {
            Some(t) => *t != *text,
            None => true,
        };
        if changed {
            self.last_text = Some(text.clone());
        }
        changed
    }

    /// Image bytes read from the clipboard: record the image (true) when
    /// their hash differs from the last image's, and remember it then.
    pub fn observe_image(&mut self, rgba: &[u8]) -> (record: bool)
        ensures
            record == (old(self).last_image_hash != Some(quick_hash_spec(rgba@))),
            final(self).last_image_hash == Some(quick_hash_spec(rgba@)),
            final(self).last_text == old(self).last_text,
    {
        let hash = quick_hash(rgba);
        let changed = match self.last_image_hash {
            Some(h) => h != hash,
            None => true,
        };
        if changed {
            self.last_image_hash = Some(hash);
        }
        changed
    }
}

} // verus!
