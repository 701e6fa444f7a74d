//! State and decisions of the picker popup: the search query, which result
//! is selected, what the keyboard does to it, and when the popup closes.
use vstd::prelude::*;

verus! {

/// The keys the picker reacts to, as pressed during one frame.
pub struct PickerKeys {
    pub arrow_down: bool,
    pub arrow_up: bool,
    pub enter: bool,
    pub escape: bool,
    /// Command with Delete or Backspace.
    pub delete: bool,
}

/// What the keys of one frame did beyond the state: whether the selection
/// moved by keyboard, and whether Enter was pressed.
pub struct KeyOutcome {
    pub keyboard_nav: bool,
    pub enter_pressed: bool,
}

/// Persistent state for the popup picker UI.
pub struct PickerState {
    pub search_query: String,
    pub selected_index: usize,
    pub should_close: bool,
    pub paste_on_close: bool,
    /// The search bar still has to take focus (first frame after opening).
    pub first_frame: bool,
    /// The query of the previous frame, to notice when it changes.
    pub prev_search_query: String,
    /// Index into the history to delete (set by the UI, consumed after
    /// the history is unlocked).
    pub delete_index: Option<usize>,
    /// List index hovered last frame.
    pub hovered_list_index: Option<usize>,
}

/// The state of a picker that has just been opened.
pub open spec fn is_fresh(s: PickerState) -> bool {
    &&& s.search_query@ == Seq::<char>::empty()
    &&& s.selected_index == 0
    &&& !s.should_close
    &&& !s.paste_on_close
    &&& s.first_frame
    &&& s.prev_search_query@ == Seq::<char>::empty()
    &&& s.delete_index is None
    &&& s.hovered_list_index is None
}

/// The selection after a frame starts: back to the top when the query
/// changed, then kept within the `count` results.
pub open spec fn selection_at_frame_start(s: PickerState, count: usize) -> usize {
    let sel = if s.search_query@ != s.prev_search_query@ {
        0
    } else {
        s.selected_index
    };
    if count > 0 && sel >= count {
        (count - 1) as usize
    } else {
        sel
    }
}

/// Whether Arrow Down moves the selection from `sel` among `count` results.
pub open spec fn moves_down(keys: PickerKeys, sel: usize, count: nat) -> bool {
    keys.arrow_down && count > 0 && sel + 1 < count
}

/// The selection after Arrow Down.
pub open spec fn after_down(keys: PickerKeys, sel: usize, count: nat) -> usize {
    if moves_down(keys, sel, count) {
        (sel + 1) as usize
    } else {
        sel
    }
}

/// Whether Arrow Up moves the selection from `sel`.
pub open spec fn moves_up(keys: PickerKeys, sel: usize) -> bool {
    keys.arrow_up && sel > 0
}

/// The selection after Arrow Down and then Arrow Up.
pub open spec fn after_keys(keys: PickerKeys, sel: usize, count: nat) -> usize {
    let s1 = after_down(keys, sel, count);
    if moves_up(keys, s1) {
        (s1 - 1) as usize
    } else {
        s1
    }
}

/// For each character of a result's label, whether it is one of the
/// matched character positions (and so drawn highlighted).
pub fn highlight_chars(label: &String, matched: &Vec<usize>) -> (r: Vec<(char, bool)>)
    ensures
        r@.len() == label@.len(),
        forall|i: int|
            #![trigger r@[i]]
            0 <= i < r@.len() ==> r@[i].0 == label@[i] && r@[i].1 == matched@.contains(
                i as usize,
            ),
{
    let mut r: Vec<(char, bool)> = Vec::new();
    let total = label.as_str().unicode_len();
    let mut ci: usize = 0;
    for ch in it: label.chars()
        invariant
            it.seq() == label@,
            total == label@.len(),
            ci == it.index(),
            r@.len() == ci,
            forall|i: int|
                #![trigger r@[i]]
                0 <= i < ci ==> r@[i].0 == label@[i] && r@[i].1 == matched@.contains(i as usize),
    {
        let mut found = false;
        let mut k: usize = 0;
        while k < matched.len()
            invariant
                k <= matched@.len(),
                found == (exists|j: int| 0 <= j < k && matched@[j] == ci),
            decreases matched@.len() - k,
        {
            if matched[k] == ci {
                found = true;
            }
            k = k + 1;
        }
        assert(found == matched@.contains(ci));
        r.push((ch, found));
        ci = ci + 1;
    }
    r
}

impl PickerState {
    /// A fresh picker: empty query, first result selected.
    pub fn new() -> (s: Self)
        ensures
            is_fresh(s),
    {
        PickerState {
            search_query: String::new(),
            selected_index: 0,
            should_close: false,
            paste_on_close: false,
            first_frame: true,
            prev_search_query: String::new(),
            delete_index: None,
            hovered_list_index: None,
        }
    }

    /// Back to a fresh picker (when the popup opens or closes).
    pub fn reset(&mut self)
        ensures
            is_fresh(*final(self)),
    {
        self.search_query = String::new();
        self.selected_index = 0;
        self.should_close = false;
        self.paste_on_close = false;
        self.first_frame = true;
        self.prev_search_query = String::new();
        self.delete_index = None;
        self.hovered_list_index = None;
    }

    /// Start a frame showing `result_count` results: forget the hovered
    /// item (returned, as it was last frame), reset the selection when the
    /// query changed, and clamp it to the results.
    pub fn begin_frame(&mut self, result_count: usize) -> (prev_hovered: Option<usize>)
        ensures
            prev_hovered == old(self).hovered_list_index,
            final(self).hovered_list_index is None,
            final(self).selected_index == selection_at_frame_start(*old(self), result_count),
            final(self).prev_search_query@ == old(self).search_query@,
            final(self).search_query == old(self).search_query,
            final(self).should_close == old(self).should_close,
            final(self).paste_on_close == old(self).paste_on_close,
            final(self).first_frame == old(self).first_frame,
            final(self).delete_index == old(self).delete_index,
    {
        let prev_hovered = self.hovered_list_index;
        self.hovered_list_index = None;
        if self.search_query != self.prev_search_query {
            self.selected_index = 0;
            self.prev_search_query = self.search_query.clone();
        }
        if result_count > 0 && self.selected_index >= result_count {
            self.selected_index = result_count - 1;
        }
        prev_hovered
    }

    /// Apply the keys of one frame. `result_indices` holds, for each listed
    /// result, its index in the history. Arrow Down then Arrow Up move the
    /// selection within the results, Escape closes, Command-Delete marks the
    /// selected result's entry for deletion.
    pub fn handle_keys(&mut self, keys: PickerKeys, result_indices: &Vec<usize>) -> (out:
        KeyOutcome)
        ensures
            final(self).selected_index == after_keys(
                keys,
                old(self).selected_index,
                result_indices@.len(),
            ),
            out.keyboard_nav == (moves_down(keys, old(self).selected_index, result_indices@.len())
                || moves_up(
                keys,
                after_down(keys, old(self).selected_index, result_indices@.len()),
            )),
            out.enter_pressed == keys.enter,
            final(self).should_close == (old(self).should_close || keys.escape),
            final(self).delete_index == (if keys.delete && final(self).selected_index
                < result_indices@.len() {
                Some(result_indices@[final(self).selected_index as int])
            } else {
                old(self).delete_index
            }),
            final(self).search_query == old(self).search_query,
            final(self).prev_search_query == old(self).prev_search_query,
            final(self).paste_on_close == old(self).paste_on_close,
            final(self).first_frame == old(self).first_frame,
            final(self).hovered_list_index == old(self).hovered_list_index,
    {
        let count = result_indices.len();
        let mut keyboard_nav = false;
        if keys.arrow_down {
            if count > 0 && self.selected_index < count - 1 {
                self.selected_index = self.selected_index + 1;
                keyboard_nav = true;
            }
        }
        if keys.arrow_up {
            if self.selected_index > 0 {
                self.selected_index = self.selected_index - 1;
                keyboard_nav = true;
            }
        }
        if keys.escape {
            self.should_close = true;
        }
        if keys.delete {
            if count > 0 && self.selected_index < count {
                self.delete_index = Some(result_indices[self.selected_index]);
            }
        }
        KeyOutcome { keyboard_nav, enter_pressed: keys.enter }
    }

    /// The history index to copy this frame: the selected result when Enter
    /// was pressed and there is one, else the clicked result, if any.
    pub fn copy_target(&self, clicked: Option<usize>, enter_pressed: bool, result_indices: &Vec<
        usize,
    >) -> (r: Option<usize>)
        ensures
            r == (if enter_pressed && self.selected_index < result_indices@.len() {
                Some(result_indices@[self.selected_index as int])
            } else {
                clicked
            }),
    {
        if enter_pressed && result_indices.len() > 0 {
            if self.selected_index < result_indices.len() {
                return Some(result_indices[self.selected_index]);
            }
        }
        clicked
    }

    /// What the list shows when there is no result: a heading, and a hint
    /// when a search found nothing.
    pub fn empty_state_text(&self) -> (r: (&'static str, Option<&'static str>))
        ensures
            self.search_query@.len() == 0 ==> r.0@ == "No clipboard history yet"@ && r.1 is None,
            self.search_query@.len() > 0 ==> r.0@ == "No matches found"@ && (r.1 matches Some(
                h,
            ) && h@ == "Try a different search term"@),
    {
        if self.search_query.as_str().is_empty() {
            ("No clipboard history yet", None)
        } else {
            ("No matches found", Some("Try a different search term"))
        }
    }

    /// Whether the search bar should take focus now: only on the first
    /// frame after the popup opened.
    pub fn take_focus_request(&mut self) -> (r: bool)
        ensures
            r == old(self).first_frame,
            !final(self).first_frame,
            final(self).selected_index == old(self).selected_index,
            final(self).search_query == old(self).search_query,
            final(self).prev_search_query == old(self).prev_search_query,
            final(self).should_close == old(self).should_close,
            final(self).paste_on_close == old(self).paste_on_close,
            final(self).delete_index == old(self).delete_index,
            final(self).hovered_list_index == old(self).hovered_list_index,
    {
        let r = self.first_frame;
        self.first_frame = false;
        r
    }

    /// The entry to delete, if one was marked; the mark is cleared.
    pub fn take_delete(&mut self) -> (r: Option<usize>)
        ensures
            r == old(self).delete_index,
            final(self).delete_index is None,
            final(self).selected_index == old(self).selected_index,
            final(self).search_query == old(self).search_query,
            final(self).prev_search_query == old(self).prev_search_query,
            final(self).should_close == old(self).should_close,
            final(self).paste_on_close == old(self).paste_on_close,
            final(self).first_frame == old(self).first_frame,
            final(self).hovered_list_index == old(self).hovered_list_index,
    {
        let r = self.delete_index;
        self.delete_index = None;
        r
    }

    /// After an entry was chosen (copied or not): close the popup and
    /// paste once it is closed.
    pub fn finish_with_copy(&mut self)
        ensures
            final(self).should_close,
            final(self).paste_on_close,
            final(self).selected_index == old(self).selected_index,
            final(self).search_query == old(self).search_query,
            final(self).prev_search_query == old(self).prev_search_query,
            final(self).first_frame == old(self).first_frame,
            final(self).delete_index == old(self).delete_index,
            final(self).hovered_list_index == old(self).hovered_list_index,
    {
        self.should_close = true;
        self.paste_on_close = true;
    }
}

} // verus!
