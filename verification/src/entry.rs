//! A single clipboard entry: copied text or an image.
use vstd::prelude::*;

verus! {

broadcast use vstd::string::group_string_axioms;

/// `String::push` appends one character to the end of the string, as std
/// documents it.
pub assume_specification[ String::push ](s: &mut String, ch: char)
    ensures
        final(s)@ == old(s)@.push(ch),
;

/// The character of the decimal digit `d`.
pub open spec fn digit_char(d: nat) -> char {
    (48 + d) as char
}

/// The decimal representation of `n`, without leading zeros.
pub open spec fn decimal(n: nat) -> Seq<char>
    decreases n,
{
    if n < 10 {
        seq![digit_char(n)]
    } else {
        decimal(n / 10).push(digit_char(n % 10))
    }
}

/// Appends the decimal representation of `n` to `s`.
pub fn push_decimal(s: &mut String, n: u32)
    ensures
        final(s)@ == old(s)@ + decimal(n as nat),
    decreases n,
{
    if n >= 10 {
        push_decimal(s, n / 10);
    }
    let d: u8 = (n % 10) as u8;
    let c: char = (48u8 + d) as char;
    assert(c == digit_char((n % 10) as nat));
    s.push(c);
    assert(s@ =~= old(s)@ + decimal(n as nat));
}

/// What an entry is, as a mathematical value.
pub enum EntryView {
    Text(Seq<char>),
    Image { rgba: Seq<u8>, width: u32, height: u32 },
}

/// A single clipboard entry: either copied text or an image.
pub enum ClipboardEntry {
    Text(String),
    Image { rgba: Vec<u8>, width: u32, height: u32 },
}

impl View for ClipboardEntry {
    type V = EntryView;

    open spec fn view(&self) -> EntryView {
        match self {
            ClipboardEntry::Text(s) => EntryView::Text(s@),
            ClipboardEntry::Image { rgba, width, height } => EntryView::Image {
                rgba: rgba@,
                width: *width,
                height: *height,
            },
        }
    }
}

/// The text that search matches against: the text itself, or a fixed
/// placeholder for an image.
pub open spec fn searchable_view(e: EntryView) -> Seq<char> {
    match e {
        EntryView::Text(s) => s,
        EntryView::Image { .. } => "(image)"@,
    }
}

/// `s` on one line: every line feed and carriage return becomes a space.
pub open spec fn one_line(s: Seq<char>) -> Seq<char> {
    s.map_values(|c: char| if c == '\n' || c == '\r' { ' ' } else { c })
}

/// `"W×H"` for an image of that size.
pub open spec fn size_caption(width: u32, height: u32) -> Seq<char> {
    decimal(width as nat) + seq!['\u{d7}'] + decimal(height as nat)
}

/// `line` cut to `max_chars` characters followed by an ellipsis when it is
/// longer, else `line` itself.
pub open spec fn truncated(line: Seq<char>, max_chars: nat) -> Seq<char> {
    if line.len() > max_chars {
        line.take(max_chars as int).push('\u{2026}')
    } else {
        line
    }
}

/// The single-line summary of an entry, truncated to `max_chars`: the text
/// on one line, or `"(empty)"` when there is no text, or `"Image W×H"` for
/// an image; cut to `max_chars` characters followed by an ellipsis when
/// longer.
pub open spec fn label_view(e: EntryView, max_chars: nat) -> Seq<char> {
    match e {
        EntryView::Text(s) => {
            let line = one_line(s);
            if line.len() == 0 {
                truncated("(empty)"@, max_chars)
            } else {
                truncated(line, max_chars)
            }
        },
        EntryView::Image { width, height, .. } => truncated(
            "Image "@ + size_caption(width, height),
            max_chars,
        ),
    }
}

/// How an entry is shown in full: the text itself, or `"[Image W×H]"`.
pub open spec fn display_view(e: EntryView) -> Seq<char> {
    match e {
        EntryView::Text(s) => s,
        EntryView::Image { width, height, .. } => "[Image "@ + size_caption(width, height) + "]"@,
    }
}

/// No digit of a decimal number is a line feed or a carriage return.
pub proof fn lemma_decimal_has_no_line_break(n: nat)
    ensures
        !decimal(n).contains('\n'),
        !decimal(n).contains('\r'),
    decreases n,
{
    if n >= 10 {
        lemma_decimal_has_no_line_break(n / 10);
        assert forall|k: int| 0 <= k < decimal(n).len() implies decimal(n)[k] != '\n' && decimal(
            n,
        )[k] != '\r' by {
            if k < decimal(n / 10).len() {
                assert(decimal(n)[k] == decimal(n / 10)[k]);
            }
        }
    }
}

/// A size caption is a single line.
pub proof fn lemma_size_caption_has_no_line_break(width: u32, height: u32)
    ensures
        !size_caption(width, height).contains('\n'),
        !size_caption(width, height).contains('\r'),
{
    lemma_decimal_has_no_line_break(width as nat);
    lemma_decimal_has_no_line_break(height as nat);
    let a = decimal(width as nat);
    let b = decimal(height as nat);
    let c = size_caption(width, height);
    assert forall|k: int| 0 <= k < c.len() implies c[k] != '\n' && c[k] != '\r' by {
        if k < a.len() {
            assert(c[k] == a[k]);
        } else if k == a.len() {
        } else {
            assert(c[k] == b[k - a.len() - 1]);
        }
    }
}

fn one_line_char(c: char) -> (r: char)
    ensures
        r == (if c == '\n' || c == '\r' { ' ' } else { c }),
{
    if c == '\n' || c == '\r' {
        ' '
    } else {
        c
    }
}

fn push_size_caption(out: &mut String, width: u32, height: u32)
    ensures
        final(out)@ == old(out)@ + size_caption(width, height),
{
    push_decimal(out, width);
    out.push('\u{d7}');
    push_decimal(out, height);
    assert(out@ =~= old(out)@ + size_caption(width, height));
}

/// `line` cut to `max_chars` characters followed by an ellipsis when it is
/// longer.
fn truncate_chars(line: String, max_chars: usize) -> (r: String)
    ensures
        r@ == truncated(line@, max_chars as nat),
{
    let count = line.as_str().unicode_len();
    if count > max_chars {
        let mut out = String::new();
        let mut taken: usize = 0;
        for c in it: line.chars()
            invariant
                it.seq() == line@,
                taken <= max_chars,
                taken <= it.index(),
                out@ == line@.take(taken as int),
                taken < max_chars ==> taken == it.index(),
        {
            if taken < max_chars {
                out.push(c);
                assert(out@ =~= line@.take(taken + 1));
                taken = taken + 1;
            }
        }
        out.push('\u{2026}');
        out
    } else {
        line
    }
}

fn bytes_equal(a: &Vec<u8>, b: &Vec<u8>) -> (r: bool)
    ensures
        r == (a@ == b@),
{
    if a.len() != b.len() {
        return false;
    }
    let n = a.len();
    let mut i: usize = 0;
    while i < n
        invariant
            n == a.len(),
            n == b.len(),
            i <= n,
            forall|j: int| 0 <= j < i ==> a@[j] == b@[j],
        decreases n - i,
    {
        if a[i] != b[i] {
            return false;
        }
        i = i + 1;
    }
    assert(a@ =~= b@);
    true
}

impl ClipboardEntry {
    /// True when both entries hold the same text, or the same image
    /// (same size and same pixels).
    pub fn same_as(&self, other: &ClipboardEntry) -> (r: bool)
        ensures
            r == (self@ == other@),
    {
        match self {
            ClipboardEntry::Text(a) => match other {
                ClipboardEntry::Text(b) => *a == *b,
                _ => false,
            },
            ClipboardEntry::Image { rgba: a, width: aw, height: ah } => match other {
                ClipboardEntry::Image { rgba: b, width: bw, height: bh } => {
                    *aw == *bw && *ah == *bh && bytes_equal(a, b)
                },
                _ => false,
            },
        }
    }

    /// Returns text content for searching, or a placeholder for images.
    pub fn searchable_text(&self) -> (r: &str)
        ensures
            r@ == searchable_view(self@),
    {
        match self {
            ClipboardEntry::Text(s) => s.as_str(),
            ClipboardEntry::Image { .. } => "(image)",
        }
    }

    /// Returns a single-line summary truncated to `max_chars`.
    pub fn label(&self, max_chars: usize) -> (r: String)
        ensures
            r@ == label_view(self@, max_chars as nat),
    {
        match self {
            ClipboardEntry::Text(s) => {
                let ghost line = one_line(s@);
                let mut single_line = String::new();
                for c in it: s.chars()
                    invariant
                        it.seq() == s@,
                        line == one_line(s@),
                        single_line@ == line.take(it.index() as int),
                {
                    single_line.push(one_line_char(c));
                    assert(single_line@ =~= line.take(it.index() + 1));
                }
                assert(line.take(s@.len() as int) =~= line);
                if single_line.as_str().is_empty() {
                    truncate_chars(String::from_str("(empty)"), max_chars)
                } else {
                    truncate_chars(single_line, max_chars)
                }
            },
            ClipboardEntry::Image { width, height, .. } => {
                let mut out = String::from_str("Image ");
                push_size_caption(&mut out, *width, *height);
                truncate_chars(out, max_chars)
            },
        }
    }

    /// The entry as it is shown in full: the text itself, or
    /// `"[Image W×H]"` for an image.
    pub fn display_text(&self) -> (r: String)
        ensures
            r@ == display_view(self@),
    {
        match self {
            ClipboardEntry::Text(s) => s.clone(),
            ClipboardEntry::Image { width, height, .. } => {
                let mut out = String::from_str("[Image ");
                push_size_caption(&mut out, *width, *height);
                out.append("]");
                out
            },
        }
    }
}

impl Clone for ClipboardEntry {
    /// A copy holding the same text, or the same image.
    fn clone(&self) -> (r: Self)
        ensures
            r@ == self@,
    {
        match self {
            ClipboardEntry::Text(s) => ClipboardEntry::Text(s.clone()),
            ClipboardEntry::Image { rgba, width, height } => {
                let copy = rgba.clone();
                assert(copy@ =~= rgba@);
                ClipboardEntry::Image { rgba: copy, width: *width, height: *height }
            },
        }
    }
}

impl PartialEq for ClipboardEntry {
    fn eq(&self, other: &ClipboardEntry) -> (r: bool) {
        self.same_as(other)
    }
}

impl vstd::std_specs::cmp::PartialEqSpecImpl for ClipboardEntry {
    open spec fn obeys_eq_spec() -> bool {
        true
    }

    open spec fn eq_spec(&self, other: &ClipboardEntry) -> bool {
        self@ == other@
    }
}

} // verus!
