use clipboard_history_manager::entry::{push_decimal, ClipboardEntry};

fn text(s: &str) -> ClipboardEntry {
    ClipboardEntry::Text(s.to_string())
}

fn image(w: u32, h: u32, fill: u8) -> ClipboardEntry {
    ClipboardEntry::Image { rgba: vec![fill; (w * h * 4) as usize], width: w, height: h }
}

#[test]
fn equal_texts_are_equal() {
    assert!(text("hello") == text("hello"));
    assert!(text("hello").same_as(&text("hello")));
    assert!(text("hello") != text("hellO"));
}

#[test]
fn images_compare_by_size_and_pixels() {
    assert!(image(2, 2, 7) == image(2, 2, 7));
    assert!(image(2, 2, 7) != image(2, 2, 8));
    assert!(image(1, 4, 7) != image(4, 1, 7));
    assert!(image(2, 2, 0) != text("(image)"));
}

#[test]
fn searchable_text_of_text_and_image() {
    assert_eq!(text("abc").searchable_text(), "abc");
    assert_eq!(image(1, 1, 0).searchable_text(), "(image)");
}

#[test]
fn label_short_text_unchanged() {
    assert_eq!(text("hello").label(100), "hello");
}

#[test]
fn label_replaces_line_breaks() {
    assert_eq!(text("a\nb\r\nc").label(100), "a b  c");
}

#[test]
fn label_truncates_with_ellipsis() {
    assert_eq!(text("hello world").label(5), "hello\u{2026}");
    assert_eq!(text("héllo wörld").label(7), "héllo w\u{2026}");
}

#[test]
fn label_exactly_max_chars_is_not_truncated() {
    assert_eq!(text("hello").label(5), "hello");
}

#[test]
fn label_of_empty_text() {
    assert_eq!(text("").label(10), "(empty)");
    assert_eq!(text("").label(7), "(empty)");
    assert_eq!(text("").label(3), "(em\u{2026}");
}

#[test]
fn label_of_line_breaks_only_is_spaces() {
    assert_eq!(text("\n\r").label(10), "  ");
}

#[test]
fn label_with_zero_max_chars() {
    assert_eq!(text("abc").label(0), "\u{2026}");
}

#[test]
fn label_of_image() {
    assert_eq!(image(10, 20, 0).label(100), "Image 10\u{d7}20");
    assert_eq!(image(10, 20, 0).label(11), "Image 10\u{d7}20");
    assert_eq!(image(10, 20, 0).label(3), "Ima\u{2026}");
    assert_eq!(image(10, 20, 0).label(9), "Image 10\u{d7}\u{2026}");
}

#[test]
fn clone_keeps_the_entry() {
    assert!(text("abc").clone() == text("abc"));
    assert!(image(2, 3, 9).clone() == image(2, 3, 9));
}

#[test]
fn display_text_of_entries() {
    assert_eq!(text("multi\nline").display_text(), "multi\nline");
    assert_eq!(image(1920, 1080, 0).display_text(), "[Image 1920\u{d7}1080]");
}

#[test]
fn decimal_digits() {
    let mut s = String::from(">");
    push_decimal(&mut s, 0);
    assert_eq!(s, ">0");
    let mut s = String::new();
    push_decimal(&mut s, 4096);
    assert_eq!(s, "4096");
    let mut s = String::new();
    push_decimal(&mut s, u32::MAX);
    assert_eq!(s, "4294967295");
    let mut s = String::new();
    push_decimal(&mut s, 10);
    assert_eq!(s, "10");
}
