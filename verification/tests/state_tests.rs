use clipboard_history_manager::picker::{PickerKeys, PickerState};
use clipboard_history_manager::poller::PollerState;
use clipboard_history_manager::popup::{MenuChoice, PopupAction, PopupControl};

fn keys(down: bool, up: bool, enter: bool, escape: bool, delete: bool) -> PickerKeys {
    PickerKeys { arrow_down: down, arrow_up: up, enter, escape, delete }
}

#[test]
fn poller_records_new_text_once() {
    let mut p = PollerState::new();
    assert!(p.observe_text(&"hello".to_string()));
    assert!(!p.observe_text(&"hello".to_string()));
    assert!(p.observe_text(&"world".to_string()));
    assert!(p.observe_text(&"hello".to_string()));
    assert_eq!(p.last_text.as_deref(), Some("hello"));
}

#[test]
fn poller_ignores_empty_text() {
    let mut p = PollerState::new();
    assert!(!p.observe_text(&String::new()));
    assert!(p.last_text.is_none());
}

#[test]
fn poller_records_changed_images() {
    let mut p = PollerState::new();
    assert!(p.observe_image(&[1, 2, 3, 4]));
    assert!(!p.observe_image(&[1, 2, 3, 4]));
    assert!(p.observe_image(&[1, 2, 3, 5]));
    assert!(p.last_text.is_none());
}

#[test]
fn picker_starts_fresh() {
    let p = PickerState::new();
    assert!(p.search_query.is_empty());
    assert_eq!(p.selected_index, 0);
    assert!(!p.should_close);
    assert!(!p.paste_on_close);
    assert!(p.first_frame);
    assert!(p.delete_index.is_none());
}

#[test]
fn picker_reset_after_use() {
    let mut p = PickerState::new();
    p.search_query = "abc".to_string();
    p.selected_index = 4;
    p.finish_with_copy();
    p.delete_index = Some(2);
    p.reset();
    assert!(p.search_query.is_empty());
    assert_eq!(p.selected_index, 0);
    assert!(!p.should_close && !p.paste_on_close);
    assert!(p.first_frame);
    assert!(p.delete_index.is_none());
    assert!(p.hovered_list_index.is_none());
}

#[test]
fn frame_start_resets_selection_when_query_changes() {
    let mut p = PickerState::new();
    p.selected_index = 3;
    p.search_query = "a".to_string();
    p.hovered_list_index = Some(2);
    let hovered = p.begin_frame(10);
    assert_eq!(hovered, Some(2));
    assert!(p.hovered_list_index.is_none());
    assert_eq!(p.selected_index, 0);
    assert_eq!(p.prev_search_query, "a");
    p.selected_index = 3;
    p.begin_frame(10);
    assert_eq!(p.selected_index, 3);
}

#[test]
fn frame_start_clamps_selection() {
    let mut p = PickerState::new();
    p.selected_index = 7;
    p.begin_frame(3);
    assert_eq!(p.selected_index, 2);
    p.selected_index = 7;
    p.begin_frame(0);
    assert_eq!(p.selected_index, 7);
}

#[test]
fn arrows_move_within_results() {
    let mut p = PickerState::new();
    let results = vec![5, 3, 8];
    let o = p.handle_keys(keys(true, false, false, false, false), &results);
    assert!(o.keyboard_nav);
    assert_eq!(p.selected_index, 1);
    p.handle_keys(keys(true, false, false, false, false), &results);
    let o = p.handle_keys(keys(true, false, false, false, false), &results);
    assert!(!o.keyboard_nav);
    assert_eq!(p.selected_index, 2);
    p.handle_keys(keys(false, true, false, false, false), &results);
    assert_eq!(p.selected_index, 1);
    let o = p.handle_keys(keys(true, true, false, false, false), &results);
    assert!(o.keyboard_nav);
    assert_eq!(p.selected_index, 1);
    p.selected_index = 0;
    let o = p.handle_keys(keys(false, true, false, false, false), &results);
    assert!(!o.keyboard_nav);
    assert_eq!(p.selected_index, 0);
}

#[test]
fn escape_enter_and_delete_keys() {
    let mut p = PickerState::new();
    let results = vec![5, 3, 8];
    p.selected_index = 1;
    let o = p.handle_keys(keys(false, false, true, false, true), &results);
    assert!(o.enter_pressed);
    assert_eq!(p.delete_index, Some(3));
    assert!(!p.should_close);
    p.handle_keys(keys(false, false, false, true, false), &results);
    assert!(p.should_close);
    assert_eq!(p.take_delete(), Some(3));
    assert_eq!(p.take_delete(), None);
    let empty: Vec<usize> = Vec::new();
    p.handle_keys(keys(false, false, false, false, true), &empty);
    assert_eq!(p.delete_index, None);
}

#[test]
fn copy_target_prefers_enter() {
    let mut p = PickerState::new();
    let results = vec![5, 3, 8];
    p.selected_index = 2;
    assert_eq!(p.copy_target(Some(3), true, &results), Some(8));
    assert_eq!(p.copy_target(Some(3), false, &results), Some(3));
    assert_eq!(p.copy_target(None, false, &results), None);
    let empty: Vec<usize> = Vec::new();
    assert_eq!(p.copy_target(None, true, &empty), None);
}

#[test]
fn focus_requested_on_first_frame_only() {
    let mut p = PickerState::new();
    assert!(p.take_focus_request());
    assert!(!p.take_focus_request());
}

#[test]
fn finishing_a_copy_closes_and_pastes() {
    let mut p = PickerState::new();
    p.finish_with_copy();
    assert!(p.should_close);
    assert!(p.paste_on_close);
}

#[test]
fn hotkey_toggles_and_debounces() {
    let mut c = PopupControl::new();
    assert!(c.on_hotkey(1000) == PopupAction::Open);
    c.opened(1000);
    assert!(c.on_hotkey(1100) == PopupAction::Nothing);
    assert!(c.on_hotkey(1249) == PopupAction::Nothing);
    assert!(c.on_hotkey(1250) == PopupAction::Close);
    c.closed();
    assert!(c.on_hotkey(1400) == PopupAction::Nothing);
    assert!(c.on_hotkey(1600) == PopupAction::Open);
    assert_eq!(c.last_hotkey_ms, Some(1600));
}

#[test]
fn hotkey_with_clock_going_back_is_debounced() {
    let mut c = PopupControl::new();
    assert!(c.on_hotkey(5000) == PopupAction::Open);
    assert!(c.on_hotkey(4000) == PopupAction::Nothing);
}

#[test]
fn tray_click_and_menu() {
    let mut c = PopupControl::new();
    assert!(c.on_tray_click() == PopupAction::Open);
    assert!(c.on_menu(MenuChoice::Show) == PopupAction::Open);
    c.opened(0);
    assert!(c.on_tray_click() == PopupAction::Close);
    assert!(c.on_menu(MenuChoice::Show) == PopupAction::Nothing);
    assert!(c.on_menu(MenuChoice::Clear) == PopupAction::ClearHistory);
    assert!(c.on_menu(MenuChoice::Quit) == PopupAction::Quit);
    assert!(c.on_menu(MenuChoice::Other) == PopupAction::Nothing);
}

#[test]
fn focus_loss_grace_period() {
    let mut c = PopupControl::new();
    c.opened(10_000);
    assert!(c.on_focus_lost(10_399) == PopupAction::Nothing);
    assert!(c.on_focus_lost(10_400) == PopupAction::Close);
    c.closed();
    assert!(c.on_focus_lost(10_100) == PopupAction::Close);
}

#[test]
fn paste_after_close_only_once() {
    let mut c = PopupControl::new();
    c.opened(0);
    assert!(c.after_redraw(false, true) == PopupAction::Nothing);
    assert!(!c.pending_paste);
    assert!(c.after_redraw(true, true) == PopupAction::Close);
    assert!(c.pending_paste);
    assert!(!c.take_paste());
    c.closed();
    assert!(c.take_paste());
    assert!(!c.take_paste());
    assert!(c.after_redraw(true, false) == PopupAction::Close);
    assert!(!c.pending_paste);
}

#[test]
fn empty_state_texts() {
    let mut p = PickerState::new();
    assert_eq!(p.empty_state_text(), ("No clipboard history yet", None));
    p.search_query = "zz".to_string();
    assert_eq!(p.empty_state_text(), ("No matches found", Some("Try a different search term")));
}

#[test]
fn highlighted_characters() {
    let r = clipboard_history_manager::picker::highlight_chars(&"héllo".to_string(), &vec![1, 3]);
    assert_eq!(r, vec![('h', false), ('é', true), ('l', false), ('l', true), ('o', false)]);
    assert!(clipboard_history_manager::picker::highlight_chars(&String::new(), &vec![0]).is_empty());
}
