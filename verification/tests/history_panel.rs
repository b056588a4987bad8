use pinora::geometry::{PixelPoint, PixelRect};
use pinora::history::{HistoryEntry, HistoryEntryState, HistoryOcrState};
use pinora::history_browser::{
    clear_rect, delete_rect, edit_rect, reopen_rect, HistoryPanel, HistoryPanelAction,
    HistoryPanelKey, HistoryPanelStatus, BUTTON_Y, LIST_Y, ROW_FILL, SELECTED_ROW_FILL,
};
use pinora::model::{AssetGeneration, ImageId};

fn entry(id: u64) -> HistoryEntry {
    HistoryEntry {
        image_id: ImageId::from_raw(id),
        generation: AssetGeneration::from_raw(1).expect("generation"),
        created_at_ms: id,
        display: "display-0".into(),
        source_rect: PixelRect::new(0, 0, 20, 10),
        file_name: format!("{id}.png"),
        byte_len: 1,
        digest: [id as u8; 32],
        ocr: HistoryOcrState::Unknown,
        state: HistoryEntryState::Active,
    }
}

#[test]
fn selection_scrolls_and_keyboard_actions_require_an_entry() {
    let mut panel = HistoryPanel::new((1..=8).map(entry).collect());
    for _ in 0..6 {
        assert_eq!(panel.handle_key(HistoryPanelKey::Down), None);
    }
    assert_eq!(panel.selected_index(), Some(6));
    assert_eq!(
        panel.visible_entry(0).map(|entry| entry.image_id.raw()),
        Some(2)
    );
    assert_eq!(
        panel.handle_key(HistoryPanelKey::Enter),
        Some(HistoryPanelAction::Reopen)
    );
    assert_eq!(
        panel.handle_key(HistoryPanelKey::Edit),
        Some(HistoryPanelAction::Edit)
    );
    assert_eq!(
        panel.handle_key(HistoryPanelKey::Delete),
        Some(HistoryPanelAction::Delete)
    );
    let empty = HistoryPanel::new(Vec::new());
    assert!(empty.selected_entry().is_none());
}

#[test]
fn hit_test_maps_rows_and_commands() {
    let panel = HistoryPanel::new(vec![entry(1)]);
    assert_eq!(
        panel.hit_test(PixelPoint::new(40, LIST_Y + 8)),
        Some(HistoryPanelAction::Select(0))
    );
    assert_eq!(
        panel.hit_test(PixelPoint::new(reopen_rect().origin.x + 4, BUTTON_Y + 4)),
        Some(HistoryPanelAction::Reopen)
    );
    assert_eq!(
        panel.hit_test(PixelPoint::new(edit_rect().origin.x + 4, BUTTON_Y + 4)),
        Some(HistoryPanelAction::Edit)
    );
    assert_eq!(
        panel.hit_test(PixelPoint::new(delete_rect().origin.x + 4, BUTTON_Y + 4)),
        Some(HistoryPanelAction::Delete)
    );
    assert_eq!(
        panel.hit_test(PixelPoint::new(clear_rect().origin.x + 4, BUTTON_Y + 4)),
        Some(HistoryPanelAction::RequestClear)
    );
}

#[test]
fn search_filters_without_losing_entry_identity() {
    let mut panel = HistoryPanel::new(vec![entry(1), entry(2)]);
    for character in "2.png".chars() {
        assert!(panel.input_char(character));
    }
    assert_eq!(panel.visible_count(), 1);
    assert_eq!(
        panel.selected_entry().map(|entry| entry.image_id.raw()),
        Some(2)
    );
    assert!(panel.clear_search());
    assert_eq!(panel.visible_count(), 2);
}

#[test]
fn clear_requires_confirmation_and_escape_cancels() {
    let mut panel = HistoryPanel::new(vec![entry(1)]);
    assert_eq!(
        panel.request_clear(),
        Some(HistoryPanelAction::RequestClear)
    );
    assert!(panel.confirming_clear());
    panel.cancel_clear();
    assert!(!panel.confirming_clear());
}

#[test]
fn loading_status_is_only_available_while_entries_exist() {
    let mut panel = HistoryPanel::new(vec![entry(1)]);
    panel.mark_loading();
    assert_eq!(panel.status(), HistoryPanelStatus::Loading);
    panel.clear_error();
    assert_eq!(panel.status(), HistoryPanelStatus::Ready);

    let mut empty = HistoryPanel::new(Vec::new());
    empty.mark_loading();
    assert_eq!(empty.status(), HistoryPanelStatus::Empty);
}

#[test]
fn the_window_draws_rows_for_the_visible_entries() {
    let panel = HistoryPanel::new((1..=8).map(entry).collect());
    let look = panel.look(false);
    assert_eq!(look.title, "HISTORY  ENTER PIN  E EDIT  DELETE REMOVE");
    assert!(!look.no_items);
    assert_eq!(look.rows.len(), 6);
    assert_eq!(look.rows[0].label, "IMG 1");
    assert_eq!(look.rows[0].size, "20 X 10");
    assert_eq!(look.rows[0].fill, SELECTED_ROW_FILL);
    assert_eq!(look.rows[1].fill, ROW_FILL);
    assert!(look.rows[1].rect.origin.y > look.rows[0].rect.origin.y);
    assert_eq!(look.rows[0].rect.origin.y, LIST_Y);
    assert_eq!(look.preview_message, Some("NO PREVIEW"));
    assert_eq!(look.clear_label, "CLEAR ALL");
    assert_eq!(panel.look(true).preview_message, None);

    let empty = HistoryPanel::new(Vec::new()).look(false);
    assert!(empty.no_items);
    assert!(empty.rows.is_empty());
    assert_eq!(empty.title, "HISTORY EMPTY  ESC CLOSE");
    assert_eq!(empty.preview_message, None);
}
