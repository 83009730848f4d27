use lib::level_editor::session::{CloseChoice, EditTarget, LevelNavigation, NavAction, SwitchChoice};

#[test]
fn level_change_without_edits_loads_at_once() {
    let mut nav = LevelNavigation::new(0x105);
    nav.level_num = 0x106;
    assert_eq!(nav.request_level_change(0x105, false), NavAction::LoadLevel(0x106));
    assert_eq!(nav.level_num, 0x106);
    assert!(!nav.show_unsaved_dialog);
}

#[test]
fn level_change_with_edits_waits_for_the_dialog() {
    let mut nav = LevelNavigation::new(0x105);
    nav.level_num = 0x106;
    assert_eq!(nav.request_level_change(0x105, true), NavAction::Stay);
    assert_eq!(nav.level_num, 0x105);
    assert_eq!(nav.pending_level_num, Some(0x106));
    assert!(nav.show_unsaved_dialog);
    // Discarding switches to the pending level without a save.
    assert_eq!(nav.resolve_unsaved(SwitchChoice::Discard), NavAction::LoadLevel(0x106));
    assert_eq!(nav.level_num, 0x106);
    assert!(!nav.request_rom_save);
    assert!(!nav.show_unsaved_dialog);
    assert_eq!(nav.pending_level_num, None);
}

#[test]
fn saving_from_the_dialog_requests_a_rom_save() {
    let mut nav = LevelNavigation::new(1);
    assert_eq!(nav.jump_to_level(0x20, 0x200, true), NavAction::Stay);
    assert_eq!(nav.resolve_unsaved(SwitchChoice::Save), NavAction::LoadLevel(0x20));
    assert!(nav.request_rom_save);
    assert_eq!(nav.level_num, 0x20);
}

#[test]
fn cancelling_the_dialog_keeps_the_level() {
    let mut nav = LevelNavigation::new(1);
    nav.jump_to_level(0x20, 0x200, true);
    assert_eq!(nav.resolve_unsaved(SwitchChoice::Cancel), NavAction::Stay);
    assert_eq!(nav.level_num, 1);
    assert_eq!(nav.pending_level_num, None);
    assert!(!nav.request_rom_save);
}

#[test]
fn jumps_outside_the_rom_are_ignored() {
    let mut nav = LevelNavigation::new(1);
    assert_eq!(nav.jump_to_level(0x200, 0x400, false), NavAction::Stay);
    assert_eq!(nav.jump_to_level(0x30, 0x30, false), NavAction::Stay);
    assert_eq!(nav, LevelNavigation::new(1));
    assert_eq!(nav.jump_to_level(0x2F, 0x30, false), NavAction::LoadLevel(0x2F));
    assert_eq!(nav.level_num, 0x2F);
}

#[test]
fn page_keys_step_within_the_level_range() {
    let mut nav = LevelNavigation::new(0x1FE);
    assert_eq!(nav.step_level(true, false), NavAction::LoadLevel(0x1FF));
    assert_eq!(nav.step_level(true, false), NavAction::Stay);
    assert_eq!(nav.level_num, 0x1FF);
    let mut nav = LevelNavigation::new(0);
    assert_eq!(nav.step_level(false, false), NavAction::Stay);
    let mut nav = LevelNavigation::new(0x300);
    assert_eq!(nav.step_level(true, false), NavAction::LoadLevel(0x1FF));
    let mut nav = LevelNavigation::new(5);
    assert_eq!(nav.step_level(false, true), NavAction::Stay);
    assert_eq!(nav.level_num, 5);
    assert_eq!(nav.pending_level_num, Some(4));
}

#[test]
fn close_dialog_answers() {
    let mut nav = LevelNavigation::new(0);
    nav.has_edits = true;
    nav.pending_close = true;
    nav.resolve_close(CloseChoice::Cancel);
    assert!(nav.has_edits && !nav.pending_close && !nav.request_rom_save);
    nav.pending_close = true;
    nav.resolve_close(CloseChoice::SaveAndClose);
    assert!(nav.has_edits && !nav.pending_close && nav.request_rom_save);
    nav.pending_close = true;
    nav.resolve_close(CloseChoice::CloseWithoutSaving);
    assert!(!nav.has_edits && !nav.pending_close);
}

#[test]
fn switching_what_is_edited_clears_the_selection() {
    let mut t = EditTarget::new();
    t.selected_object_indices.insert(3);
    t.selected_sprite_indices.insert(1);
    t.preview_for = Some((2, 2));
    t.set_edit_target(true, 1);
    assert!(t.edit_sprites);
    assert!(t.selected_object_indices.is_empty() && t.selected_sprite_indices.is_empty());
    assert_eq!(t.preview_for, None);
    t.toggle_object_layer();
    assert!(!t.edit_sprites);
    assert_eq!(t.edit_layer, 2);
    t.toggle_object_layer();
    assert_eq!(t.edit_layer, 1);
}
