//! The level editor's session decisions: switching levels behind the
//! unsaved-changes guard, the answers to its two confirmation dialogs, and
//! what is being edited (layer 1, layer 2 or sprites).
//!
//! Each step takes the current state and the user's input and returns what
//! the editor must do next; loading a level and saving the ROM are left to
//! the caller.

use std::collections::HashSet;
use vstd::prelude::*;

verus! {

/// Highest level number.
pub const MAX_LEVEL: u16 = 0x1FF;

/// What the editor does after a navigation step.
#[derive(Clone, Copy, Debug, PartialEq, Eq, Structural)]
pub enum NavAction {
    /// Nothing to load.
    Stay,
    /// Load this level number into the editor.
    LoadLevel(u16),
}

/// An answer to the "save before switching levels?" dialog.
#[derive(Clone, Copy, Debug, PartialEq, Eq, Structural)]
pub enum SwitchChoice {
    Save,
    Discard,
    Cancel,
}

/// An answer to the "save before closing?" dialog.
#[derive(Clone, Copy, Debug, PartialEq, Eq, Structural)]
pub enum CloseChoice {
    SaveAndClose,
    CloseWithoutSaving,
    Cancel,
}

/// The level being edited and the state of the confirmation dialogs.
#[derive(Clone, Copy, Debug, PartialEq, Eq, Structural)]
pub struct LevelNavigation {
    pub level_num: u16,
    /// The level to switch to once the unsaved-changes dialog is answered.
    pub pending_level_num: Option<u16>,
    pub show_unsaved_dialog: bool,
    /// A ROM save the main window is asked to perform.
    pub request_rom_save: bool,
    /// A close attempt waits for the close dialog.
    pub pending_close: bool,
    /// The editor holds edits not yet written to the ROM.
    pub has_edits: bool,
}

impl LevelNavigation {
    /// A session on `level_num` with no dialog open and no edits.
    pub fn new(level_num: u16) -> (nav: Self)
        ensures
            nav == (LevelNavigation {
                level_num,
                pending_level_num: None,
                show_unsaved_dialog: false,
                request_rom_save: false,
                pending_close: false,
                has_edits: false,
            }),
    {
        LevelNavigation {
            level_num,
            pending_level_num: None,
            show_unsaved_dialog: false,
            request_rom_save: false,
            pending_close: false,
            has_edits: false,
        }
    }

    /// The level number was just changed from `old_level`: with unsaved
    /// changes the change is held back for the dialog and the old number
    /// restored; otherwise the new level is loaded.
    pub fn request_level_change(&mut self, old_level: u16, has_unsaved: bool) -> (action: NavAction)
        ensures
            has_unsaved ==> {
                &&& action == NavAction::Stay
                &&& *final(self) == (LevelNavigation {
                    level_num: old_level,
                    pending_level_num: Some(old(self).level_num),
                    show_unsaved_dialog: true,
                    ..*old(self)
                })
            },
            !has_unsaved ==> action == NavAction::LoadLevel(old(self).level_num) && *final(self) == *old(self),
    {
        if has_unsaved {
            self.show_unsaved_dialog = true;
            self.pending_level_num = Some(self.level_num);
            self.level_num = old_level;
            NavAction::Stay
        } else {
            NavAction::LoadLevel(self.level_num)
        }
    }

    /// Page Up (`forward`) or Page Down: step the level number by one
    /// within `0 ..= 0x1FF` and request the change when it moved.
    pub fn step_level(&mut self, forward: bool, has_unsaved: bool) -> (action: NavAction)
        requires
            forward ==> old(self).level_num < 0xFFFF,
        ensures
            ({
                let l = old(self).level_num;
                let target: u16 = if forward {
                    if l + 1 < MAX_LEVEL {
                        (l + 1) as u16
                    } else {
                        MAX_LEVEL
                    }
                } else if l > 0 {
                    (l - 1) as u16
                } else {
                    0
                };
                if target == l {
                    action == NavAction::Stay && *final(self) == *old(self)
                } else if has_unsaved {
                    &&& action == NavAction::Stay
                    &&& *final(self) == (LevelNavigation {
                        pending_level_num: Some(target),
                        show_unsaved_dialog: true,
                        ..*old(self)
                    })
                } else {
                    action == NavAction::LoadLevel(target) && *final(self) == (LevelNavigation {
                        level_num: target,
                        ..*old(self)
                    })
                }
            }),
    {
        let old_level = self.level_num;
        if forward {
            self.level_num = if self.level_num + 1 < MAX_LEVEL {
                self.level_num + 1
            } else {
                MAX_LEVEL
            };
        } else {
            self.level_num = if self.level_num > 0 {
                self.level_num - 1
            } else {
                0
            };
        }
        if self.level_num != old_level {
            self.request_level_change(old_level, has_unsaved)
        } else {
            NavAction::Stay
        }
    }

    /// Jump to `level` (from a link elsewhere in the editor) when it is a
    /// level number below `0x200` that the ROM has (`level_count` levels),
    /// behind the unsaved-changes dialog.
    pub fn jump_to_level(&mut self, level: u16, level_count: usize, has_unsaved: bool) -> (action: NavAction)
        ensures
            !(level < 0x200 && (level as int) < level_count) ==> action == NavAction::Stay && *final(self)
                == *old(self),
            level < 0x200 && (level as int) < level_count && has_unsaved ==> {
                &&& action == NavAction::Stay
                &&& *final(self) == (LevelNavigation {
                    pending_level_num: Some(level),
                    show_unsaved_dialog: true,
                    ..*old(self)
                })
            },
            level < 0x200 && (level as int) < level_count && !has_unsaved ==> {
                &&& action == NavAction::LoadLevel(level)
                &&& *final(self) == (LevelNavigation { level_num: level, ..*old(self) })
            },
    {
        if level < 0x200 && (level as usize) < level_count {
            if has_unsaved {
                self.show_unsaved_dialog = true;
                self.pending_level_num = Some(level);
                NavAction::Stay
            } else {
                self.level_num = level;
                NavAction::LoadLevel(level)
            }
        } else {
            NavAction::Stay
        }
    }

    /// Answer the unsaved-changes dialog: Save asks for a ROM save and,
    /// like Discard, switches to the pending level; Cancel only closes the
    /// dialog. The dialog closes and the pending level is dropped either way.
    pub fn resolve_unsaved(&mut self, choice: SwitchChoice) -> (action: NavAction)
        ensures
            final(self).show_unsaved_dialog == false,
            final(self).pending_level_num is None,
            final(self).pending_close == old(self).pending_close,
            final(self).has_edits == old(self).has_edits,
            final(self).request_rom_save == (old(self).request_rom_save || choice == SwitchChoice::Save),
            choice != SwitchChoice::Cancel && old(self).pending_level_num is Some ==> {
                &&& action == NavAction::LoadLevel(old(self).pending_level_num->0)
                &&& final(self).level_num == old(self).pending_level_num->0
            },
            choice == SwitchChoice::Cancel || old(self).pending_level_num is None ==> {
                &&& action == NavAction::Stay
                &&& final(self).level_num == old(self).level_num
            },
    {
        let mut action = NavAction::Stay;
        if choice == SwitchChoice::Save {
            self.request_rom_save = true;
        }
        if choice != SwitchChoice::Cancel {
            if let Some(new_level) = self.pending_level_num {
                self.level_num = new_level;
                action = NavAction::LoadLevel(new_level);
            }
        }
        self.show_unsaved_dialog = false;
        self.pending_level_num = None;
        action
    }

    /// Answer the close dialog: Save & Close asks for a ROM save, Close
    /// Without Saving drops the edits (so the next close goes through);
    /// every answer closes the dialog.
    pub fn resolve_close(&mut self, choice: CloseChoice)
        ensures
            *final(self) == (LevelNavigation {
                pending_close: false,
                request_rom_save: old(self).request_rom_save || choice == CloseChoice::SaveAndClose,
                has_edits: old(self).has_edits && choice != CloseChoice::CloseWithoutSaving,
                ..*old(self)
            }),
    {
        match choice {
            CloseChoice::SaveAndClose => {
                self.request_rom_save = true;
            },
            CloseChoice::CloseWithoutSaving => {
                self.has_edits = false;
            },
            CloseChoice::Cancel => {},
        }
        self.pending_close = false;
    }
}

/// What is being edited, and the selections that belong to it.
pub struct EditTarget {
    pub edit_sprites: bool,
    pub edit_layer: u8,
    pub selected_object_indices: HashSet<usize>,
    pub selected_sprite_indices: HashSet<usize>,
    /// The block whose preview is shown, if any.
    pub preview_for: Option<(u32, u32)>,
}

impl EditTarget {
    /// Layer 1 objects, with nothing selected.
    pub fn new() -> (t: Self)
        ensures
            !t.edit_sprites,
            t.edit_layer == 1,
            t.selected_object_indices@ == Set::<usize>::empty(),
            t.selected_sprite_indices@ == Set::<usize>::empty(),
            t.preview_for is None,
    {
        EditTarget {
            edit_sprites: false,
            edit_layer: 1,
            selected_object_indices: HashSet::new(),
            selected_sprite_indices: HashSet::new(),
            preview_for: None,
        }
    }

    /// Switch to editing sprites or layer `layer`; both selections are
    /// cleared and the block preview is dropped.
    pub fn set_edit_target(&mut self, sprites: bool, layer: u8)
        ensures
            final(self).edit_sprites == sprites,
            final(self).edit_layer == layer,
            final(self).selected_object_indices@ == Set::<usize>::empty(),
            final(self).selected_sprite_indices@ == Set::<usize>::empty(),
            final(self).preview_for is None,
    {
        self.edit_sprites = sprites;
        self.edit_layer = layer;
        self.selected_object_indices.clear();
        self.selected_sprite_indices.clear();
        self.preview_for = None;
    }

    /// The backtick shortcut: edit the other object layer (layer 2 goes
    /// to layer 1, anything else to layer 2), leaving sprite mode.
    pub fn toggle_object_layer(&mut self)
        ensures
            !final(self).edit_sprites,
            final(self).edit_layer == (if old(self).edit_layer == 2 {
                1u8
            } else {
                2u8
            }),
            final(self).selected_object_indices@ == Set::<usize>::empty(),
            final(self).selected_sprite_indices@ == Set::<usize>::empty(),
            final(self).preview_for is None,
    {
        let layer: u8 = if self.edit_layer == 2 { 1 } else { 2 };
        self.set_edit_target(false, layer);
    }
}

} // verus!
