//! Level-editor data: editable layers, level properties, secondary
//! entrances, the sprite catalogue and previews, block pickers, the sprite
//! list in WRAM, writing an edited level back to the ROM, and the editing
//! session's level switches and dialogs.

pub mod secondary_entrance;
pub mod sprite_layer;
pub mod background_layer;
pub mod object_layer;
pub mod properties;
pub mod sprite_catalog;
pub mod gfx_sheet;
pub mod sprite_preview;
pub mod title_credits;
pub mod block_map;
pub mod mwl;
pub mod editing;
pub mod tile_picker;
pub mod sprite_editor;
pub mod level_save;
pub mod session;
