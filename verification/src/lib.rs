//! Verified core of an SMW ROM editor: free-space search, ROM expansion and
//! checksums, editable level layers and their ROM formats, SNES tile
//! decoding and rendering, overworld editing, the resource usage scan and
//! its report, and the decisions of the editor's windows.

pub mod rom_freespace;
pub mod bits;
pub mod bytes;
pub mod text;
pub mod rom_expand;
pub mod level_editor;
pub mod resource_scan;
pub mod resource_scan_view;
pub mod resource_report;
pub mod scan_session;
pub mod snes_gfx;
pub mod rgb_render;
pub mod project_creator;
pub mod recent_files;
pub mod cli;
pub mod overworld;
pub mod world_editing;
pub mod main_window;
pub mod tab_viewer;
