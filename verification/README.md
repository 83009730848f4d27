# lib — verified core of an SMW ROM editor

The library holds the logic of a Super Mario World ROM editor, written in
Verus and proved against its contracts:

- `rom_freespace`, `rom_expand`: free-space search in a LoROM image, ROM
  expansion, internal header and checksum.
- `level_editor/*`: the editable layers (objects, sprites, background) with
  their ROM and undo formats, the WRAM block map the editor paints into,
  placing/erasing/deleting objects, level properties, secondary entrances,
  the sprite catalogue and previews, block pickers, MWL import/export, the
  block rewrite and primary header of a level save, title/credits data
  editing, and the editing session (level switches behind the
  unsaved-changes guard, confirmation dialogs).
- `snes_gfx`, `rgb_render`: SNES tile and palette decoding, tilemap
  addressing and the RGB renders of layers and tiles.
- `overworld`, `world_editing`: overworld views, tile pickers, edits of the
  composed tilemaps and the layer 2 buffer, and the streams written on save.
- `resource_scan`, `resource_scan_view`, `resource_report`, `scan_session`:
  the per-level resource scan, the walk over the levels (step by step or
  whole, with the progress answers that may cancel it), the report and the
  scan window's state machine.
- `cli`, `main_window`, `tab_viewer`, `project_creator`, `recent_files`:
  command-line options, the main window's decisions, the recent-files list.
- `bits`, `bytes`, `text`: shared arithmetic, byte and text helpers.

Each function takes plain values: what the editor reads from its emulator,
its ROM parser or the file system (WRAM and VRAM bytes, parsed level
fields, whether a file exists) is handed in, and what it must do next
(load a level, save the ROM, cancel a scan) is handed back.

`tests/` runs the library on concrete values.

There is no `app/`: the editor's window, its emulator, its ROM parser and
its renderer are separate crates of the editor's own workspace, which this
crate does not depend on, so the program around the library is not part of
this crate.
