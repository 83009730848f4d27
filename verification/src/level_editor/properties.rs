//! Level properties shown and edited by the level editor, and the level
//! geometry derived from them.

use vstd::prelude::*;

verus! {

#[derive(Copy, Clone, Debug, Default, Eq, PartialEq)]
pub struct LevelProperties {
    // Primary header
    pub palette_bg: u8,
    pub level_length: u8,
    pub back_area_color: u8,
    pub level_mode: u8,
    pub layer3_priority: bool,
    pub music: u8,
    pub sprite_gfx: u8,
    pub timer: u8,
    pub palette_sprite: u8,
    pub palette_fg: u8,
    pub item_memory: u8,
    pub vertical_scroll: u8,
    pub fg_bg_gfx: u8,
    // Secondary header
    pub is_vertical: bool,
    pub has_layer2: bool,
    pub layer2_scroll: u8,
    pub layer3: u8,
    pub main_entrance_action: u8,
    pub midway_entrance_screen: u8,
    pub fg_initial_pos: u8,
    pub bg_initial_pos: u8,
    pub no_yoshi_level: bool,
    pub unknown_vertical_pos_level: bool,
    // Main-entrance extras ("Change Other Properties" data).
    pub face_left: bool,
    pub new_fg_bg_init: bool,
    pub bg_relative_to_fg_only: bool,
    pub bg_height: u8,
    // Layer 2 scroll extension.
    pub layer2_scroll_separate: bool,
    pub layer2_hscroll_auto: bool,
    pub layer2_vscroll: u8,
    pub layer2_auto_set_screens: bool,
    /// Raw scroll-extension byte as loaded; `$FF` means the table was never
    /// installed.
    pub layer2_scroll_ext_raw: u8,
    /// Layer 2 object-data header (5 bytes), meaningful when `has_layer2`.
    pub layer2_header: [u8; 5],
    /// Level height in tiles for horizontal levels (vanilla 27); vertical
    /// levels ignore this.
    pub level_height_tiles: u16,
}

impl LevelProperties {
    /// Size of one screen in tiles: 32x16 in vertical levels; 16 wide and
    /// the level height (at least 1) tall in horizontal ones.
    pub open spec fn screen_size(self) -> (u32, u32) {
        if self.is_vertical {
            (32, 16)
        } else {
            (16, if self.level_height_tiles >= 1 { self.level_height_tiles as u32 } else { 1 })
        }
    }

    /// Number of screens: the level length plus one.
    pub open spec fn screens(self) -> u32 {
        (self.level_length + 1) as u32
    }

    /// (width, height) of the whole level in tiles: screens stack down in
    /// vertical levels and run across in horizontal ones.
    pub fn level_dimensions_in_tiles(&self) -> (dims: (u32, u32))
        ensures
            self.is_vertical ==> dims == (self.screen_size().0, (self.screen_size().1 * self.screens()) as u32),
            !self.is_vertical ==> dims == ((self.screen_size().0 * self.screens()) as u32, self.screen_size().1),
    {
        let (screen_width, screen_height) = self.screen_dimensions_in_tiles();
        let screens = self.num_screens();
        if self.is_vertical {
            (screen_width, screen_height * screens)
        } else {
            (screen_width * screens, screen_height)
        }
    }

    /// (width, height) of one screen in tiles.
    pub fn screen_dimensions_in_tiles(&self) -> (dims: (u32, u32))
        ensures
            dims == self.screen_size(),
    {
        if self.is_vertical {
            (32, 16)
        } else {
            (16, if self.level_height_tiles >= 1 { self.level_height_tiles as u32 } else { 1 })
        }
    }

    pub fn num_screens(&self) -> (n: u32)
        ensures
            n == self.screens(),
    {
        (self.level_length as u32) + 1
    }
}

} // verus!
