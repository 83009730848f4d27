//! Editing operations of the level editor on its layers: which object lies
//! under a block position, placing, erasing and deleting objects (their
//! blocks painted or blanked in the WRAM block map), painting a background
//! layer 2, deleting the selected sprites, and putting Mario at the main
//! entrance.
//!
//! Positions come in whole blocks (16x16 pixels); the view converts the
//! pointer position to them.

use crate::level_editor::background_layer::EditableBackgroundLayer;
use crate::level_editor::block_map::{
    block_id_in, block_id_written, block_in_wram, block_index, block_slots, blocks_filled, fill_blocks, in_rect,
    lemma_block_slots_ordered, lemma_slot_tables_apart, rect_in_wram, set_block_id_at, WRAM_SIZE,
};
use crate::level_editor::object_layer::EditableObject;
use crate::level_editor::sprite_layer::EditableSprite;
use vstd::prelude::*;

verus! {

/// Width in blocks of an object: extended objects take one block, standard
/// ones one more than the low nibble of their settings.
pub open spec fn object_width(o: EditableObject) -> int {
    if o.is_extended {
        1
    } else {
        (o.settings % 16) + 1
    }
}

/// Height in blocks of an object: one more than the settings' high nibble.
pub open spec fn object_height(o: EditableObject) -> int {
    if o.is_extended {
        1
    } else {
        (o.settings / 16) + 1
    }
}

/// Object `o` covers block `(tx, ty)`.
pub open spec fn object_covers(o: EditableObject, tx: int, ty: int) -> bool {
    o.x <= tx < o.x + object_width(o) && o.y <= ty < o.y + object_height(o)
}

/// Index of the topmost (last-placed) object covering block `(tx, ty)`.
pub fn object_at_block(objects: &Vec<EditableObject>, tx: i64, ty: i64) -> (hit: Option<usize>)
    ensures
        hit matches Some(i) ==> i < objects@.len() && object_covers(objects@[i as int], tx as int, ty as int)
            && forall|j: int| i < j < objects@.len() ==> !object_covers(#[trigger] objects@[j], tx as int, ty as int),
        hit is None ==> forall|j: int| 0 <= j < objects@.len() ==> !object_covers(#[trigger] objects@[j], tx as int, ty as int),
{
    let mut i = objects.len();
    while i > 0
        invariant
            i <= objects@.len(),
            forall|j: int| i <= j < objects@.len() ==> !object_covers(#[trigger] objects@[j], tx as int, ty as int),
        decreases i,
    {
        i -= 1;
        let o = objects[i];
        let w: i64 = if o.is_extended { 1 } else { (o.settings & 0x0F) as i64 + 1 };
        let h: i64 = if o.is_extended { 1 } else { (o.settings >> 4u8) as i64 + 1 };
        let s = o.settings;
        assert(s & 0x0F == s % 16 && s >> 4u8 == s / 16) by (bit_vector);
        let x = o.x as i64;
        let y = o.y as i64;
        if tx >= x && tx < x + w && ty >= y && ty < y + h {
            return Some(i);
        }
    }
    None
}

/// The items whose index is among the first `k` and not selected.
pub open spec fn kept_upto<T>(items: Seq<T>, selected: Seq<usize>, k: int) -> Seq<T>
    decreases k,
{
    if k <= 0 {
        seq![]
    } else {
        kept_upto(items, selected, k - 1) + if selected.contains((k - 1) as usize) {
            seq![]
        } else {
            seq![items[k - 1]]
        }
    }
}

fn is_selected(selected: &Vec<usize>, i: usize) -> (b: bool)
    ensures
        b == selected@.contains(i),
{
    let mut k: usize = 0;
    while k < selected.len()
        invariant
            k <= selected@.len(),
            forall|j: int| 0 <= j < k ==> selected@[j] != i,
        decreases selected@.len() - k,
    {
        if selected[k] == i {
            return true;
        }
        k += 1;
    }
    false
}

/// The items with the selected indices removed, in order.
pub fn remove_selected<T: Copy>(items: &Vec<T>, selected: &Vec<usize>) -> (kept: Vec<T>)
    ensures
        kept@ == kept_upto(items@, selected@, items@.len() as int),
{
    let mut kept: Vec<T> = Vec::new();
    let mut i: usize = 0;
    while i < items.len()
        invariant
            i <= items@.len(),
            kept@ == kept_upto(items@, selected@, i as int),
        decreases items@.len() - i,
    {
        if !is_selected(selected, i) {
            kept.push(items[i]);
        }
        proof {
            assert(kept@ =~= kept_upto(items@, selected@, i as int + 1));
        }
        i += 1;
    }
    kept
}

/// Block position of the main entrance: the header stores X and Y at half
/// resolution; vertical levels have two screens per screen row.
pub open spec fn entrance_block(vertical: bool, ex: int, ey: int, screen: int) -> (int, int) {
    if vertical {
        ((screen % 2) * 16 + ex * 2, (screen / 2) * 32 + ey * 2)
    } else {
        (screen * 16 + ex * 2, ey * 2)
    }
}

/// Index of the first sprite `0x00` (Mario), if any.
pub open spec fn first_mario(s: Seq<EditableSprite>) -> Option<int> {
    if exists|i: int| 0 <= i < s.len() && s[i].sprite_id == 0 {
        Some(choose|i: int| 0 <= i < s.len() && s[i].sprite_id == 0 && forall|j: int| 0 <= j < i ==> s[j].sprite_id != 0)
    } else {
        None
    }
}

/// Move Mario (sprite `0x00`) to the main entrance at `(entrance_x,
/// entrance_y)` of screen `entrance_screen`; add him at the front when the
/// level has none.
pub fn position_mario_at_entrance(
    sprites: &mut Vec<EditableSprite>,
    is_vertical: bool,
    entrance_x: u8,
    entrance_y: u8,
    entrance_screen: u8,
)
    ensures
        ({
            let (x, y) = entrance_block(
                is_vertical,
                entrance_x as int,
                entrance_y as int,
                entrance_screen as int,
            );
            match first_mario(old(sprites)@) {
                Some(i) => final(sprites)@ == old(sprites)@.update(
                    i,
                    EditableSprite { x: x as u32, y: y as u32, ..old(sprites)@[i] },
                ),
                None => final(sprites)@ == seq![
                    EditableSprite { x: x as u32, y: y as u32, sprite_id: 0, extra_bits: 0 },
                ] + old(sprites)@,
            }
        }),
{
    let ex = entrance_x as u32 * 2;
    let ey = entrance_y as u32 * 2;
    let screen = entrance_screen as u32;
    let abs_x = if is_vertical { (screen % 2) * 16 + ex } else { screen * 16 + ex };
    let abs_y = if is_vertical { (screen / 2) * 32 + ey } else { ey };
    let mut i: usize = 0;
    while i < sprites.len()
        invariant
            i <= sprites@.len(),
            sprites@ == old(sprites)@,
            abs_x == entrance_block(
                is_vertical,
                entrance_x as int,
                entrance_y as int,
                entrance_screen as int,
            ).0,
            abs_y == entrance_block(
                is_vertical,
                entrance_x as int,
                entrance_y as int,
                entrance_screen as int,
            ).1,
            forall|j: int| 0 <= j < i ==> sprites@[j].sprite_id != 0,
        decreases sprites@.len() - i,
    {
        if sprites[i].sprite_id == 0 {
            proof {
                let s = old(sprites)@;
                assert(exists|k: int| 0 <= k < s.len() && s[k].sprite_id == 0);
                let c = choose|k: int|
                    0 <= k < s.len() && s[k].sprite_id == 0 && forall|j: int| 0 <= j < k ==> s[j].sprite_id != 0;
                assert(s[i as int].sprite_id == 0 && forall|j: int| 0 <= j < i ==> s[j].sprite_id != 0);
                if c < i {
                } else if c > i {
                    assert(s[i as int].sprite_id != 0);
                }
                assert(c == i);
            }
            let old_sprite = sprites[i];
            let moved = EditableSprite { x: abs_x, y: abs_y, ..old_sprite };
            sprites.set(i, moved);
            return;
        }
        i += 1;
    }
    sprites.insert(0, EditableSprite { x: abs_x, y: abs_y, sprite_id: 0, extra_bits: 0 });
}

/// Block id left where an object is removed.
pub const BLANK_BLOCK: u16 = 0x25;

/// The object placed by a click at block `(tx, ty)` with the drawing
/// object and settings.
pub open spec fn placed_object(tx: u32, ty: u32, object_id: u8, settings: u8) -> EditableObject {
    EditableObject { x: tx, y: ty, id: object_id, settings, is_extended: false, extended_id: 0 }
}

/// Every object's blocks lie inside the block map held by `wram_len`
/// bytes of WRAM.
pub open spec fn objects_in_wram(
    objects: Seq<EditableObject>,
    wram_len: int,
    vertical: bool,
    has_layer2: bool,
    edit_layer: u8,
) -> bool {
    forall|i: int|
        0 <= i < objects.len() ==> rect_in_wram(
            wram_len,
            vertical,
            has_layer2,
            edit_layer,
            objects[i].x as int,
            objects[i].y as int,
            object_width(#[trigger] objects[i]),
            object_height(objects[i]),
        )
}

/// Place a standard object `object_id` with `settings` at block `(tx,
/// ty)`: it is added last (so it is the topmost), and every block it
/// covers gets `block_id` in the WRAM block map. Returns its index.
pub fn place_object_at(
    objects: &mut Vec<EditableObject>,
    wram: &mut Vec<u8>,
    is_vertical: bool,
    has_layer2: bool,
    edit_layer: u8,
    tx: u32,
    ty: u32,
    object_id: u8,
    settings: u8,
    block_id: u16,
) -> (new_idx: usize)
    requires
        old(wram)@.len() <= WRAM_SIZE,
        rect_in_wram(
            old(wram)@.len() as int,
            is_vertical,
            has_layer2,
            edit_layer,
            tx as int,
            ty as int,
            object_width(placed_object(tx, ty, object_id, settings)),
            object_height(placed_object(tx, ty, object_id, settings)),
        ),
    ensures
        new_idx == old(objects)@.len(),
        final(objects)@ == old(objects)@.push(placed_object(tx, ty, object_id, settings)),
        blocks_filled(
            old(wram)@,
            final(wram)@,
            is_vertical,
            has_layer2,
            edit_layer,
            tx as int,
            ty as int,
            object_width(placed_object(tx, ty, object_id, settings)),
            object_height(placed_object(tx, ty, object_id, settings)),
            block_id,
        ),
{
    assert(settings & 0x0F == settings % 16 && settings >> 4u8 == settings / 16) by (bit_vector);
    let w: u32 = if settings & 0x0F == 0 { 1 } else { (settings & 0x0F) as u32 + 1 };
    let h: u32 = if settings >> 4u8 == 0 { 1 } else { (settings >> 4u8) as u32 + 1 };
    let new_obj = EditableObject { x: tx, y: ty, id: object_id, settings, is_extended: false, extended_id: 0 };
    let new_idx = objects.len();
    objects.push(new_obj);
    fill_blocks(wram, is_vertical, has_layer2, edit_layer, tx, ty, w, h, block_id);
    new_idx
}

/// Erase the topmost object covering block `(tx, ty)`, if any: it is
/// removed and every block it covered is blanked in the WRAM block map.
/// Returns the index it had.
pub fn erase_object_at(
    objects: &mut Vec<EditableObject>,
    wram: &mut Vec<u8>,
    is_vertical: bool,
    has_layer2: bool,
    edit_layer: u8,
    tx: u32,
    ty: u32,
) -> (erased: Option<usize>)
    requires
        old(wram)@.len() <= WRAM_SIZE,
        objects_in_wram(old(objects)@, old(wram)@.len() as int, is_vertical, has_layer2, edit_layer),
    ensures
        match erased {
            Some(i) => {
                &&& i < old(objects)@.len()
                &&& object_covers(old(objects)@[i as int], tx as int, ty as int)
                &&& forall|j: int|
                    i < j < old(objects)@.len() ==> !object_covers(#[trigger] old(objects)@[j], tx as int, ty as int)
                &&& final(objects)@ == old(objects)@.remove(i as int)
                &&& blocks_filled(
                    old(wram)@,
                    final(wram)@,
                    is_vertical,
                    has_layer2,
                    edit_layer,
                    old(objects)@[i as int].x as int,
                    old(objects)@[i as int].y as int,
                    object_width(old(objects)@[i as int]),
                    object_height(old(objects)@[i as int]),
                    BLANK_BLOCK,
                )
            },
            None => {
                &&& forall|j: int|
                    0 <= j < old(objects)@.len() ==> !object_covers(#[trigger] old(objects)@[j], tx as int, ty as int)
                &&& final(objects)@ == old(objects)@
                &&& final(wram)@ == old(wram)@
            },
        },
{
    match object_at_block(objects, tx as i64, ty as i64) {
        Some(i) => {
            let o = objects[i];
            proof {
                assert(rect_in_wram(
                    wram@.len() as int,
                    is_vertical,
                    has_layer2,
                    edit_layer,
                    o.x as int,
                    o.y as int,
                    object_width(objects@[i as int]),
                    object_height(objects@[i as int]),
                ));
            }
            let s = o.settings;
            assert(s & 0x0F == s % 16 && s >> 4u8 == s / 16) by (bit_vector);
            let w: u32 = if o.is_extended { 1 } else { (s & 0x0F) as u32 + 1 };
            let h: u32 = if o.is_extended { 1 } else { (s >> 4u8) as u32 + 1 };
            objects.remove(i);
            fill_blocks(wram, is_vertical, has_layer2, edit_layer, o.x, o.y, w, h, BLANK_BLOCK);
            Some(i)
        },
        None => None,
    }
}

/// Paint block `draw_block_id` (cut to a byte) at block `(tx, ty)` of a
/// background layer 2: its tile id and the WRAM block map both take it.
pub fn paint_background_block(
    bg: &mut EditableBackgroundLayer,
    wram: &mut Vec<u8>,
    is_vertical: bool,
    has_layer2: bool,
    edit_layer: u8,
    tx: u32,
    ty: u32,
    draw_block_id: u16,
)
    requires
        block_in_wram(old(wram)@.len() as int, is_vertical, has_layer2, edit_layer, tx as int, ty as int),
    ensures
        ({
            let tile: u8 = if draw_block_id < 0xFF {
                draw_block_id as u8
            } else {
                0xFFu8
            };
            let i = block_index(is_vertical, has_layer2, edit_layer, tx as int, ty as int);
            &&& final(bg).tile_ids@ == (if i < old(bg).tile_ids@.len() {
                old(bg).tile_ids@.update(i, tile)
            } else {
                old(bg).tile_ids@
            })
            &&& final(wram)@ == block_id_written(
                old(wram)@,
                block_slots(is_vertical, has_layer2, edit_layer, tx as int, ty as int),
                tile as u16,
            )
        }),
{
    let i = crate::level_editor::block_map::block_map_index(is_vertical, has_layer2, edit_layer, tx, ty) as usize;
    let tile: u8 = if draw_block_id < 0xFF { draw_block_id as u8 } else { 0xFF };
    if i < bg.tile_ids.len() {
        bg.tile_ids.set(i, tile);
    }
    set_block_id_at(wram, is_vertical, has_layer2, edit_layer, tx, ty, tile as u16);
}

/// Erase block `(tx, ty)` of a background layer 2: its tile id and its
/// block map entry become 0.
pub fn erase_background_block(
    bg: &mut EditableBackgroundLayer,
    wram: &mut Vec<u8>,
    is_vertical: bool,
    has_layer2: bool,
    edit_layer: u8,
    tx: u32,
    ty: u32,
)
    requires
        block_in_wram(old(wram)@.len() as int, is_vertical, has_layer2, edit_layer, tx as int, ty as int),
    ensures
        ({
            let i = block_index(is_vertical, has_layer2, edit_layer, tx as int, ty as int);
            &&& final(bg).tile_ids@ == (if i < old(bg).tile_ids@.len() {
                old(bg).tile_ids@.update(i, 0u8)
            } else {
                old(bg).tile_ids@
            })
            &&& final(wram)@ == block_id_written(
                old(wram)@,
                block_slots(is_vertical, has_layer2, edit_layer, tx as int, ty as int),
                0,
            )
        }),
{
    let i = crate::level_editor::block_map::block_map_index(is_vertical, has_layer2, edit_layer, tx, ty) as usize;
    if i < bg.tile_ids.len() {
        bg.tile_ids.set(i, 0);
    }
    set_block_id_at(wram, is_vertical, has_layer2, edit_layer, tx, ty, 0);
}

/// Block `(bx, by)` is covered by an object whose index is among the
/// first `n` selected indices.
pub open spec fn covered_by_selected(
    objects: Seq<EditableObject>,
    selected: Seq<usize>,
    n: int,
    bx: int,
    by: int,
) -> bool {
    exists|j: int|
        0 <= j < n && selected[j] < objects.len() && #[trigger] object_covers(objects[selected[j] as int], bx, by)
}

/// Each selected index that names an object names one whose blocks lie
/// inside the block map held by `wram_len` bytes of WRAM.
pub open spec fn selected_in_wram(
    objects: Seq<EditableObject>,
    selected: Seq<usize>,
    wram_len: int,
    vertical: bool,
    has_layer2: bool,
    edit_layer: u8,
) -> bool {
    forall|j: int|
        0 <= j < selected.len() && selected[j] < objects.len() ==> rect_in_wram(
            wram_len,
            vertical,
            has_layer2,
            edit_layer,
            objects[selected[j] as int].x as int,
            objects[selected[j] as int].y as int,
            object_width(objects[#[trigger] selected[j] as int]),
            object_height(objects[selected[j] as int]),
        )
}

/// `after` is `before` with every block covered by one of the first `n`
/// selected objects blanked, and every byte outside their slots unchanged.
pub open spec fn selection_blanked(
    before: Seq<u8>,
    after: Seq<u8>,
    objects: Seq<EditableObject>,
    selected: Seq<usize>,
    n: int,
    vertical: bool,
    has_layer2: bool,
    edit_layer: u8,
) -> bool {
    &&& after.len() == before.len()
    &&& forall|bx: int, by: int|
        covered_by_selected(objects, selected, n, bx, by) ==> block_id_in(
            after,
            #[trigger] block_slots(vertical, has_layer2, edit_layer, bx, by),
        ) == BLANK_BLOCK
    &&& forall|k: int|
        0 <= k < before.len() && (forall|bx: int, by: int|
            covered_by_selected(objects, selected, n, bx, by) ==> k != #[trigger] block_slots(
                vertical,
                has_layer2,
                edit_layer,
                bx,
                by,
            ).0 && k != block_slots(vertical, has_layer2, edit_layer, bx, by).1) ==> #[trigger] after[k] == before[k]
}

/// A block covered by the first `n + 1` selected objects is covered by
/// the first `n` or by object `selected[n]`.
proof fn lemma_covered_step(
    objects: Seq<EditableObject>,
    selected: Seq<usize>,
    n: int,
    bx: int,
    by: int,
)
    requires
        0 <= n < selected.len(),
    ensures
        covered_by_selected(objects, selected, n + 1, bx, by) <==> (covered_by_selected(objects, selected, n, bx, by) || (
        selected[n] < objects.len() && object_covers(objects[selected[n] as int], bx, by))),
{
    if covered_by_selected(objects, selected, n + 1, bx, by) {
        let j = choose|j: int|
            0 <= j < n + 1 && selected[j] < objects.len() && #[trigger] object_covers(
                objects[selected[j] as int],
                bx,
                by,
            );
        if j < n {
            assert(covered_by_selected(objects, selected, n, bx, by));
        }
    }
    if selected[n] < objects.len() && object_covers(objects[selected[n] as int], bx, by) {
        assert(covered_by_selected(objects, selected, n + 1, bx, by));
    }
    if covered_by_selected(objects, selected, n, bx, by) {
        let j = choose|j: int|
            0 <= j < n && selected[j] < objects.len() && #[trigger] object_covers(objects[selected[j] as int], bx, by);
        assert(covered_by_selected(objects, selected, n + 1, bx, by));
    }
}

/// Delete the objects whose indices are selected: every block they cover
/// is blanked in the WRAM block map, and the other objects are kept in
/// order.
pub fn delete_selected_objects(
    objects: &mut Vec<EditableObject>,
    wram: &mut Vec<u8>,
    is_vertical: bool,
    has_layer2: bool,
    edit_layer: u8,
    selected: &Vec<usize>,
)
    requires
        old(wram)@.len() <= WRAM_SIZE,
        selected_in_wram(
            old(objects)@,
            selected@,
            old(wram)@.len() as int,
            is_vertical,
            has_layer2,
            edit_layer,
        ),
    ensures
        final(objects)@ == kept_upto(old(objects)@, selected@, old(objects)@.len() as int),
        selection_blanked(
            old(wram)@,
            final(wram)@,
            old(objects)@,
            selected@,
            selected@.len() as int,
            is_vertical,
            has_layer2,
            edit_layer,
        ),
{
    let ghost objs = objects@;
    let ghost len = wram@.len() as int;
    let mut j: usize = 0;
    while j < selected.len()
        invariant
            objects@ == objs,
            objs == old(objects)@,
            len == old(wram)@.len(),
            len <= WRAM_SIZE,
            j <= selected@.len(),
            selected_in_wram(objs, selected@, len, is_vertical, has_layer2, edit_layer),
            selection_blanked(old(wram)@, wram@, objs, selected@, j as int, is_vertical, has_layer2, edit_layer),
        decreases selected@.len() - j,
    {
        let i = selected[j];
        let ghost before = wram@;
        if i < objects.len() {
            let o = objects[i];
            proof {
                assert(rect_in_wram(
                    len,
                    is_vertical,
                    has_layer2,
                    edit_layer,
                    o.x as int,
                    o.y as int,
                    object_width(objs[selected@[j as int] as int]),
                    object_height(objs[selected@[j as int] as int]),
                ));
            }
            let s = o.settings;
            assert(s & 0x0F == s % 16 && s >> 4u8 == s / 16) by (bit_vector);
            let w: u32 = if o.is_extended { 1 } else { (s & 0x0F) as u32 + 1 };
            let h: u32 = if o.is_extended { 1 } else { (s >> 4u8) as u32 + 1 };
            fill_blocks(wram, is_vertical, has_layer2, edit_layer, o.x, o.y, w, h, BLANK_BLOCK);
            proof {
                lemma_blank_step(
                    old(wram)@,
                    before,
                    wram@,
                    objs,
                    selected@,
                    j as int,
                    is_vertical,
                    has_layer2,
                    edit_layer,
                );
            }
        } else {
            proof {
                assert forall|bx: int, by: int|
                    covered_by_selected(objs, selected@, j + 1, bx, by) implies covered_by_selected(
                    objs,
                    selected@,
                    j as int,
                    bx,
                    by,
                ) by {
                    lemma_covered_step(objs, selected@, j as int, bx, by);
                }
                assert forall|bx: int, by: int|
                    covered_by_selected(objs, selected@, j as int, bx, by) implies covered_by_selected(
                    objs,
                    selected@,
                    j + 1,
                    bx,
                    by,
                ) by {
                    lemma_covered_step(objs, selected@, j as int, bx, by);
                }
            }
        }
        j += 1;
    }
    let kept = remove_selected(objects, selected);
    *objects = kept;
}

/// Blocks covered by the first `n` selected objects lie in WRAM.
proof fn lemma_covered_in_wram(
    objects: Seq<EditableObject>,
    selected: Seq<usize>,
    n: int,
    len: int,
    vertical: bool,
    has_layer2: bool,
    edit_layer: u8,
    bx: int,
    by: int,
)
    requires
        n <= selected.len(),
        selected_in_wram(objects, selected, len, vertical, has_layer2, edit_layer),
        covered_by_selected(objects, selected, n, bx, by),
    ensures
        block_in_wram(len, vertical, has_layer2, edit_layer, bx, by),
{
    let j = choose|j: int|
        0 <= j < n && selected[j] < objects.len() && #[trigger] object_covers(objects[selected[j] as int], bx, by);
    let oj = objects[selected[j] as int];
    assert(rect_in_wram(
        len,
        vertical,
        has_layer2,
        edit_layer,
        oj.x as int,
        oj.y as int,
        object_width(objects[selected[j] as int]),
        object_height(objects[selected[j] as int]),
    ));
    assert(in_rect(oj.x as int, oj.y as int, object_width(oj), object_height(oj), bx, by));
}

/// A byte of `before` that is a slot of some block of a filled rectangle
/// is the same slot of that block: low bytes only meet low bytes.
proof fn lemma_slot_in_rect(
    len: int,
    vertical: bool,
    has_layer2: bool,
    edit_layer: u8,
    x: int,
    y: int,
    w: int,
    h: int,
    bx: int,
    by: int,
)
    requires
        len <= WRAM_SIZE,
        rect_in_wram(len, vertical, has_layer2, edit_layer, x, y, w, h),
        block_in_wram(len, vertical, has_layer2, edit_layer, bx, by),
    ensures
        ({
            let e = block_slots(vertical, has_layer2, edit_layer, bx, by);
            &&& (forall|cx: int, cy: int|
                in_rect(x, y, w, h, cx, cy) ==> e.0 != #[trigger] block_slots(vertical, has_layer2, edit_layer, cx, cy).0
                    && e.0 != block_slots(vertical, has_layer2, edit_layer, cx, cy).1) || (exists|cx: int, cy: int|
                in_rect(x, y, w, h, cx, cy) && #[trigger] block_slots(vertical, has_layer2, edit_layer, cx, cy) == e)
            &&& (forall|cx: int, cy: int|
                in_rect(x, y, w, h, cx, cy) ==> e.1 != #[trigger] block_slots(vertical, has_layer2, edit_layer, cx, cy).0
                    && e.1 != block_slots(vertical, has_layer2, edit_layer, cx, cy).1) || (exists|cx: int, cy: int|
                in_rect(x, y, w, h, cx, cy) && #[trigger] block_slots(vertical, has_layer2, edit_layer, cx, cy) == e)
        }),
{
    let e = block_slots(vertical, has_layer2, edit_layer, bx, by);
    lemma_block_slots_ordered(vertical, has_layer2, edit_layer, bx, by);
    assert forall|cx: int, cy: int|
        in_rect(x, y, w, h, cx, cy) && (e.0 == #[trigger] block_slots(vertical, has_layer2, edit_layer, cx, cy).0
            || e.0 == block_slots(vertical, has_layer2, edit_layer, cx, cy).1 || e.1 == block_slots(
            vertical,
            has_layer2,
            edit_layer,
            cx,
            cy,
        ).0 || e.1 == block_slots(vertical, has_layer2, edit_layer, cx, cy).1) implies block_slots(
        vertical,
        has_layer2,
        edit_layer,
        cx,
        cy,
    ) == e by {
        assert(block_in_wram(len, vertical, has_layer2, edit_layer, cx, cy));
        lemma_slot_tables_apart(len, vertical, has_layer2, edit_layer, cx, cy, bx, by);
        lemma_slot_tables_apart(len, vertical, has_layer2, edit_layer, bx, by, cx, cy);
        lemma_block_slots_ordered(vertical, has_layer2, edit_layer, cx, cy);
    }
}

/// A block of the first `n + 1` selected objects reads blank once the
/// footprint of `selected[n]` is blanked on top of the first `n`.
proof fn lemma_blank_block(
    start: Seq<u8>,
    before: Seq<u8>,
    after: Seq<u8>,
    objects: Seq<EditableObject>,
    selected: Seq<usize>,
    n: int,
    vertical: bool,
    has_layer2: bool,
    edit_layer: u8,
    bx: int,
    by: int,
)
    requires
        0 <= n < selected.len(),
        selected[n] < objects.len(),
        start.len() <= WRAM_SIZE,
        selected_in_wram(objects, selected, start.len() as int, vertical, has_layer2, edit_layer),
        selection_blanked(start, before, objects, selected, n, vertical, has_layer2, edit_layer),
        blocks_filled(
            before,
            after,
            vertical,
            has_layer2,
            edit_layer,
            objects[selected[n] as int].x as int,
            objects[selected[n] as int].y as int,
            object_width(objects[selected[n] as int]),
            object_height(objects[selected[n] as int]),
            BLANK_BLOCK,
        ),
        covered_by_selected(objects, selected, n + 1, bx, by),
    ensures
        block_id_in(after, block_slots(vertical, has_layer2, edit_layer, bx, by)) == BLANK_BLOCK,
{
    let o = objects[selected[n] as int];
    let (x, y, w, h) = (o.x as int, o.y as int, object_width(o), object_height(o));
    let len = start.len() as int;
    let e = block_slots(vertical, has_layer2, edit_layer, bx, by);
    lemma_covered_step(objects, selected, n, bx, by);
    if !in_rect(x, y, w, h, bx, by) {
        assert(rect_in_wram(len, vertical, has_layer2, edit_layer, x, y, w, h));
        lemma_covered_in_wram(objects, selected, n, len, vertical, has_layer2, edit_layer, bx, by);
        lemma_block_slots_ordered(vertical, has_layer2, edit_layer, bx, by);
        lemma_slot_in_rect(len, vertical, has_layer2, edit_layer, x, y, w, h, bx, by);
        assert(block_id_in(before, e) == BLANK_BLOCK);
        if exists|cx: int, cy: int|
            in_rect(x, y, w, h, cx, cy) && #[trigger] block_slots(vertical, has_layer2, edit_layer, cx, cy) == e {
            let (cx, cy) = choose|cx: int, cy: int|
                in_rect(x, y, w, h, cx, cy) && #[trigger] block_slots(vertical, has_layer2, edit_layer, cx, cy) == e;
            assert(block_id_in(after, block_slots(vertical, has_layer2, edit_layer, cx, cy)) == BLANK_BLOCK);
        } else {
            assert(after[e.0] == before[e.0]);
            assert(after[e.1] == before[e.1]);
        }
    }
}

/// One step of the selection blanking: after the footprint of object
/// `selected[n]` is blanked, the blocks of the first `n + 1` selected
/// objects read blank and every other byte is as it was.
proof fn lemma_blank_step(
    start: Seq<u8>,
    before: Seq<u8>,
    after: Seq<u8>,
    objects: Seq<EditableObject>,
    selected: Seq<usize>,
    n: int,
    vertical: bool,
    has_layer2: bool,
    edit_layer: u8,
)
    requires
        0 <= n < selected.len(),
        selected[n] < objects.len(),
        start.len() <= WRAM_SIZE,
        selected_in_wram(objects, selected, start.len() as int, vertical, has_layer2, edit_layer),
        selection_blanked(start, before, objects, selected, n, vertical, has_layer2, edit_layer),
        blocks_filled(
            before,
            after,
            vertical,
            has_layer2,
            edit_layer,
            objects[selected[n] as int].x as int,
            objects[selected[n] as int].y as int,
            object_width(objects[selected[n] as int]),
            object_height(objects[selected[n] as int]),
            BLANK_BLOCK,
        ),
    ensures
        selection_blanked(start, after, objects, selected, n + 1, vertical, has_layer2, edit_layer),
{
    let o = objects[selected[n] as int];
    let (x, y, w, h) = (o.x as int, o.y as int, object_width(o), object_height(o));
    assert forall|bx: int, by: int| covered_by_selected(objects, selected, n + 1, bx, by) implies block_id_in(
        after,
        #[trigger] block_slots(vertical, has_layer2, edit_layer, bx, by),
    ) == BLANK_BLOCK by {
        lemma_blank_block(start, before, after, objects, selected, n, vertical, has_layer2, edit_layer, bx, by);
    }
    assert forall|k: int|
        0 <= k < start.len() && (forall|bx: int, by: int|
            covered_by_selected(objects, selected, n + 1, bx, by) ==> k != #[trigger] block_slots(
                vertical,
                has_layer2,
                edit_layer,
                bx,
                by,
            ).0 && k != block_slots(vertical, has_layer2, edit_layer, bx, by).1) implies #[trigger] after[k]
        == start[k] by {
        assert forall|bx: int, by: int| in_rect(x, y, w, h, bx, by) implies k != #[trigger] block_slots(
            vertical,
            has_layer2,
            edit_layer,
            bx,
            by,
        ).0 && k != block_slots(vertical, has_layer2, edit_layer, bx, by).1 by {
            lemma_covered_step(objects, selected, n, bx, by);
            assert(object_covers(objects[selected[n] as int], bx, by));
        }
        assert forall|bx: int, by: int| covered_by_selected(objects, selected, n, bx, by) implies k
            != #[trigger] block_slots(vertical, has_layer2, edit_layer, bx, by).0 && k != block_slots(
            vertical,
            has_layer2,
            edit_layer,
            bx,
            by,
        ).1 by {
            lemma_covered_step(objects, selected, n, bx, by);
        }
        assert(after[k] == before[k]);
    }
}

} // verus!
