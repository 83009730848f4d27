//! The editable Layer 1 object layer: objects at absolute tile positions
//! plus screen exits, their raw 32-bit object words, and the undo snapshot
//! format.

use vstd::prelude::*;

use crate::bytes::{
    from_le16, from_le32, le16, le32, lemma_le16_roundtrip, lemma_le32_roundtrip, push_le16, push_le32, read_le16,
    read_le32,
};

verus! {

#[derive(Clone, Copy, Debug, Default, PartialEq, Eq, Structural)]
pub struct EditableObject {
    pub x: u32,
    pub y: u32,
    pub id: u8,
    pub settings: u8,
    pub is_extended: bool,
    pub extended_id: u8,
}

#[derive(Clone, Copy, Debug, Default, PartialEq, Eq, Structural)]
pub struct EditableExit {
    pub screen: u8,
    pub midway: bool,
    pub secondary: bool,
    pub id: u16,
}

#[derive(Clone, Debug, Default)]
pub struct EditableObjectLayer {
    pub objects: Vec<EditableObject>,
    pub exits: Vec<EditableExit>,
}

pub open spec fn bit(b: bool) -> int {
    if b { 1 } else { 0 }
}

/// Raw object word of an object: bit 31 new-screen flag, bits 24-28 the Y
/// position within the screen, bits 16-19 the X position, and for standard
/// objects bits 20-23 the low nibble of the object number and bits 0-7 the
/// settings (the object number's upper bits, shifted past bit 31, do not
/// reach the word); extended objects carry their extended id in bits 0-7.
pub open spec fn object_word(obj: EditableObject, new_screen: bool) -> int {
    let common = bit(new_screen) * 0x8000_0000 + (obj.y % 32) * 0x100_0000 + (obj.x % 16) * 0x1_0000;
    if obj.is_extended {
        common + obj.extended_id
    } else {
        common + (obj.id % 16) * 0x10_0000 + obj.settings
    }
}

/// Raw object word of a screen exit: bits 24-28 the screen, bit 19 the
/// midway flag, bit 17 the secondary-exit flag, bits 0-8 the exit id.
pub open spec fn exit_word(exit: EditableExit) -> int {
    (exit.screen % 32) * 0x100_0000 + bit(exit.midway) * 0x8_0000 + bit(exit.secondary) * 0x2_0000 + exit.id % 512
}

/// Bytes per object in an undo snapshot.
pub const UNDO_OBJECT_STRIDE: usize = 12;

/// Bytes per exit in an undo snapshot.
pub const UNDO_EXIT_STRIDE: usize = 5;

pub open spec fn object_record(o: EditableObject) -> Seq<u8> {
    le32(o.x) + le32(o.y) + seq![o.id, o.settings, bit(o.is_extended) as u8, o.extended_id]
}

pub open spec fn exit_record(e: EditableExit) -> Seq<u8> {
    seq![e.screen, bit(e.midway) as u8, bit(e.secondary) as u8] + le16(e.id)
}

pub open spec fn objects_encode(s: Seq<EditableObject>) -> Seq<u8>
    decreases s.len(),
{
    if s.len() == 0 {
        seq![]
    } else {
        objects_encode(s.drop_last()) + object_record(s.last())
    }
}

pub open spec fn exits_encode(s: Seq<EditableExit>) -> Seq<u8>
    decreases s.len(),
{
    if s.len() == 0 {
        seq![]
    } else {
        exits_encode(s.drop_last()) + exit_record(s.last())
    }
}

/// Undo snapshot: object count and exit count (each as a little-endian
/// 16-bit value, so modulo 65536), then the object records, then the exit
/// records.
pub open spec fn layer_encode(objects: Seq<EditableObject>, exits: Seq<EditableExit>) -> Seq<u8> {
    le16((objects.len() % 0x10000) as u16) + le16((exits.len() % 0x10000) as u16) + objects_encode(objects)
        + exits_encode(exits)
}

pub open spec fn decode_object(b: Seq<u8>, off: int) -> EditableObject {
    EditableObject {
        x: from_le32(b, off),
        y: from_le32(b, off + 4),
        id: b[off + 8],
        settings: b[off + 9],
        is_extended: b[off + 10] != 0,
        extended_id: b[off + 11],
    }
}

pub open spec fn decode_exit(b: Seq<u8>, off: int) -> EditableExit {
    EditableExit { screen: b[off], midway: b[off + 1] != 0, secondary: b[off + 2] != 0, id: from_le16(b, off + 3) }
}

pub open spec fn min(a: int, b: int) -> int {
    if a < b { a } else { b }
}

/// Number of objects an undo snapshot yields: the stored count, cut short
/// where the bytes run out.
pub open spec fn decoded_object_count(b: Seq<u8>) -> int {
    min(from_le16(b, 0) as int, (b.len() - 4) / 12)
}

/// Number of exits an undo snapshot yields.
pub open spec fn decoded_exit_count(b: Seq<u8>) -> int {
    min(from_le16(b, 2) as int, (b.len() - 4 - 12 * decoded_object_count(b)) / 5)
}

/// Objects an undo snapshot yields (none when it is shorter than 4 bytes).
pub open spec fn decode_objects(b: Seq<u8>) -> Seq<EditableObject> {
    if b.len() < 4 {
        seq![]
    } else {
        Seq::new(decoded_object_count(b) as nat, |i: int| decode_object(b, 4 + 12 * i))
    }
}

/// Exits an undo snapshot yields (none when it is shorter than 4 bytes).
pub open spec fn decode_exits(b: Seq<u8>) -> Seq<EditableExit> {
    if b.len() < 4 {
        seq![]
    } else {
        Seq::new(
            decoded_exit_count(b) as nat,
            |i: int| decode_exit(b, 4 + 12 * decoded_object_count(b) + 5 * i),
        )
    }
}

impl EditableObject {
    /// The raw object word for this object; `new_screen` sets the
    /// new-screen flag.
    pub fn to_raw(self, new_screen: bool) -> (word: u32)
        ensures
            word == object_word(self, new_screen),
    {
        let ns: u32 = if new_screen { 1 } else { 0 };
        let x = self.x;
        let y = self.y;
        if self.is_extended {
            let e = self.extended_id as u32;
            assert(e < 256 && ns < 2 ==> (ns << 31u32) | ((y & 0x1F) << 24u32) | ((x & 0x0F) << 16u32) | e == ns
                * 0x8000_0000 + (y % 32) * 0x100_0000 + (x % 16) * 0x1_0000 + e) by (bit_vector);
            (ns << 31u32) | ((y & 0x1F) << 24u32) | ((x & 0x0F) << 16u32) | e
        } else {
            let id = self.id as u32;
            let st = self.settings as u32;
            assert(id < 256 && st < 256 && ns < 2 ==> (ns << 31u32) | ((id & 0x30) << 30u32) | ((id & 0x0F)
                << 20u32) | ((y & 0x1F) << 24u32) | ((x & 0x0F) << 16u32) | st == ns * 0x8000_0000 + (y % 32)
                * 0x100_0000 + (x % 16) * 0x1_0000 + (id % 16) * 0x10_0000 + st) by (bit_vector);
            (ns << 31u32) | ((id & 0x30) << 30u32) | ((id & 0x0F) << 20u32) | ((y & 0x1F) << 24u32) | ((x
                & 0x0F) << 16u32) | st
        }
    }
}

impl EditableExit {
    /// The raw object word for this exit.
    pub fn to_raw(self) -> (word: u32)
        ensures
            word == exit_word(self),
    {
        let s = self.screen as u32;
        let m: u32 = if self.midway { 1 } else { 0 };
        let sec: u32 = if self.secondary { 1 } else { 0 };
        let id = self.id as u32;
        assert(s < 256 && m < 2 && sec < 2 && id < 0x10000 ==> ((s & 0x1F) << 24u32) | (m << 19u32) | (sec
            << 17u32) | (id & 0x01FF) == (s % 32) * 0x100_0000 + m * 0x8_0000 + sec * 0x2_0000 + id % 512)
            by (bit_vector);
        ((s & 0x1F) << 24u32) | (m << 19u32) | (sec << 17u32) | (id & 0x01FF)
    }
}

proof fn lemma_objects_encode(s: Seq<EditableObject>)
    ensures
        objects_encode(s).len() == 12 * s.len(),
        forall|i: int, k: int|
            0 <= i < s.len() && 0 <= k < 12 ==> #[trigger] objects_encode(s)[12 * i + k] == #[trigger] object_record(
                s[i],
            )[k],
    decreases s.len(),
{
    if s.len() > 0 {
        lemma_objects_encode(s.drop_last());
        assert forall|i: int, k: int| 0 <= i < s.len() && 0 <= k < 12 implies #[trigger] objects_encode(s)[12
            * i + k] == #[trigger] object_record(s[i])[k] by {
            if i < s.len() - 1 {
                assert(objects_encode(s)[12 * i + k] == objects_encode(s.drop_last())[12 * i + k]);
                assert(s[i] == s.drop_last()[i]);
            }
        }
    }
}

proof fn lemma_exits_encode(s: Seq<EditableExit>)
    ensures
        exits_encode(s).len() == 5 * s.len(),
        forall|i: int, k: int|
            0 <= i < s.len() && 0 <= k < 5 ==> #[trigger] exits_encode(s)[5 * i + k] == #[trigger] exit_record(
                s[i],
            )[k],
    decreases s.len(),
{
    if s.len() > 0 {
        lemma_exits_encode(s.drop_last());
        assert forall|i: int, k: int| 0 <= i < s.len() && 0 <= k < 5 implies #[trigger] exits_encode(s)[5 * i
            + k] == #[trigger] exit_record(s[i])[k] by {
            if i < s.len() - 1 {
                assert(exits_encode(s)[5 * i + k] == exits_encode(s.drop_last())[5 * i + k]);
                assert(s[i] == s.drop_last()[i]);
            }
        }
    }
}

/// Restoring an undo snapshot gives back exactly the objects and exits it
/// was taken from, as long as each list has fewer than 65536 entries (the
/// counts are stored in 16 bits).
pub proof fn lemma_undo_roundtrip(objects: Seq<EditableObject>, exits: Seq<EditableExit>)
    requires
        objects.len() < 0x10000,
        exits.len() < 0x10000,
    ensures
        decode_objects(layer_encode(objects, exits)) == objects,
        decode_exits(layer_encode(objects, exits)) == exits,
{
    let b = layer_encode(objects, exits);
    let no = objects.len() as int;
    let ne = exits.len() as int;
    lemma_objects_encode(objects);
    lemma_exits_encode(exits);
    lemma_le16_roundtrip(no as u16);
    lemma_le16_roundtrip(ne as u16);
    assert(b.len() == 4 + 12 * no + 5 * ne);
    assert(from_le16(b, 0) == from_le16(le16(no as u16), 0));
    assert(from_le16(b, 2) == from_le16(le16(ne as u16), 0));
    assert(decoded_object_count(b) == no);
    assert(decoded_exit_count(b) == ne);
    let dobj = decode_objects(b);
    assert forall|i: int| 0 <= i < no implies #[trigger] dobj[i] == objects[i] by {
        let o = objects[i];
        let r = object_record(o);
        let off = 4 + 12 * i;
        assert forall|k: int| 0 <= k < 12 implies b[off + k] == #[trigger] r[k] by {
            assert(b[off + k] == objects_encode(objects)[12 * i + k]);
        }
        lemma_le32_roundtrip(o.x);
        lemma_le32_roundtrip(o.y);
        assert(from_le32(b, off) == from_le32(le32(o.x), 0)) by {
            assert(b[off] == r[0] && b[off + 1] == r[1] && b[off + 2] == r[2] && b[off + 3] == r[3]);
        }
        assert(from_le32(b, off + 4) == from_le32(le32(o.y), 0)) by {
            assert(b[off + 4] == r[4] && b[off + 5] == r[5] && b[off + 6] == r[6] && b[off + 7] == r[7]);
        }
        assert(b[off + 8] == r[8] && b[off + 9] == r[9] && b[off + 10] == r[10] && b[off + 11] == r[11]);
    }
    assert(dobj =~= objects);
    let dex = decode_exits(b);
    assert forall|i: int| 0 <= i < ne implies #[trigger] dex[i] == exits[i] by {
        let e = exits[i];
        let r = exit_record(e);
        let off = 4 + 12 * no + 5 * i;
        assert forall|k: int| 0 <= k < 5 implies b[off + k] == #[trigger] r[k] by {
            assert(b[off + k] == exits_encode(exits)[5 * i + k]);
        }
        lemma_le16_roundtrip(e.id);
        assert(from_le16(b, off + 3) == from_le16(le16(e.id), 0)) by {
            assert(b[off + 3] == r[3] && b[off + 4] == r[4]);
        }
        assert(b[off] == r[0] && b[off + 1] == r[1] && b[off + 2] == r[2]);
    }
    assert(dex =~= exits);
}

impl EditableObjectLayer {
    /// Undo snapshot of the layer.
    pub fn to_bytes(&self) -> (bytes: Vec<u8>)
        ensures
            bytes@ == layer_encode(self.objects@, self.exits@),
    {
        let mut bytes: Vec<u8> = Vec::new();
        push_le16(&mut bytes, (self.objects.len() % 0x10000) as u16);
        push_le16(&mut bytes, (self.exits.len() % 0x10000) as u16);
        let ghost header = bytes@;
        let mut i: usize = 0;
        while i < self.objects.len()
            invariant
                i <= self.objects@.len(),
                bytes@ == header + objects_encode(self.objects@.subrange(0, i as int)),
            decreases self.objects@.len() - i,
        {
            let obj = self.objects[i];
            let ghost before = bytes@;
            push_le32(&mut bytes, obj.x);
            push_le32(&mut bytes, obj.y);
            bytes.push(obj.id);
            bytes.push(obj.settings);
            bytes.push(if obj.is_extended { 1 } else { 0 });
            bytes.push(obj.extended_id);
            proof {
                let s = self.objects@.subrange(0, i as int + 1);
                assert(s.drop_last() =~= self.objects@.subrange(0, i as int));
                assert(bytes@ =~= before + object_record(obj));
            }
            i += 1;
        }
        assert(self.objects@.subrange(0, i as int) =~= self.objects@);
        let ghost mid = bytes@;
        let mut j: usize = 0;
        while j < self.exits.len()
            invariant
                j <= self.exits@.len(),
                bytes@ == mid + exits_encode(self.exits@.subrange(0, j as int)),
            decreases self.exits@.len() - j,
        {
            let exit = self.exits[j];
            let ghost before = bytes@;
            bytes.push(exit.screen);
            bytes.push(if exit.midway { 1 } else { 0 });
            bytes.push(if exit.secondary { 1 } else { 0 });
            push_le16(&mut bytes, exit.id);
            proof {
                let s = self.exits@.subrange(0, j as int + 1);
                assert(s.drop_last() =~= self.exits@.subrange(0, j as int));
                assert(bytes@ =~= before + exit_record(exit));
            }
            j += 1;
        }
        assert(self.exits@.subrange(0, j as int) =~= self.exits@);
        assert(bytes@ =~= layer_encode(self.objects@, self.exits@));
        bytes
    }

    /// The layer an undo snapshot describes; a snapshot shorter than 4
    /// bytes gives an empty layer, and records cut off by the end of the
    /// bytes are dropped.
    pub fn from_bytes(bytes: Vec<u8>) -> (layer: Self)
        ensures
            layer.objects@ == decode_objects(bytes@),
            layer.exits@ == decode_exits(bytes@),
    {
        let len = bytes.len();
        if len < 4 {
            return EditableObjectLayer { objects: Vec::new(), exits: Vec::new() };
        }
        let num_objects = read_le16(bytes.as_slice(), 0) as usize;
        let num_exits = read_le16(bytes.as_slice(), 2) as usize;
        let ghost b = bytes@;

        let mut objects: Vec<EditableObject> = Vec::new();
        let mut offset: usize = 4;
        let mut i: usize = 0;
        while i < num_objects && len - offset >= 12
            invariant
                len == b.len(),
                b == bytes@,
                len >= 4,
                num_objects == from_le16(b, 0),
                i <= num_objects,
                offset == 4 + 12 * i,
                offset <= len,
                objects@ =~= Seq::new(i as nat, |k: int| decode_object(b, 4 + 12 * k)),
            decreases num_objects - i,
        {
            let x = read_le32(bytes.as_slice(), offset);
            let y = read_le32(bytes.as_slice(), offset + 4);
            let id = bytes[offset + 8];
            let settings = bytes[offset + 9];
            let is_extended = bytes[offset + 10] != 0;
            let extended_id = bytes[offset + 11];
            objects.push(EditableObject { x, y, id, settings, is_extended, extended_id });
            offset += 12;
            i += 1;
        }
        assert(i == decoded_object_count(b)) by {
            assert(i == min(num_objects as int, (len - 4) / 12)) by (nonlinear_arith)
                requires
                    offset == 4 + 12 * i,
                    offset <= len,
                    i <= num_objects,
                    i == num_objects || offset + 12 > len,
            ;
        }

        let mut exits: Vec<EditableExit> = Vec::new();
        let ghost start = offset as int;
        let mut j: usize = 0;
        while j < num_exits && len - offset >= 5
            invariant
                len == b.len(),
                b == bytes@,
                num_exits == from_le16(b, 2),
                j <= num_exits,
                offset == start + 5 * j,
                start <= offset <= len,
                exits@ =~= Seq::new(j as nat, |k: int| decode_exit(b, start + 5 * k)),
            decreases num_exits - j,
        {
            let screen = bytes[offset];
            let midway = bytes[offset + 1] != 0;
            let secondary = bytes[offset + 2] != 0;
            let id = read_le16(bytes.as_slice(), offset + 3);
            exits.push(EditableExit { screen, midway, secondary, id });
            offset += 5;
            j += 1;
        }
        assert(j == decoded_exit_count(b)) by {
            assert(j == min(num_exits as int, (len - start) / 5)) by (nonlinear_arith)
                requires
                    offset == start + 5 * j,
                    offset <= len,
                    j <= num_exits,
                    j == num_exits || offset + 5 > len,
            ;
        }
        EditableObjectLayer { objects, exits }
    }

    /// Number of bytes of the undo snapshot.
    pub fn size_bytes(&self) -> (n: usize)
        requires
            4 + self.objects@.len() * UNDO_OBJECT_STRIDE + self.exits@.len() * UNDO_EXIT_STRIDE <= usize::MAX,
        ensures
            n == 4 + self.objects@.len() * UNDO_OBJECT_STRIDE + self.exits@.len() * UNDO_EXIT_STRIDE,
    {
        4 + self.objects.len() * UNDO_OBJECT_STRIDE + self.exits.len() * UNDO_EXIT_STRIDE
    }
}


/// What the editor reads of a parsed layer object: its kind, screen
/// fields, position within the screen, and number/settings bytes.
#[derive(Clone, Copy, Debug, Default, PartialEq, Eq, Structural)]
pub struct RawObject {
    pub is_exit: bool,
    pub is_screen_jump: bool,
    pub is_new_screen: bool,
    pub screen_number: u8,
    pub x: u8,
    pub y: u8,
    pub standard_object_number: u8,
    pub settings: u8,
    pub is_extended: bool,
    pub is_midway: bool,
    pub is_secondary_exit: bool,
    pub exit_id: u16,
}

/// The editable object for a placed object on screen `screen`: in vertical
/// levels the raw X and Y swap and screens stack downwards.
pub open spec fn object_from_raw(o: RawObject, screen: int, vertical: bool) -> EditableObject {
    let (lx, ly) = if vertical {
        (o.y as int, o.x as int)
    } else {
        (o.x as int, o.y as int)
    };
    EditableObject {
        x: (lx + if vertical {
            0
        } else {
            screen * 16
        }) as u32,
        y: (ly + if vertical {
            screen * 16
        } else {
            0
        }) as u32,
        id: o.standard_object_number,
        settings: o.settings,
        is_extended: o.is_extended,
        extended_id: o.settings,
    }
}

/// State after walking the first `k` raw objects: the current screen (a
/// screen jump sets it, a new-screen flag advances it, saturating at 255),
/// the placed objects and the exits.
pub open spec fn walk_objects(raw: Seq<RawObject>, vertical: bool, k: int) -> (u8, Seq<EditableObject>, Seq<EditableExit>)
    decreases k,
{
    if k <= 0 {
        (0, seq![], seq![])
    } else {
        let (screen, objects, exits) = walk_objects(raw, vertical, k - 1);
        let o = raw[k - 1];
        if o.is_exit {
            (screen, objects, exits.push(EditableExit {
                screen: o.screen_number,
                midway: o.is_midway,
                secondary: o.is_secondary_exit,
                id: o.exit_id,
            }))
        } else if o.is_screen_jump {
            (o.screen_number, objects, exits)
        } else {
            let s = if o.is_new_screen {
                if screen == 255 {
                    255u8
                } else {
                    (screen + 1) as u8
                }
            } else {
                screen
            };
            (s, objects.push(object_from_raw(o, s as int, vertical)), exits)
        }
    }
}

impl EditableObject {
    /// The editable object for a raw object on screen `current_screen`;
    /// `None` for exits and screen jumps.
    pub fn from_raw(object: RawObject, current_screen: u32, vertical_level: bool) -> (obj: Option<Self>)
        requires
            current_screen * 16 + 255 <= u32::MAX,
        ensures
            obj == (if object.is_exit || object.is_screen_jump {
                None
            } else {
                Some(object_from_raw(object, current_screen as int, vertical_level))
            }),
    {
        if object.is_exit || object.is_screen_jump {
            return None;
        }
        let (local_x, local_y) = if vertical_level {
            (object.y as u32, object.x as u32)
        } else {
            (object.x as u32, object.y as u32)
        };
        let abs_x = local_x + if vertical_level { 0 } else { current_screen * 16 };
        let abs_y = local_y + if vertical_level { current_screen * 16 } else { 0 };
        Some(
            EditableObject {
                x: abs_x,
                y: abs_y,
                id: object.standard_object_number,
                settings: object.settings,
                is_extended: object.is_extended,
                extended_id: object.settings,
            },
        )
    }
}

impl EditableExit {
    /// The exit of a raw exit object; `None` for anything else.
    pub fn from_raw(object: RawObject) -> (exit: Option<Self>)
        ensures
            exit == (if object.is_exit {
                Some(
                    EditableExit {
                        screen: object.screen_number,
                        midway: object.is_midway,
                        secondary: object.is_secondary_exit,
                        id: object.exit_id,
                    },
                )
            } else {
                None
            }),
    {
        if object.is_exit {
            Some(
                EditableExit {
                    screen: object.screen_number,
                    midway: object.is_midway,
                    secondary: object.is_secondary_exit,
                    id: object.exit_id,
                },
            )
        } else {
            None
        }
    }
}

impl EditableObjectLayer {
    /// The editable layer for a level's parsed layer objects, in order.
    pub fn from_objects(raw_objects: &Vec<RawObject>, is_vertical: bool) -> (layer: Self)
        ensures
            layer.objects@ == walk_objects(raw_objects@, is_vertical, raw_objects@.len() as int).1,
            layer.exits@ == walk_objects(raw_objects@, is_vertical, raw_objects@.len() as int).2,
    {
        let mut objects: Vec<EditableObject> = Vec::new();
        let mut exits: Vec<EditableExit> = Vec::new();
        let mut current_screen: u8 = 0;
        let mut i: usize = 0;
        while i < raw_objects.len()
            invariant
                i <= raw_objects@.len(),
                walk_objects(raw_objects@, is_vertical, i as int) == (current_screen, objects@, exits@),
            decreases raw_objects@.len() - i,
        {
            let raw = raw_objects[i];
            if raw.is_exit {
                if let Some(exit) = EditableExit::from_raw(raw) {
                    exits.push(exit);
                }
            } else if raw.is_screen_jump {
                current_screen = raw.screen_number;
            } else {
                if raw.is_new_screen {
                    current_screen = if current_screen == 255 { 255 } else { current_screen + 1 };
                }
                if let Some(obj) = EditableObject::from_raw(raw, current_screen as u32, is_vertical) {
                    objects.push(obj);
                }
            }
            proof {
                assert(walk_objects(raw_objects@, is_vertical, i as int + 1) == (
                    current_screen,
                    objects@,
                    exits@,
                ));
            }
            i += 1;
        }
        EditableObjectLayer { objects, exits }
    }
}

/// A raw object that is placed in the layer (neither an exit nor a screen
/// jump).
pub open spec fn is_placed(o: RawObject) -> bool {
    !o.is_exit && !o.is_screen_jump
}

/// Number of placed objects among the first `k` raw objects.
pub open spec fn placed_before(raw: Seq<RawObject>, k: int) -> int
    decreases k,
{
    if k <= 0 {
        0
    } else {
        placed_before(raw, k - 1) + if is_placed(raw[k - 1]) {
            1int
        } else {
            0
        }
    }
}

/// Number of new-screen flags among the placed objects of the first `k`.
pub open spec fn new_screen_flags(raw: Seq<RawObject>, k: int) -> int
    decreases k,
{
    if k <= 0 {
        0
    } else {
        new_screen_flags(raw, k - 1) + if is_placed(raw[k - 1]) && raw[k - 1].is_new_screen {
            1int
        } else {
            0
        }
    }
}

proof fn lemma_placed_before_grows(raw: Seq<RawObject>, i: int, k: int)
    requires
        0 <= i <= k,
    ensures
        placed_before(raw, i) <= placed_before(raw, k),
    decreases k - i,
{
    if i < k {
        lemma_placed_before_grows(raw, i, k - 1);
    }
}

/// Walking a layer without screen jumps, every new-screen flag advances the
/// screen by exactly one from screen 0, stopping at 255: the placed object
/// of raw object `i` lands on screen `min(f, 255)`, `f` being the number
/// of new-screen flags up to and including it, at its in-screen position
/// (horizontal levels: 16 blocks per screen along X; vertical levels: the
/// raw X and Y swap and screens stack 16 blocks down). The placed objects
/// keep their order, and the walk ends on screen `min(flags, 255)`.
pub proof fn lemma_new_screens_advance(raw: Seq<RawObject>, vertical: bool, n: int)
    requires
        0 <= n <= raw.len(),
        forall|j: int| 0 <= j < n ==> !(!(#[trigger] raw[j]).is_exit && raw[j].is_screen_jump),
    ensures
        walk_objects(raw, vertical, n).0 as int == min(new_screen_flags(raw, n), 255),
        walk_objects(raw, vertical, n).1.len() == placed_before(raw, n),
        forall|i: int|
            0 <= i < n && is_placed(#[trigger] raw[i]) ==> {
                let s = min(new_screen_flags(raw, i + 1), 255);
                let o = walk_objects(raw, vertical, n).1[placed_before(raw, i)];
                if vertical {
                    o.x == raw[i].y && o.y == 16 * s + raw[i].x
                } else {
                    o.x == 16 * s + raw[i].x && o.y == raw[i].y
                }
            },
    decreases n,
{
    if n > 0 {
        lemma_new_screens_advance(raw, vertical, n - 1);
        let prev = walk_objects(raw, vertical, n - 1);
        let cur = walk_objects(raw, vertical, n);
        let o = raw[n - 1];
        assert(!(!o.is_exit && o.is_screen_jump));
        assert forall|i: int| 0 <= i < n && is_placed(#[trigger] raw[i]) implies {
            let s = min(new_screen_flags(raw, i + 1), 255);
            let ob = cur.1[placed_before(raw, i)];
            if vertical {
                ob.x == raw[i].y && ob.y == 16 * s + raw[i].x
            } else {
                ob.x == 16 * s + raw[i].x && ob.y == raw[i].y
            }
        } by {
            lemma_placed_before_grows(raw, 0, i);
            if i < n - 1 {
                lemma_placed_before_grows(raw, i + 1, n - 1);
                assert(placed_before(raw, i) < prev.1.len());
                if is_placed(o) {
                    assert(cur.1 == prev.1.push(object_from_raw(o, cur.0 as int, vertical)));
                    assert(cur.1[placed_before(raw, i)] == prev.1[placed_before(raw, i)]);
                } else {
                    assert(cur.1 == prev.1);
                }
            } else {
                assert(cur.1 == prev.1.push(object_from_raw(o, cur.0 as int, vertical)));
                assert(placed_before(raw, i) == prev.1.len());
            }
        }
    }
}

} // verus!
