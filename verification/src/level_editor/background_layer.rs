//! The editable background layer: one tile id per background cell.

use vstd::prelude::*;

verus! {

#[derive(Clone, Debug, Default)]
pub struct EditableBackgroundLayer {
    pub tile_ids: Vec<u8>,
}

impl EditableBackgroundLayer {
    pub fn new(tile_ids: Vec<u8>) -> (layer: Self)
        ensures
            layer.tile_ids@ == tile_ids@,
    {
        Self { tile_ids }
    }

    /// The layer an undo snapshot describes: the snapshot is the tile ids.
    pub fn from_bytes(bytes: Vec<u8>) -> (layer: Self)
        ensures
            layer.tile_ids@ == bytes@,
    {
        Self { tile_ids: bytes }
    }

    /// Undo snapshot of the layer.
    pub fn to_bytes(&self) -> (bytes: Vec<u8>)
        ensures
            bytes@ == self.tile_ids@,
    {
        self.tile_ids.clone()
    }

    /// Number of bytes of the undo snapshot.
    pub fn size_bytes(&self) -> (n: usize)
        ensures
            n == self.tile_ids@.len(),
    {
        self.tile_ids.len()
    }
}

} // verus!
