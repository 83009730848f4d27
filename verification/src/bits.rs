//! Bit-field facts about bytes and 16-bit words, as arithmetic.

use vstd::prelude::*;

verus! {

/// Masks and shifts of a byte as division and remainder.
pub proof fn lemma_u8_fields()
    by (bit_vector)
    ensures
        forall|b: u8| #[trigger] (b & 0x0F) == b % 16,
        forall|b: u8| #[trigger] (b & 0x1F) == b % 32,
        forall|b: u8| #[trigger] (b >> 4u8) == b / 16,
        forall|b: u8| #[trigger] (b >> 5u8) == b / 32,
        forall|b: u8| #[trigger] (b >> 6u8) == b / 64,
        forall|b: u8| #[trigger] ((b >> 4u8) & 3) == (b / 16) % 4,
        forall|b: u8| #[trigger] ((b >> 3u8) & 1) == (b / 8) % 2,
{
}

/// Masks and shifts of a 16-bit word as division and remainder, and the
/// ranges of its tilemap fields.
pub proof fn lemma_u16_fields()
    by (bit_vector)
    ensures
        forall|t: u16| #[trigger] (t & 0xFF) == t % 256,
        forall|t: u16| #[trigger] (t >> 8u16) == t / 256,
        forall|t: u16| #[trigger] (t & 0x3FF) <= 0x3FF,
        forall|t: u16| #[trigger] (t & 0x1FF) <= 0x1FF,
        forall|t: u16| #[trigger] ((t >> 10u16) & 7) <= 7,
        forall|t: u16| #[trigger] ((t >> 9u16) & 7) <= 7,
{
}

} // verus!
