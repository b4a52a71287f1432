//! The key table of the grid-button device: 30 named keys, each bound to one
//! distinct bit of a 32-bit scan word, and 24 of them to an LED index.

use vstd::prelude::*;

verus! {

/// The 30 keys of the device.
#[derive(Clone, Copy, PartialEq, Eq, Structural, Debug)]
pub enum Keys {
    TRACK,
    STEP,
    PLAY,
    REC,
    ALT,
    PATT,
    SONG,
    MENU,
    UP,
    DOWN,
    RIGHT,
    LEFT,
    A,
    B,
    K1,
    K2,
    K3,
    K4,
    K5,
    K6,
    K7,
    K8,
    K9,
    K10,
    K11,
    K12,
    K13,
    K14,
    K15,
    K16,
}

/// The bit of the scan word that a key occupies, as a mask with that one bit set.
pub open spec fn mask_spec(k: Keys) -> u32 {
    match k {
        Keys::TRACK => 0x10000000,
        Keys::STEP => 0x08000000,
        Keys::PLAY => 0x02000000,
        Keys::REC => 0x04000000,
        Keys::ALT => 0x00040000,
        Keys::PATT => 0x00001000,
        Keys::SONG => 0x00000040,
        Keys::MENU => 0x00000020,
        Keys::UP => 0x00020000,
        Keys::DOWN => 0x00800000,
        Keys::RIGHT => 0x00000800,
        Keys::LEFT => 0x20000000,
        Keys::A => 0x01000000,
        Keys::B => 0x00000001,
        Keys::K1 => 0x00400000,
        Keys::K2 => 0x00010000,
        Keys::K3 => 0x00000400,
        Keys::K4 => 0x00000010,
        Keys::K5 => 0x00000002,
        Keys::K6 => 0x00000080,
        Keys::K7 => 0x00002000,
        Keys::K8 => 0x00080000,
        Keys::K9 => 0x00200000,
        Keys::K10 => 0x00008000,
        Keys::K11 => 0x00000200,
        Keys::K12 => 0x00000008,
        Keys::K13 => 0x00000004,
        Keys::K14 => 0x00000100,
        Keys::K15 => 0x00004000,
        Keys::K16 => 0x00100000,
    }
}

/// The position of a key's bit within the 32-bit scan word.
pub open spec fn bit_of(k: Keys) -> u32 {
    match k {
        Keys::TRACK => 28,
        Keys::STEP => 27,
        Keys::PLAY => 25,
        Keys::REC => 26,
        Keys::ALT => 18,
        Keys::PATT => 12,
        Keys::SONG => 6,
        Keys::MENU => 5,
        Keys::UP => 17,
        Keys::DOWN => 23,
        Keys::RIGHT => 11,
        Keys::LEFT => 29,
        Keys::A => 24,
        Keys::B => 0,
        Keys::K1 => 22,
        Keys::K2 => 16,
        Keys::K3 => 10,
        Keys::K4 => 4,
        Keys::K5 => 1,
        Keys::K6 => 7,
        Keys::K7 => 13,
        Keys::K8 => 19,
        Keys::K9 => 21,
        Keys::K10 => 15,
        Keys::K11 => 9,
        Keys::K12 => 3,
        Keys::K13 => 2,
        Keys::K14 => 8,
        Keys::K15 => 14,
        Keys::K16 => 20,
    }
}

/// The LED index that a key drives; keys with no LED of their own map to 0.
pub open spec fn led_index_spec(k: Keys) -> usize {
    match k {
        Keys::TRACK => 4,
        Keys::STEP => 14,
        Keys::PLAY => 13,
        Keys::REC => 23,
        Keys::ALT => 3,
        Keys::PATT => 2,
        Keys::SONG => 1,
        Keys::MENU => 0,
        Keys::UP => 0,
        Keys::DOWN => 0,
        Keys::RIGHT => 0,
        Keys::LEFT => 0,
        Keys::A => 0,
        Keys::B => 0,
        Keys::K1 => 5,
        Keys::K2 => 6,
        Keys::K3 => 7,
        Keys::K4 => 8,
        Keys::K5 => 9,
        Keys::K6 => 10,
        Keys::K7 => 11,
        Keys::K8 => 12,
        Keys::K9 => 15,
        Keys::K10 => 16,
        Keys::K11 => 17,
        Keys::K12 => 18,
        Keys::K13 => 19,
        Keys::K14 => 20,
        Keys::K15 => 21,
        Keys::K16 => 22,
    }
}

/// The 30 keys in table order, as a sequence.
pub open spec fn key_list() -> Seq<Keys> {
    seq![
        Keys::TRACK,
        Keys::STEP,
        Keys::PLAY,
        Keys::REC,
        Keys::ALT,
        Keys::PATT,
        Keys::SONG,
        Keys::MENU,
        Keys::UP,
        Keys::DOWN,
        Keys::RIGHT,
        Keys::LEFT,
        Keys::A,
        Keys::B,
        Keys::K1,
        Keys::K2,
        Keys::K3,
        Keys::K4,
        Keys::K5,
        Keys::K6,
        Keys::K7,
        Keys::K8,
        Keys::K9,
        Keys::K10,
        Keys::K11,
        Keys::K12,
        Keys::K13,
        Keys::K14,
        Keys::K15,
        Keys::K16,
    ]
}

/// Every key appears in the table order list.
pub proof fn lemma_key_list_complete()
    ensures
        key_list().len() == 30,
        forall|k: Keys| #[trigger] key_list().contains(k),
{
    assert forall|k: Keys| #[trigger] key_list().contains(k) by {
        match k {
            Keys::TRACK => assert(key_list()[0] == k),
            Keys::STEP => assert(key_list()[1] == k),
            Keys::PLAY => assert(key_list()[2] == k),
            Keys::REC => assert(key_list()[3] == k),
            Keys::ALT => assert(key_list()[4] == k),
            Keys::PATT => assert(key_list()[5] == k),
            Keys::SONG => assert(key_list()[6] == k),
            Keys::MENU => assert(key_list()[7] == k),
            Keys::UP => assert(key_list()[8] == k),
            Keys::DOWN => assert(key_list()[9] == k),
            Keys::RIGHT => assert(key_list()[10] == k),
            Keys::LEFT => assert(key_list()[11] == k),
            Keys::A => assert(key_list()[12] == k),
            Keys::B => assert(key_list()[13] == k),
            Keys::K1 => assert(key_list()[14] == k),
            Keys::K2 => assert(key_list()[15] == k),
            Keys::K3 => assert(key_list()[16] == k),
            Keys::K4 => assert(key_list()[17] == k),
            Keys::K5 => assert(key_list()[18] == k),
            Keys::K6 => assert(key_list()[19] == k),
            Keys::K7 => assert(key_list()[20] == k),
            Keys::K8 => assert(key_list()[21] == k),
            Keys::K9 => assert(key_list()[22] == k),
            Keys::K10 => assert(key_list()[23] == k),
            Keys::K11 => assert(key_list()[24] == k),
            Keys::K12 => assert(key_list()[25] == k),
            Keys::K13 => assert(key_list()[26] == k),
            Keys::K14 => assert(key_list()[27] == k),
            Keys::K15 => assert(key_list()[28] == k),
            Keys::K16 => assert(key_list()[29] == k),
        }
    }
}

impl Keys {
    /// All 30 keys, in table order.
    pub fn list() -> (v: Vec<Keys>)
        ensures
            v@ == key_list(),
    {
        let v = vec![
            Keys::TRACK,
            Keys::STEP,
            Keys::PLAY,
            Keys::REC,
            Keys::ALT,
            Keys::PATT,
            Keys::SONG,
            Keys::MENU,
            Keys::UP,
            Keys::DOWN,
            Keys::RIGHT,
            Keys::LEFT,
            Keys::A,
            Keys::B,
            Keys::K1,
            Keys::K2,
            Keys::K3,
            Keys::K4,
            Keys::K5,
            Keys::K6,
            Keys::K7,
            Keys::K8,
            Keys::K9,
            Keys::K10,
            Keys::K11,
            Keys::K12,
            Keys::K13,
            Keys::K14,
            Keys::K15,
            Keys::K16,
        ];
        proof {
            assert(v@ =~= key_list());
        }
        v
    }

    /// The key's bit in the 32-bit scan word.
    pub fn mask(&self) -> (r: u32)
        ensures
            r == mask_spec(*self),
    {
        match *self {
            Keys::TRACK => 0x10000000,
            Keys::STEP => 0x08000000,
            Keys::PLAY => 0x02000000,
            Keys::REC => 0x04000000,
            Keys::ALT => 0x00040000,
            Keys::PATT => 0x00001000,
            Keys::SONG => 0x00000040,
            Keys::MENU => 0x00000020,
            Keys::UP => 0x00020000,
            Keys::DOWN => 0x00800000,
            Keys::RIGHT => 0x00000800,
            Keys::LEFT => 0x20000000,
            Keys::A => 0x01000000,
            Keys::B => 0x00000001,
            Keys::K1 => 0x00400000,
            Keys::K2 => 0x00010000,
            Keys::K3 => 0x00000400,
            Keys::K4 => 0x00000010,
            Keys::K5 => 0x00000002,
            Keys::K6 => 0x00000080,
            Keys::K7 => 0x00002000,
            Keys::K8 => 0x00080000,
            Keys::K9 => 0x00200000,
            Keys::K10 => 0x00008000,
            Keys::K11 => 0x00000200,
            Keys::K12 => 0x00000008,
            Keys::K13 => 0x00000004,
            Keys::K14 => 0x00000100,
            Keys::K15 => 0x00004000,
            Keys::K16 => 0x00100000,
        }
    }

    /// The LED index behind the key, always below 24.
    pub fn led_index(&self) -> (r: usize)
        ensures
            r == led_index_spec(*self),
            r < 24,
    {
        match *self {
            Keys::TRACK => 4,
            Keys::STEP => 14,
            Keys::PLAY => 13,
            Keys::REC => 23,
            Keys::ALT => 3,
            Keys::PATT => 2,
            Keys::SONG => 1,
            Keys::MENU => 0,
            Keys::UP => 0,
            Keys::DOWN => 0,
            Keys::RIGHT => 0,
            Keys::LEFT => 0,
            Keys::A => 0,
            Keys::B => 0,
            Keys::K1 => 5,
            Keys::K2 => 6,
            Keys::K3 => 7,
            Keys::K4 => 8,
            Keys::K5 => 9,
            Keys::K6 => 10,
            Keys::K7 => 11,
            Keys::K8 => 12,
            Keys::K9 => 15,
            Keys::K10 => 16,
            Keys::K11 => 17,
            Keys::K12 => 18,
            Keys::K13 => 19,
            Keys::K14 => 20,
            Keys::K15 => 21,
            Keys::K16 => 22,
        }
    }
}

/// Every key's mask is the single bit `bit_of` names, and that bit lies in the
/// low 30 bits of the word.
pub proof fn lemma_mask_is_single_bit(k: Keys)
    ensures
        mask_spec(k) == (1u32 << bit_of(k)),
        bit_of(k) < 30,
{
    assert(0x10000000u32 == (1u32 << 28u32) && 0x08000000u32 == (1u32 << 27u32)
        && 0x02000000u32 == (1u32 << 25u32) && 0x04000000u32 == (1u32 << 26u32)
        && 0x00040000u32 == (1u32 << 18u32) && 0x00001000u32 == (1u32 << 12u32)
        && 0x00000040u32 == (1u32 << 6u32) && 0x00000020u32 == (1u32 << 5u32)
        && 0x00020000u32 == (1u32 << 17u32) && 0x00800000u32 == (1u32 << 23u32)
        && 0x00000800u32 == (1u32 << 11u32) && 0x20000000u32 == (1u32 << 29u32)
        && 0x01000000u32 == (1u32 << 24u32) && 0x00000001u32 == (1u32 << 0u32)
        && 0x00400000u32 == (1u32 << 22u32) && 0x00010000u32 == (1u32 << 16u32)
        && 0x00000400u32 == (1u32 << 10u32) && 0x00000010u32 == (1u32 << 4u32)
        && 0x00000002u32 == (1u32 << 1u32) && 0x00000080u32 == (1u32 << 7u32)
        && 0x00002000u32 == (1u32 << 13u32) && 0x00080000u32 == (1u32 << 19u32)
        && 0x00200000u32 == (1u32 << 21u32) && 0x00008000u32 == (1u32 << 15u32)
        && 0x00000200u32 == (1u32 << 9u32) && 0x00000008u32 == (1u32 << 3u32)
        && 0x00000004u32 == (1u32 << 2u32) && 0x00000100u32 == (1u32 << 8u32)
        && 0x00004000u32 == (1u32 << 14u32) && 0x00100000u32 == (1u32 << 20u32))
        by (bit_vector);
}

/// Distinct keys occupy distinct bits: their masks never overlap.
pub proof fn lemma_masks_distinct(k1: Keys, k2: Keys)
    requires
        k1 != k2,
    ensures
        mask_spec(k1) & mask_spec(k2) == 0,
{
    lemma_mask_is_single_bit(k1);
    lemma_mask_is_single_bit(k2);
    let b1 = bit_of(k1);
    let b2 = bit_of(k2);
    assert(b1 != b2);
    assert((1u32 << b1) & (1u32 << b2) == 0) by (bit_vector)
        requires
            b1 < 30,
            b2 < 30,
            b1 != b2,
    ;
}

/// All 30 masks ORed together, in table order.
pub open spec fn all_masks() -> u32 {
    mask_spec(Keys::TRACK) | mask_spec(Keys::STEP) | mask_spec(Keys::PLAY) | mask_spec(Keys::REC)
        | mask_spec(Keys::ALT) | mask_spec(Keys::PATT) | mask_spec(Keys::SONG) | mask_spec(
        Keys::MENU,
    ) | mask_spec(Keys::UP) | mask_spec(Keys::DOWN) | mask_spec(Keys::RIGHT) | mask_spec(
        Keys::LEFT,
    ) | mask_spec(Keys::A) | mask_spec(Keys::B) | mask_spec(Keys::K1) | mask_spec(Keys::K2)
        | mask_spec(Keys::K3) | mask_spec(Keys::K4) | mask_spec(Keys::K5) | mask_spec(Keys::K6)
        | mask_spec(Keys::K7) | mask_spec(Keys::K8) | mask_spec(Keys::K9) | mask_spec(Keys::K10)
        | mask_spec(Keys::K11) | mask_spec(Keys::K12) | mask_spec(Keys::K13) | mask_spec(Keys::K14)
        | mask_spec(Keys::K15) | mask_spec(Keys::K16)
}

/// The masks together occupy exactly the low 30 bits of the 32-bit word.
pub proof fn lemma_masks_cover()
    ensures
        all_masks() == 0x3FFFFFFFu32,
{
    assert((0x10000000u32 | 0x08000000u32 | 0x02000000u32 | 0x04000000u32 | 0x00040000u32
        | 0x00001000u32 | 0x00000040u32 | 0x00000020u32 | 0x00020000u32 | 0x00800000u32
        | 0x00000800u32 | 0x20000000u32 | 0x01000000u32 | 0x00000001u32 | 0x00400000u32
        | 0x00010000u32 | 0x00000400u32 | 0x00000010u32 | 0x00000002u32 | 0x00000080u32
        | 0x00002000u32 | 0x00080000u32 | 0x00200000u32 | 0x00008000u32 | 0x00000200u32
        | 0x00000008u32 | 0x00000004u32 | 0x00000100u32 | 0x00004000u32 | 0x00100000u32)
        == 0x3FFFFFFFu32) by (bit_vector);
}

} // verus!
