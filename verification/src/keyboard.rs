//! The debounced matrix-keyboard state model: two consecutive 32-bit scan
//! words, with level and edge queries per key.
//!
//! The electrical strobing itself lives outside this crate; a scan hands this
//! model the 30 row samples in strobe order (column-major, row-minor, column 1
//! first), and the model packs them into the scan word exactly as the key
//! table's bit positions expect.

use crate::keys::{mask_spec, Keys};
use vstd::arithmetic::power2::{lemma2_to64, lemma_pow2_strictly_increases, pow2};
use vstd::prelude::*;

verus! {

/// The scan word that a sequence of row samples packs to: each sample shifts
/// the accumulator left by one bit and ORs in 1 if the row read high.
pub open spec fn word_of(s: Seq<bool>) -> nat
    decreases s.len(),
{
    if s.len() == 0 {
        0
    } else {
        word_of(s.drop_last()) * 2 + (if s.last() {
            1nat
        } else {
            0nat
        })
    }
}

/// A packed word stays below two to the number of samples.
pub proof fn lemma_word_of_bound(s: Seq<bool>)
    ensures
        word_of(s) < pow2(s.len()),
    decreases s.len(),
{
    if s.len() == 0 {
        lemma2_to64();
    } else {
        vstd::arithmetic::power2::lemma_pow2_unfold(s.len());
        lemma_word_of_bound(s.drop_last());
    }
}

/// Bit `b` of a packed word reads the sample taken `b` places before the end
/// of the pass: the first sample of the pass lands on the highest bit.
pub proof fn lemma_word_of_bit(s: Seq<bool>, b: u32)
    requires
        s.len() <= 32,
        (b as int) < s.len(),
    ensures
        ((word_of(s) as u32) & (1u32 << b) != 0) <==> s[s.len() - 1 - b],
    decreases s.len(),
{
    lemma_word_of_bound(s);
    lemma_word_of_bound(s.drop_last());
    lemma2_to64();
    if s.len() < 32 {
        lemma_pow2_strictly_increases(s.len(), 32);
    }
    if s.drop_last().len() < 31 {
        lemma_pow2_strictly_increases(s.drop_last().len(), 31);
    }
    let x = word_of(s) as u32;
    let w = word_of(s.drop_last()) as u32;
    let c: u32 = if s.last() {
        1
    } else {
        0
    };
    assert(x == w * 2 + c);
    if b == 0 {
        assert((x & (1u32 << 0u32) != 0) <==> c == 1) by (bit_vector)
            requires
                x == w * 2 + c,
                c <= 1,
                w < 0x80000000u32,
        ;
    } else {
        assert((x & (1u32 << b) != 0) <==> (w & (1u32 << (b - 1) as u32) != 0)) by (bit_vector)
            requires
                x == w * 2 + c,
                c <= 1,
                w < 0x80000000u32,
                0 < b < 32,
        ;
        lemma_word_of_bit(s.drop_last(), (b - 1) as u32);
        assert(s.drop_last()[s.drop_last().len() - 1 - (b - 1)] == s[s.len() - 1 - b]);
    }
}

/// After a scan, a key reads as pressed exactly when the row sample at its
/// place in the strobe order read high: the key table's bit positions name
/// samples counted back from the end of the pass.
pub proof fn lemma_scan_reads_key(s: Seq<bool>, k: Keys)
    requires
        s.len() == 30,
    ensures
        pressed_spec(word_of(s) as u32, mask_spec(k)) <==> s[29 - crate::keys::bit_of(k)],
{
    crate::keys::lemma_mask_is_single_bit(k);
    lemma_word_of_bit(s, crate::keys::bit_of(k));
}

/// A key is held down in the scan word `current`.
pub open spec fn pressed_spec(current: u32, mask: u32) -> bool {
    current & mask != 0
}

/// A key went down between `previous` and `current`.
pub open spec fn falling_spec(current: u32, previous: u32, mask: u32) -> bool {
    current & !previous & mask != 0
}

/// A key came up between `previous` and `current`.
pub open spec fn raising_spec(current: u32, previous: u32, mask: u32) -> bool {
    !current & previous & mask != 0
}

/// Edge queries agree with the level query: a key that just went down is held,
/// a key that just came up is not, and no key does both in one scan pair.
pub proof fn lemma_edges_exclusive(current: u32, previous: u32, k: Keys)
    ensures
        falling_spec(current, previous, mask_spec(k)) ==> pressed_spec(current, mask_spec(k)),
        raising_spec(current, previous, mask_spec(k)) ==> !pressed_spec(current, mask_spec(k)),
        !(falling_spec(current, previous, mask_spec(k)) && raising_spec(
            current,
            previous,
            mask_spec(k),
        )),
{
    crate::keys::lemma_mask_is_single_bit(k);
    let b = crate::keys::bit_of(k);
    assert(((current & !previous & (1u32 << b) != 0) ==> (current & (1u32 << b) != 0)) && ((
    !current & previous & (1u32 << b) != 0) ==> (current & (1u32 << b) == 0)) && !((current
        & !previous & (1u32 << b) != 0) && (!current & previous & (1u32 << b) != 0)))
        by (bit_vector);
}

/// The keyboard's edge-aware state: the newest scan word and the one before it.
pub struct KeyboardMatrix {
    state: u32,
    prev_state: u32,
}

impl KeyboardMatrix {
    /// The newest scan word.
    pub closed spec fn current(self) -> u32 {
        self.state
    }

    /// The scan word of the scan before the newest one.
    pub closed spec fn previous(self) -> u32 {
        self.prev_state
    }

    /// A fresh state: nothing pressed in either scan word.
    pub fn new() -> (m: KeyboardMatrix)
        ensures
            m.current() == 0,
            m.previous() == 0,
    {
        KeyboardMatrix { state: 0, prev_state: 0 }
    }

    /// The newest scan word.
    pub fn current_word(&self) -> (r: u32)
        ensures
            r == self.current(),
    {
        self.state
    }

    /// The scan word of the scan before the newest one.
    pub fn previous_word(&self) -> (r: u32)
        ensures
            r == self.previous(),
    {
        self.prev_state
    }

    /// Whether the key is held down in the newest scan.
    pub fn pressed(&self, k: Keys) -> (r: bool)
        ensures
            r == pressed_spec(self.current(), mask_spec(k)),
    {
        (self.state & k.mask()) != 0
    }

    /// Whether the key went down between the last two scans.
    pub fn falling(&self, k: Keys) -> (r: bool)
        ensures
            r == falling_spec(self.current(), self.previous(), mask_spec(k)),
    {
        let all_falling = self.state & !self.prev_state;
        (all_falling & k.mask()) != 0
    }

    /// Whether the key came up between the last two scans.
    pub fn raising(&self, k: Keys) -> (r: bool)
        ensures
            r == raising_spec(self.current(), self.previous(), mask_spec(k)),
    {
        let all_raising = !self.state & self.prev_state;
        (all_raising & k.mask()) != 0
    }

    /// Take one pass of row samples, in strobe order, and fold them into the
    /// state: the newest word becomes the previous one, and the samples pack
    /// into the new current word.
    pub fn scan(&mut self, samples: &Vec<bool>)
        requires
            samples@.len() == 30,
        ensures
            final(self).previous() == old(self).current(),
            final(self).current() == word_of(samples@),
    {
        let mut new_state: u32 = 0;
        let n = samples.len();
        for i in iter: 0..n
            invariant
                n == 30,
                samples@.len() == 30,
                new_state == word_of(samples@.take(i as int)),
        {
            proof {
                lemma_word_of_bound(samples@.take(i as int));
                lemma_pow2_strictly_increases(i as nat, 30);
                lemma2_to64();
                assert(samples@.take(i as int).len() == i as int);
            }
            assert(((new_state << 1u32) == new_state * 2) && (((new_state << 1u32) | 1u32)
                == new_state * 2 + 1)) by (bit_vector)
                requires
                    new_state < 0x40000000u32,
            ;
            let shifted = new_state << 1u32;
            new_state = if samples[i] {
                shifted | 1u32
            } else {
                shifted
            };
            proof {
                let t = samples@.take(i + 1);
                assert(t.drop_last() =~= samples@.take(i as int));
                assert(t.last() == samples@[i as int]);
            }
        }
        proof {
            assert(samples@.take(30) =~= samples@);
        }
        self.prev_state = self.state;
        self.state = new_state;
    }
}

} // verus!
