//! Fixed-capacity bit vector over an array of 64-bit words, used by the
//! component stores to track which entity slots currently hold a live value.

use vstd::prelude::*;

verus! {

/// How many slots a bitset tracks.
pub const BITSET_BIT_COUNT: usize = 65536;

/// How many 64-bit words back a bitset.
pub const BITSET_WORD_COUNT: usize = 1024;

/// Number of 64-bit words needed to track `BITSET_BIT_COUNT` slots.
pub fn bitset_word_count() -> (n: usize)
    ensures
        n == BITSET_WORD_COUNT,
{
    BITSET_BIT_COUNT / 64
}

/// A fixed-capacity bit vector: bit `i` records whether slot `i` is live.
pub struct Bitset {
    words: Vec<u64>,
}

impl Bitset {
    /// The backing array has exactly `BITSET_WORD_COUNT` words.
    pub closed spec fn wf(&self) -> bool {
        self.words@.len() == BITSET_WORD_COUNT
    }

    /// Whether bit `n` is set.
    pub closed spec fn spec_bit(&self, n: int) -> bool {
        (self.words@[n / 64] >> ((n % 64) as u64)) & 1u64 == 1u64
    }

    /// The raw word at index `i`.
    pub closed spec fn spec_word(&self, i: int) -> u64 {
        self.words@[i]
    }

    /// A bitset with every bit clear.
    pub fn new() -> (r: Self)
        ensures
            r.wf(),
            forall|n: int| 0 <= n < BITSET_BIT_COUNT ==> !r.spec_bit(n),
            forall|i: int| 0 <= i < BITSET_WORD_COUNT ==> r.spec_word(i) == 0u64,
    {
        let words: Vec<u64> = vec![0u64; BITSET_WORD_COUNT];
        let r = Bitset { words };
        proof {
            assert forall|n: int| 0 <= n < BITSET_BIT_COUNT implies !r.spec_bit(n) by {
                let j = (n % 64) as u64;
                assert((0u64 >> j) & 1u64 == 0u64) by (bit_vector);
            }
        }
        r
    }

    /// Sets bit `nth`, leaving every other bit as it was.
    pub fn set_bit(&mut self, nth: usize)
        requires
            old(self).wf(),
            nth < BITSET_BIT_COUNT,
        ensures
            final(self).wf(),
            final(self).spec_bit(nth as int),
            final(self).spec_word(nth as int / 64) == old(self).spec_word(nth as int / 64) | (
            1u64 << ((nth % 64) as u64)),
            forall|n: int|
                0 <= n < BITSET_BIT_COUNT && n != nth ==> final(self).spec_bit(n) == old(
                    self,
                ).spec_bit(n),
            forall|i: int|
                0 <= i < BITSET_WORD_COUNT && i != nth as int / 64 ==> final(self).spec_word(i)
                    == old(self).spec_word(i),
    {
        let word_index: usize = nth >> 6;
        let bit: u64 = (nth & 63) as u64;
        proof {
            lemma_word_and_bit(nth as u64);
        }
        let w = self.words[word_index];
        self.words[word_index] = w | (1u64 << bit);
        proof {
            assert(((w | (1u64 << bit)) >> bit) & 1u64 == 1u64) by (bit_vector)
                requires
                    bit < 64,
            ;
            assert forall|n: int|
                0 <= n < BITSET_BIT_COUNT && n != nth implies self.spec_bit(n) == old(
                self,
            ).spec_bit(n) by {
                if n / 64 == nth as int / 64 {
                    let j = (n % 64) as u64;
                    assert(((w | (1u64 << bit)) >> j) & 1u64 == (w >> j) & 1u64) by (bit_vector)
                        requires
                            bit < 64,
                            j < 64,
                            bit != j,
                    ;
                }
            }
        }
    }

    /// Clears bit `nth`, leaving every other bit as it was.
    pub fn unset_bit(&mut self, nth: usize)
        requires
            old(self).wf(),
            nth < BITSET_BIT_COUNT,
        ensures
            final(self).wf(),
            !final(self).spec_bit(nth as int),
            final(self).spec_word(nth as int / 64) == old(self).spec_word(nth as int / 64) & !(
            1u64 << ((nth % 64) as u64)),
            forall|n: int|
                0 <= n < BITSET_BIT_COUNT && n != nth ==> final(self).spec_bit(n) == old(
                    self,
                ).spec_bit(n),
            forall|i: int|
                0 <= i < BITSET_WORD_COUNT && i != nth as int / 64 ==> final(self).spec_word(i)
                    == old(self).spec_word(i),
    {
        let word_index: usize = nth >> 6;
        let bit: u64 = (nth & 63) as u64;
        proof {
            lemma_word_and_bit(nth as u64);
        }
        let w = self.words[word_index];
        self.words[word_index] = w & !(1u64 << bit);
        proof {
            assert(((w & !(1u64 << bit)) >> bit) & 1u64 == 0u64) by (bit_vector)
                requires
                    bit < 64,
            ;
            assert forall|n: int|
                0 <= n < BITSET_BIT_COUNT && n != nth implies self.spec_bit(n) == old(
                self,
            ).spec_bit(n) by {
                if n / 64 == nth as int / 64 {
                    let j = (n % 64) as u64;
                    assert(((w & !(1u64 << bit)) >> j) & 1u64 == (w >> j) & 1u64) by (bit_vector)
                        requires
                            bit < 64,
                            j < 64,
                            bit != j,
                    ;
                }
            }
        }
    }

    /// Reads bit `nth`.
    pub fn bit(&self, nth: usize) -> (r: bool)
        requires
            self.wf(),
            nth < BITSET_BIT_COUNT,
        ensures
            r == self.spec_bit(nth as int),
    {
        let word_index: usize = nth >> 6;
        let bit: u64 = (nth & 63) as u64;
        proof {
            lemma_word_and_bit(nth as u64);
        }
        (self.words[word_index] >> bit) & 1u64 == 1u64
    }

    /// Reads the raw word at index `i`.
    pub fn word(&self, i: usize) -> (r: u64)
        requires
            self.wf(),
            i < BITSET_WORD_COUNT,
        ensures
            r == self.spec_word(i as int),
    {
        self.words[i]
    }
}

/// `nth >> 6` is the word index and `nth & 63` the bit offset of slot `nth`.
proof fn lemma_word_and_bit(nth: u64)
    requires
        nth < 65536,
    ensures
        nth >> 6 == nth / 64,
        nth >> 6 < 1024,
        nth & 63 == nth % 64,
        nth & 63 < 64,
{
    assert(nth >> 6 == nth / 64 && nth & 63 == nth % 64 && (nth < 65536 ==> nth >> 6 < 1024) && nth
        & 63 < 64) by (bit_vector);
}

} // verus!
