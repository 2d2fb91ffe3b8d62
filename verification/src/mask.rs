//! Fixed-size bit vector selecting syscall numbers, in the kernel's layout:
//! little-endian 32-bit words, word-major (syscall `nr` lives in word
//! `nr / 32` at bit `nr % 32`).

use vstd::prelude::*;

verus! {

/// Number of 32-bit words in the kernel's syscall selection bitmask.
pub const AUDIT_BITMASK_SIZE: usize = 64;

/// Number of selectable syscall bits: 32 bits per word.
pub const AUDIT_SYSCALL_BITS: u32 = 2048;

/// Whether bit `b` (0 <= b < 32) of word `w` is set.
pub open spec fn word_bit(w: u32, b: u32) -> bool {
    (w >> b) & 1u32 == 1u32
}

/// Whether syscall number `nr` is selected by the word sequence `words`.
pub open spec fn mask_sel(words: Seq<u32>, nr: int) -> bool
    recommends
        0 <= nr < 32 * words.len(),
{
    word_bit(words[nr / 32], (nr % 32) as u32)
}

/// Syscall selection bitmask backed by a fixed count of machine words.
///
/// An empty selection (no syscall restriction) and a full selection are both
/// representable; out-of-range `set` is a no-op, mirroring kernel truncation.
#[derive(Clone, Debug, PartialEq, Eq)]
pub struct SyscallMask {
    words: Vec<u32>,
}

impl View for SyscallMask {
    type V = Seq<u32>;

    closed spec fn view(&self) -> Seq<u32> {
        self.words@
    }
}

impl SyscallMask {
    /// The backing word count is fixed.
    pub open spec fn wf(&self) -> bool {
        self@.len() == AUDIT_BITMASK_SIZE
    }

    /// A mask with no syscall selected.
    pub fn select_none() -> (r: Self)
        ensures
            r.wf(),
            forall|nr: int| 0 <= nr < AUDIT_SYSCALL_BITS ==> !mask_sel(r@, nr),
    {
        let mut words: Vec<u32> = Vec::new();
        let mut i: usize = 0;
        while i < AUDIT_BITMASK_SIZE
            invariant
                i <= AUDIT_BITMASK_SIZE,
                words@.len() == i,
                forall|j: int| 0 <= j < i ==> words@[j] == 0u32,
            decreases AUDIT_BITMASK_SIZE - i,
        {
            words.push(0u32);
            i = i + 1;
        }
        proof {
            assert forall|nr: int| 0 <= nr < AUDIT_SYSCALL_BITS implies !mask_sel(
                words@,
                nr,
            ) by {
                assert(0 <= nr / 32 < 64 && 0 <= nr % 32 < 32);
                let b = (nr % 32) as u32;
                assert(!word_bit(0u32, b)) by (bit_vector);
            }
        }
        SyscallMask { words }
    }

    /// A mask with every syscall selected.
    pub fn select_all() -> (r: Self)
        ensures
            r.wf(),
            forall|nr: int| 0 <= nr < AUDIT_SYSCALL_BITS ==> mask_sel(r@, nr),
    {
        let mut words: Vec<u32> = Vec::new();
        let mut i: usize = 0;
        while i < AUDIT_BITMASK_SIZE
            invariant
                i <= AUDIT_BITMASK_SIZE,
                words@.len() == i,
                forall|j: int| 0 <= j < i ==> words@[j] == 0xffff_ffffu32,
            decreases AUDIT_BITMASK_SIZE - i,
        {
            words.push(0xffff_ffffu32);
            i = i + 1;
        }
        proof {
            assert forall|nr: int| 0 <= nr < AUDIT_SYSCALL_BITS implies mask_sel(
                words@,
                nr,
            ) by {
                assert(0 <= nr / 32 < 64 && 0 <= nr % 32 < 32);
                let b = (nr % 32) as u32;
                assert(b < 32 ==> word_bit(0xffff_ffffu32, b)) by (bit_vector);
            }
        }
        SyscallMask { words }
    }

    /// Select syscall `nr`; numbers past the mask's range are ignored.
    pub fn set(&mut self, nr: u32)
        requires
            old(self).wf(),
        ensures
            final(self).wf(),
            nr >= AUDIT_SYSCALL_BITS ==> final(self)@ == old(self)@,
            nr < AUDIT_SYSCALL_BITS ==> forall|j: int|
                0 <= j < AUDIT_SYSCALL_BITS ==> mask_sel(final(self)@, j) == (mask_sel(
                    old(self)@,
                    j,
                ) || j == nr),
    {
        if nr < AUDIT_SYSCALL_BITS {
            let w: usize = (nr / 32) as usize;
            let b: u32 = nr % 32;
            let ghost before = self.words@;
            let updated: u32 = self.words[w] | (1u32 << b);
            self.words[w] = updated;
            proof {
                assert forall|j: int| 0 <= j < AUDIT_SYSCALL_BITS implies mask_sel(
                    self@,
                    j,
                ) == (mask_sel(old(self)@, j) || j == nr) by {
                    assert(old(self)@ == before);
                    assert(self@ == self.words@);
                    let jw = j / 32;
                    let jb = (j % 32) as u32;
                    assert(0 <= jw < 64 && jb < 32);
                    assert(j == 32 * jw + jb);
                    assert(nr as int == 32 * (nr as int / 32) + (nr as int % 32));
                    let old_word = before[jw];
                    if jw == w as int {
                        assert(self.words@[jw] == old_word | (1u32 << b));
                        assert(b < 32 && jb < 32 ==> (word_bit(old_word | (1u32 << b), jb) == (
                        word_bit(old_word, jb) || jb == b))) by (bit_vector);
                        assert((j == nr) == (jb == b));
                    } else {
                        assert(self.words@[jw] == old_word);
                        assert(j != nr);
                    }
                }
            }
        }
    }

    /// Whether syscall `nr` is selected; numbers past the range are never selected.
    pub fn test(&self, nr: u32) -> (r: bool)
        requires
            self.wf(),
        ensures
            r == (nr < AUDIT_SYSCALL_BITS && mask_sel(self@, nr as int)),
    {
        if nr < AUDIT_SYSCALL_BITS {
            let w: usize = (nr / 32) as usize;
            let b: u32 = nr % 32;
            (self.words[w] >> b) & 1u32 == 1u32
        } else {
            false
        }
    }

    /// Bitwise merge: every syscall selected by either operand becomes selected.
    pub fn merge(&mut self, other: &SyscallMask)
        requires
            old(self).wf(),
            other.wf(),
        ensures
            final(self).wf(),
            forall|j: int|
                0 <= j < AUDIT_SYSCALL_BITS ==> mask_sel(final(self)@, j) == (mask_sel(
                    old(self)@,
                    j,
                ) || mask_sel(other@, j)),
    {
        let ghost before = self.words@;
        let mut i: usize = 0;
        while i < AUDIT_BITMASK_SIZE
            invariant
                i <= AUDIT_BITMASK_SIZE,
                self.words@.len() == AUDIT_BITMASK_SIZE,
                other.wf(),
                before.len() == AUDIT_BITMASK_SIZE,
                forall|k: int| 0 <= k < i ==> self.words@[k] == before[k] | other@[k],
                forall|k: int| i <= k < AUDIT_BITMASK_SIZE ==> self.words@[k] == before[k],
            decreases AUDIT_BITMASK_SIZE - i,
        {
            let merged: u32 = self.words[i] | other.words[i];
            self.words[i] = merged;
            i = i + 1;
        }
        proof {
            assert forall|j: int| 0 <= j < AUDIT_SYSCALL_BITS implies mask_sel(
                self.words@,
                j,
            ) == (mask_sel(before, j) || mask_sel(other@, j)) by {
                let jw = j / 32;
                let jb = (j % 32) as u32;
                assert(0 <= jw < 64 && jb < 32);
                let a = before[jw];
                let b = other@[jw];
                assert(self.words@[jw] == a | b);
                assert(jb < 32 ==> (word_bit(a | b, jb) == (word_bit(a, jb) || word_bit(b, jb))))
                    by (bit_vector);
            }
        }
    }

    /// Words of the mask, in wire order.
    pub fn word(&self, i: usize) -> (r: u32)
        requires
            self.wf(),
            i < AUDIT_BITMASK_SIZE,
        ensures
            r == self@[i as int],
    {
        self.words[i]
    }

    /// Number of backing words.
    pub fn word_count(&self) -> (r: usize)
        ensures
            r == self@.len(),
    {
        self.words.len()
    }

    /// Build a mask directly from its backing words.
    pub fn from_words(words: Vec<u32>) -> (r: Self)
        requires
            words@.len() == AUDIT_BITMASK_SIZE,
        ensures
            r.wf(),
            r@ == words@,
    {
        SyscallMask { words }
    }
}

/// After clearing a mask and then selecting exactly syscall `k`, `test`
/// holds of `k` and of no other valid syscall number: the two hypotheses
/// are the contracts of `select_none` and `set`.
pub proof fn lemma_set_isolates(empty: Seq<u32>, after: Seq<u32>, k: int, j: int)
    requires
        forall|i: int| 0 <= i < AUDIT_SYSCALL_BITS ==> !mask_sel(empty, i),
        forall|i: int|
            0 <= i < AUDIT_SYSCALL_BITS ==> mask_sel(after, i) == (mask_sel(empty, i) || i == k),
        0 <= k < AUDIT_SYSCALL_BITS,
        0 <= j < AUDIT_SYSCALL_BITS,
    ensures
        mask_sel(after, j) == (j == k),
{
}

} // verus!
