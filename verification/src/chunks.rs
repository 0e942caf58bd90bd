//! A value as the words that hold it.
//!
//! A cell's storage is read and written one machine word at a time. This
//! module cuts a pattern into its words, least significant first, and puts
//! words together again.
use vstd::prelude::*;
use crate::kind::IntKind;

verus! {

/// The width of a machine word.
#[derive(Clone, Copy, Debug, PartialEq, Eq, Structural)]
pub enum WordSize {
    /// 32 bits.
    W32,
    /// 64 bits.
    W64,
}

impl WordSize {
    /// The width in bits.
    pub open spec fn bits(self) -> nat {
        match self {
            WordSize::W32 => 32,
            WordSize::W64 => 64,
        }
    }

    /// The word with every bit set.
    pub open spec fn mask(self) -> u128 {
        match self {
            WordSize::W32 => 0xffff_ffff,
            WordSize::W64 => 0xffff_ffff_ffff_ffff,
        }
    }

    /// The width in bits.
    pub fn width(self) -> (w: u32)
        ensures
            w == self.bits(),
    {
        match self {
            WordSize::W32 => 32,
            WordSize::W64 => 64,
        }
    }

    /// The word with every bit set.
    pub fn all_ones(self) -> (m: u128)
        ensures
            m == self.mask(),
    {
        match self {
            WordSize::W32 => 0xffff_ffff,
            WordSize::W64 => 0xffff_ffff_ffff_ffff,
        }
    }
}

/// The number of words that hold a value of type `kind`.
pub open spec fn word_count(kind: IntKind, word: WordSize) -> nat {
    kind.bits() / word.bits()
}

/// Word `i` of the pattern `raw`, counted from the least significant.
pub open spec fn word_at(raw: u128, word: WordSize, i: nat) -> u64 {
    ((raw >> ((i * word.bits()) as u32)) & word.mask()) as u64
}

/// The words of the pattern `raw` of type `kind`.
pub open spec fn split_spec(raw: u128, kind: IntKind, word: WordSize) -> Seq<u64> {
    Seq::new(word_count(kind, word), |i: int| word_at(raw, word, i as nat))
}

/// The pattern that `words` hold, the least significant word first.
pub open spec fn join_spec(words: Seq<u64>, word: WordSize) -> u128
    decreases words.len(),
{
    if words.len() == 0 {
        0
    } else {
        join_spec(words.drop_last(), word) | ((words.last() as u128) << (((words.len() - 1)
            * word.bits()) as u32))
    }
}

/// The number of words that hold a value of type `kind`.
pub fn count_words(kind: IntKind, word: WordSize) -> (n: usize)
    ensures
        n == word_count(kind, word),
        1 <= n <= 4,
{
    match (kind, word) {
        (IntKind::I64, WordSize::W32) | (IntKind::U64, WordSize::W32) => 2,
        (IntKind::I64, WordSize::W64) | (IntKind::U64, WordSize::W64) => 1,
        (IntKind::I128, WordSize::W32) | (IntKind::U128, WordSize::W32) => 4,
        (IntKind::I128, WordSize::W64) | (IntKind::U128, WordSize::W64) => 2,
    }
}

/// The first `i` words of a value take `i` times the word's width, and all
/// the words of a value take the value's width.
pub proof fn lemma_words_fit(kind: IntKind, word: WordSize, i: nat)
    requires
        i <= word_count(kind, word),
    ensures
        i * word.bits() <= kind.bits(),
        word_count(kind, word) * word.bits() == kind.bits(),
        kind.bits() <= 128,
        i < word_count(kind, word) ==> i * word.bits() + word.bits() <= 128,
{
    let w = word.bits();
    let n = word_count(kind, word);
    assert(n * w == kind.bits()) by {
        if w == 32 {
            assert(n == kind.bits() / 32);
        } else {
            assert(n == kind.bits() / 64);
        }
    }
    assert(i * w <= n * w) by (nonlinear_arith)
        requires
            i <= n,
            w >= 0,
    ;
    if i < n {
        assert((i + 1) * w <= n * w) by (nonlinear_arith)
            requires
                i + 1 <= n,
                w >= 0,
        ;
        assert((i + 1) * w == i * w + w) by (nonlinear_arith);
    }
}

/// Takes word `i` out of the pattern `raw`.
pub fn extract(raw: u128, word: WordSize, i: usize) -> (w: u64)
    requires
        i * word.bits() < 128,
    ensures
        w == word_at(raw, word, i as nat),
        w <= word.mask(),
{
    let shift: u32 = (i as u32) * word.width();
    let masked: u128 = (raw >> shift) & word.all_ones();
    proof {
        let s = raw >> shift;
        assert(s & 0xffff_ffffu128 <= 0xffff_ffffu128) by (bit_vector);
        assert(s & 0xffff_ffff_ffff_ffffu128 <= 0xffff_ffff_ffff_ffffu128) by (bit_vector);
    }
    masked as u64
}

/// Puts the word `w` into place `i` of the pattern `acc`, whose bits at that
/// place and above are still zero as long as the words are put in order.
pub fn append_word(acc: u128, word: WordSize, i: usize, w: u64) -> (raw: u128)
    requires
        i * word.bits() < 128,
    ensures
        raw == acc | ((w as u128) << ((i * word.bits()) as u32)),
{
    let shift: u32 = (i as u32) * word.width();
    acc | ((w as u128) << shift)
}

/// Cuts the pattern `raw` of type `kind` into its words.
pub fn split(raw: u128, kind: IntKind, word: WordSize) -> (words: Vec<u64>)
    ensures
        words@ == split_spec(raw, kind, word),
{
    let n = count_words(kind, word);
    let mut words: Vec<u64> = Vec::new();
    let mut i: usize = 0;
    while i < n
        invariant
            i <= n,
            n == word_count(kind, word),
            words@.len() == i,
            forall|j: int| 0 <= j < i ==> words@[j] == word_at(raw, word, j as nat),
        decreases n - i,
    {
        words.push(extract(raw, word, i));
        i = i + 1;
    }
    assert(words@ =~= split_spec(raw, kind, word));
    words
}

/// Puts `words` together into the pattern they hold.
pub fn join(words: &Vec<u64>, word: WordSize) -> (raw: u128)
    requires
        words@.len() * word.bits() <= 128,
    ensures
        raw == join_spec(words@, word),
{
    let mut raw: u128 = 0;
    let mut i: usize = 0;
    while i < words.len()
        invariant
            i <= words@.len(),
            words@.len() * word.bits() <= 128,
            raw == join_spec(words@.take(i as int), word),
        decreases words@.len() - i,
    {
        proof {
            let next = words@.take(i + 1);
            assert(next.drop_last() =~= words@.take(i as int));
            assert(next.last() == words@[i as int]);
            assert(i * word.bits() < 128) by (nonlinear_arith)
                requires
                    i < words@.len(),
                    words@.len() * word.bits() <= 128,
                    word.bits() > 0,
            ;
        }
        raw = append_word(raw, word, i, words[i]);
        i = i + 1;
    }
    assert(words@.take(i as int) =~= words@);
    raw
}

/// The words of a pattern, put together, are the pattern.
pub proof fn lemma_join_split(raw: u128, kind: IntKind, word: WordSize)
    requires
        kind.holds(raw),
    ensures
        join_spec(split_spec(raw, kind, word), word) == raw,
{
    let words = split_spec(raw, kind, word);
    let w0 = words.take(0);
    let w1 = words.take(1);
    let w2 = words.take(2);
    let w3 = words.take(3);
    let w4 = words.take(4);
    assert(join_spec(w0, word) == 0);
    if words.len() >= 1 {
        assert(w1.drop_last() =~= w0);
        assert(join_spec(w1, word) == 0u128 | ((words[0] as u128) << 0u32));
    }
    if words.len() >= 2 {
        assert(w2.drop_last() =~= w1);
        assert(join_spec(w2, word) == join_spec(w1, word) | ((words[1] as u128) << (word.bits() as u32)));
    }
    if words.len() >= 3 {
        assert(w3.drop_last() =~= w2);
        assert(join_spec(w3, word) == join_spec(w2, word) | ((words[2] as u128) << ((2
            * word.bits()) as u32)));
    }
    if words.len() >= 4 {
        assert(w4.drop_last() =~= w3);
        assert(join_spec(w4, word) == join_spec(w3, word) | ((words[3] as u128) << ((3
            * word.bits()) as u32)));
    }
    assert(words.take(words.len() as int) =~= words);
    match word {
        WordSize::W32 => {
            if kind.bits() == 64 {
                assert(raw <= 0xffff_ffff_ffff_ffffu128 ==> ((0u128 | ((((raw >> 0u32)
                    & 0xffff_ffffu128) as u64) as u128) << 0u32) | ((((raw >> 32u32)
                    & 0xffff_ffffu128) as u64) as u128) << 32u32) == raw) by (bit_vector);
            } else {
                assert(((((0u128 | ((((raw >> 0u32) & 0xffff_ffffu128) as u64) as u128) << 0u32)
                    | ((((raw >> 32u32) & 0xffff_ffffu128) as u64) as u128) << 32u32) | ((((raw
                    >> 64u32) & 0xffff_ffffu128) as u64) as u128) << 64u32) | ((((raw >> 96u32)
                    & 0xffff_ffffu128) as u64) as u128) << 96u32) == raw) by (bit_vector);
            }
        },
        WordSize::W64 => {
            if kind.bits() == 64 {
                assert(raw <= 0xffff_ffff_ffff_ffffu128 ==> (0u128 | ((((raw >> 0u32)
                    & 0xffff_ffff_ffff_ffffu128) as u64) as u128) << 0u32) == raw)
                    by (bit_vector);
            } else {
                assert(((0u128 | ((((raw >> 0u32) & 0xffff_ffff_ffff_ffffu128) as u64) as u128)
                    << 0u32) | ((((raw >> 64u32) & 0xffff_ffff_ffff_ffffu128) as u64) as u128)
                    << 64u32) == raw) by (bit_vector);
            }
        },
    }
}

} // verus!
