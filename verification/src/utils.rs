//! Small utilities: identifiers, string hashing, power-of-two and alignment
//! arithmetic, and a growable bit set.

use vstd::prelude::*;
use std::hash::{Hash, Hasher};

verus! {

/// A 64-bit identifier.
#[derive(Debug, Clone, Copy, PartialEq, Eq, Hash, Structural)]
pub struct Id(u64);

/// `uuid::Uuid::new_v4` as a 128-bit integer.
///
/// The uuid crate masks a random value so that the version nibble (bits
/// 76..80) reads 4 and the variant bits (62..64) read `0b10`; that is all
/// this contract claims, the remaining bits are random.
#[verifier::external_body]
pub(crate) fn random_uuid_bits() -> (r: u128)
    ensures
        (r >> 76u128) & 0xfu128 == 4u128,
        (r >> 62u128) & 3u128 == 2u128,
{
    uuid::Uuid::new_v4().as_u128()
}

impl Id {
    /// The wrapped value.
    pub closed spec fn value(self) -> u64 {
        self.0
    }

    /// Identifiers are equal exactly when their values are; with
    /// `from_u64` and `as_u64` this makes `Id::from_u64(a) == Id::from_u64(b)`
    /// hold exactly when `a == b`.
    pub proof fn lemma_value_identifies(a: Id, b: Id)
        ensures
            a.value() == b.value() <==> a == b,
    {
    }

    /// A fresh random identifier: the low 64 bits of a random version-4
    /// UUID, so its top two bits read `0b10`.
    pub fn new() -> (r: Self)
        ensures
            r.value() >> 62u64 == 2u64,
    {
        let bits = random_uuid_bits();
        let low = bits as u64;
        assert(low >> 62u64 == 2u64) by (bit_vector)
            requires
                (bits >> 62u128) & 3u128 == 2u128,
                low == bits as u64,
        ;
        Id(low)
    }

    /// The identifier holding `value`.
    pub fn from_u64(value: u64) -> (r: Self)
        ensures
            r.value() == value,
    {
        Id(value)
    }

    /// The wrapped value.
    pub fn as_u64(&self) -> (r: u64)
        ensures
            r == self.value(),
    {
        self.0
    }
}

impl Default for Id {
    fn default() -> (r: Self)
        ensures
            r.value() >> 62u64 == 2u64,
    {
        Id::new()
    }
}

/// What `hash_string` returns for a string: the `DefaultHasher` (SipHash,
/// fixed keys) digest of the string as `Hash` feeds it.
pub uninterp spec fn string_hash(s: Seq<char>) -> u64;

/// Hashes a string with `std::collections::hash_map::DefaultHasher`.
///
/// The contract claims only that the result is determined by the string's
/// characters: std fixes the keys of `DefaultHasher::new`, but not its
/// algorithm across releases, so no closed form is stated.
#[verifier::external_body]
pub fn hash_string(s: &str) -> (r: u64)
    ensures
        r == string_hash(s@),
{
    let mut hasher = std::collections::hash_map::DefaultHasher::new();
    s.hash(&mut hasher);
    hasher.finish()
}

/// `x` is a power of two (exactly one bit set).
pub open spec fn is_power_of_two_u32(x: u32) -> bool {
    x != 0 && (x & ((x - 1) as u32)) == 0
}

/// `x` is a power of two (exactly one bit set).
pub open spec fn is_power_of_two_usize(x: usize) -> bool {
    x != 0 && (x & ((x - 1) as usize)) == 0
}

/// Rounds `n` up to the next power of two; zero is rounded to one.
///
/// The result is the smallest power of two that is at least `n`.
pub fn next_power_of_two(n: u32) -> (r: u32)
    requires
        n <= 0x8000_0000,
    ensures
        is_power_of_two_u32(r),
        r >= n,
        r == 1 || r / 2 < n,
{
    if n == 0 {
        assert(is_power_of_two_u32(1)) by (bit_vector);
        return 1;
    }
    let mut m: u32 = n - 1;
    m = m | (m >> 1);
    m = m | (m >> 2);
    m = m | (m >> 4);
    m = m | (m >> 8);
    m = m | (m >> 16);
    assert(m < 0xffff_ffff && is_power_of_two_u32((m + 1) as u32) && m + 1 >= n
        && (m + 1 == 1 || (m + 1) / 2 < n)) by (bit_vector)
        requires
            1 <= n <= 0x8000_0000,
            m == ({
                let a = (n - 1) as u32;
                let b = a | (a >> 1);
                let c = b | (b >> 2);
                let d = c | (c >> 4);
                let e = d | (d >> 8);
                e | (e >> 16)
            }),
    ;
    m + 1
}

/// Rounds `value` up with the mask `!(alignment - 1)`.
///
/// For a power-of-two `alignment` this is the smallest value not below
/// `value` whose bits under `alignment` are all clear.
pub fn align_up(value: usize, alignment: usize) -> (r: usize)
    requires
        alignment > 0,
        value + alignment <= usize::MAX,
    ensures
        r == ((value + alignment - 1) as usize & !((alignment - 1) as usize)),
        is_power_of_two_usize(alignment) ==> r & ((alignment - 1) as usize) == 0 && value <= r && r - value
            < alignment,
{
    let sum: usize = value + alignment - 1;
    let r = sum & !(alignment - 1);
    assert(is_power_of_two_usize(alignment) ==> r & ((alignment - 1) as usize) == 0 && value <= r && r - value
        < alignment) by (bit_vector)
        requires
            alignment > 0,
            sum == value + alignment - 1,
            r == (sum & !((alignment - 1) as usize)),
    ;
    r
}

/// Rounds `value` down with the mask `!(alignment - 1)`.
///
/// For a power-of-two `alignment` this is the largest value not above
/// `value` whose bits under `alignment` are all clear.
pub fn align_down(value: usize, alignment: usize) -> (r: usize)
    requires
        alignment > 0,
    ensures
        r == (value & !((alignment - 1) as usize)),
        is_power_of_two_usize(alignment) ==> r & ((alignment - 1) as usize) == 0 && r <= value && value - r
            < alignment,
{
    let r = value & !(alignment - 1);
    assert(is_power_of_two_usize(alignment) ==> r & ((alignment - 1) as usize) == 0 && r <= value && value - r
        < alignment) by (bit_vector)
        requires
            alignment > 0,
            r == (value & !((alignment - 1) as usize)),
    ;
    r
}

/// Bit `j` (counted from the least significant end) of the word `w`.
pub open spec fn word_bit(w: u64, j: int) -> bool {
    (w >> (j as u64)) & 1u64 == 1u64
}

/// Storage grown or shrunk to `words` words: bits that remain keep their
/// value, bits of new words are clear.
pub open spec fn resized_bits(bits: Seq<bool>, words: nat) -> Seq<bool> {
    Seq::new(words * 64, |j: int| j < bits.len() && bits[j])
}

/// The indices below `n` whose bit is set, in increasing order.
pub open spec fn set_indices(bits: Seq<bool>, n: nat) -> Seq<usize>
    decreases n,
{
    if n == 0 {
        Seq::empty()
    } else if bits[n - 1] {
        set_indices(bits, (n - 1) as nat).push((n - 1) as usize)
    } else {
        set_indices(bits, (n - 1) as nat)
    }
}

/// `set_indices` lists exactly the set bits below `n`, in strictly
/// increasing order.
pub proof fn lemma_set_indices(bits: Seq<bool>, n: nat)
    requires
        n <= bits.len(),
        n <= usize::MAX + 1,
    ensures
        forall|k: int|
            0 <= k < set_indices(bits, n).len() ==> {
                let i = #[trigger] set_indices(bits, n)[k];
                i < n && bits[i as int]
            },
        forall|i: int| 0 <= i < n && bits[i] ==> set_indices(bits, n).contains(i as usize),
        forall|a: int, b: int|
            0 <= a < b < set_indices(bits, n).len() ==> set_indices(bits, n)[a] < set_indices(
                bits,
                n,
            )[b],
        set_indices(bits, n).no_duplicates(),
    decreases n,
{
    if n > 0 {
        lemma_set_indices(bits, (n - 1) as nat);
        let prev = set_indices(bits, (n - 1) as nat);
        if bits[n - 1] {
            let cur = prev.push((n - 1) as usize);
            assert(set_indices(bits, n) == cur);
            assert forall|i: int| 0 <= i < n && bits[i] implies cur.contains(i as usize) by {
                if i < n - 1 {
                    assert(prev.contains(i as usize));
                    let k = choose|k: int| 0 <= k < prev.len() && prev[k] == i as usize;
                    assert(cur[k] == i as usize);
                } else {
                    assert(cur[prev.len() as int] == i as usize);
                }
            }
        }
    }
}

/// Number of 64-bit words needed for `n` bits.
pub open spec fn words_for(n: nat) -> nat {
    ((n + 63) / 64) as nat
}

proof fn lemma_bit_or(w: u64, b: u64, j: u64)
    requires
        b < 64,
        j < 64,
    ensures
        word_bit(w | (1u64 << b), j as int) == (j == b || word_bit(w, j as int)),
{
    assert(((w | (1u64 << b)) >> j) & 1u64 == 1u64 <==> (j == b || (w >> j) & 1u64 == 1u64))
        by (bit_vector)
        requires
            b < 64,
            j < 64,
    ;
}

proof fn lemma_bit_and_not(w: u64, b: u64, j: u64)
    requires
        b < 64,
        j < 64,
    ensures
        word_bit(w & !(1u64 << b), j as int) == (j != b && word_bit(w, j as int)),
{
    assert(((w & !(1u64 << b)) >> j) & 1u64 == 1u64 <==> (j != b && (w >> j) & 1u64 == 1u64))
        by (bit_vector)
        requires
            b < 64,
            j < 64,
    ;
}

proof fn lemma_bit_xor(w: u64, b: u64, j: u64)
    requires
        b < 64,
        j < 64,
    ensures
        word_bit(w ^ (1u64 << b), j as int) == (if j == b {
            !word_bit(w, j as int)
        } else {
            word_bit(w, j as int)
        }),
{
    assert(((w ^ (1u64 << b)) >> j) & 1u64 == 1u64 <==> (if j == b {
        (w >> j) & 1u64 != 1u64
    } else {
        (w >> j) & 1u64 == 1u64
    })) by (bit_vector)
        requires
            b < 64,
            j < 64,
    ;
}

proof fn lemma_bit_test(w: u64, b: u64)
    requires
        b < 64,
    ensures
        (w & (1u64 << b) != 0) == word_bit(w, b as int),
{
    assert((w & (1u64 << b) != 0) == ((w >> b) & 1u64 == 1u64)) by (bit_vector)
        requires
            b < 64,
    ;
}

proof fn lemma_zero_word(j: u64)
    requires
        j < 64,
    ensures
        !word_bit(0u64, j as int),
{
    assert((0u64 >> j) & 1u64 != 1u64) by (bit_vector);
}

/// A bit set as its storage, bit by bit, and its length.
pub struct BitSetModel {
    pub bits: Seq<bool>,
    pub len: nat,
}

impl BitSetModel {
    /// The storage covers the length.
    pub open spec fn covers(self) -> bool {
        self.len <= self.bits.len()
    }

    /// Index `i` is within the length and its bit is set.
    pub open spec fn holds(self, i: int) -> bool {
        0 <= i < self.len && self.bits[i]
    }

    /// The set grown to `i + 1` bits when `i` is beyond its length.
    pub open spec fn grown_for(self, i: nat) -> BitSetModel {
        if i < self.len {
            self
        } else {
            BitSetModel { bits: resized_bits(self.bits, words_for(i + 1)), len: i + 1 }
        }
    }

    /// The set after setting bit `i`.
    pub open spec fn with_set(self, i: nat) -> BitSetModel {
        let g = self.grown_for(i);
        BitSetModel { bits: g.bits.update(i as int, true), len: g.len }
    }

    /// The set after clearing bit `i`.
    pub open spec fn with_cleared(self, i: nat) -> BitSetModel {
        if i < self.len {
            BitSetModel { bits: self.bits.update(i as int, false), len: self.len }
        } else {
            self
        }
    }

    /// The set after flipping bit `i`.
    pub open spec fn with_toggled(self, i: nat) -> BitSetModel {
        let g = self.grown_for(i);
        BitSetModel { bits: g.bits.update(i as int, !g.bits[i as int]), len: g.len }
    }
}

proof fn lemma_words_cover(n: nat)
    ensures
        words_for(n) * 64 >= n,
{
    assert(((n + 63) / 64) * 64 >= n) by (nonlinear_arith);
}

proof fn lemma_grown_covers(m: BitSetModel, i: nat)
    requires
        m.covers(),
    ensures
        m.grown_for(i).covers(),
        i < m.grown_for(i).len,
        forall|j: int| 0 <= j < m.len ==> m.grown_for(i).bits[j] == m.bits[j],
{
    lemma_words_cover(i + 1);
}

/// A bit that was set is then reported set.
pub proof fn law_set_then_holds(m: BitSetModel, i: nat)
    requires
        m.covers(),
    ensures
        m.with_set(i).holds(i as int),
        m.with_set(i).covers(),
{
    lemma_grown_covers(m, i);
}

/// A bit that was cleared is then reported clear.
pub proof fn law_clear_then_clear(m: BitSetModel, i: nat)
    requires
        m.covers(),
    ensures
        !m.with_cleared(i).holds(i as int),
{
}

/// Setting, clearing or flipping one bit leaves every other bit within the
/// old length as it was.
pub proof fn law_other_bits_stay(m: BitSetModel, i: nat, j: int)
    requires
        m.covers(),
        0 <= j < m.len,
        j != i,
    ensures
        m.with_set(i).holds(j) == m.holds(j),
        m.with_cleared(i).holds(j) == m.holds(j),
        m.with_toggled(i).holds(j) == m.holds(j),
{
    lemma_grown_covers(m, i);
}

/// Flipping a bit within the length flips just that bit and keeps the
/// length.
pub proof fn law_toggle_flips(m: BitSetModel, i: nat)
    requires
        m.covers(),
        i < m.len,
    ensures
        m.with_toggled(i).holds(i as int) == !m.holds(i as int),
        m.with_toggled(i).len == m.len,
{
}

/// Flipping a bit twice gives back the set, grown to cover that bit.
pub proof fn law_toggle_twice(m: BitSetModel, i: nat)
    requires
        m.covers(),
    ensures
        m.with_toggled(i).with_toggled(i) == m.grown_for(i),
{
    lemma_grown_covers(m, i);
    let g = m.grown_for(i);
    assert(g.bits.update(i as int, !g.bits[i as int]).update(i as int, g.bits[i as int]) =~= g.bits);
}

/// Clearing a bit that setting it turned on gives back the set.
pub proof fn law_clear_undoes_set(m: BitSetModel, i: nat)
    requires
        m.covers(),
        i < m.len,
        !m.bits[i as int],
    ensures
        m.with_set(i).with_cleared(i) == m,
{
    assert(m.bits.update(i as int, true).update(i as int, false) =~= m.bits);
}

/// A growable set of bits with an explicit length.
///
/// Bits at or above the length are never reported as set, but the storage
/// keeps them: shrinking and then growing again brings back bits of words
/// that were kept.
#[derive(Debug, Clone)]
pub struct BitSet {
    data: Vec<u64>,
    len: usize,
}

impl BitSet {
    /// The storage, bit by bit: word `j / 64`, bit `j % 64`.
    pub closed spec fn bits(&self) -> Seq<bool> {
        Seq::new(self.data@.len() * 64, |j: int| word_bit(self.data@[j / 64], j % 64))
    }

    /// The length of the set in bits.
    pub closed spec fn spec_len(&self) -> nat {
        self.len as nat
    }

    /// The storage bits and the length together.
    pub open spec fn model(&self) -> BitSetModel {
        BitSetModel { bits: self.bits(), len: self.spec_len() }
    }

    /// A well-formed set's storage covers its length.
    pub proof fn lemma_model_covers(&self)
        requires
            self.wf(),
        ensures
            self.model().covers(),
    {
        lemma_words_cover(self.spec_len());
    }

    /// The length fits in `usize`.
    pub proof fn lemma_len_bound(&self)
        ensures
            self.spec_len() <= usize::MAX,
    {
    }

    /// The storage holds exactly the words needed for the length.
    pub closed spec fn wf(&self) -> bool {
        self.data@.len() == words_for(self.len as nat)
    }

    /// Index `i` is within the length and its bit is set.
    pub open spec fn contains(&self, i: int) -> bool {
        0 <= i < self.spec_len() && self.bits()[i]
    }

    /// Creates an empty bit set.
    pub fn new() -> (r: Self)
        ensures
            r.wf(),
            r.spec_len() == 0,
            r.bits() == Seq::<bool>::empty(),
    {
        let r = BitSet { data: Vec::new(), len: 0 };
        assert(r.bits() =~= Seq::<bool>::empty());
        r
    }

    /// Creates a bit set of `capacity` clear bits.
    pub fn with_capacity(capacity: usize) -> (r: Self)
        requires
            capacity + 63 <= usize::MAX,
        ensures
            r.wf(),
            r.spec_len() == capacity,
            r.bits() == Seq::new(words_for(capacity as nat) * 64, |j: int| false),
    {
        let words = (capacity + 63) / 64;
        let mut data: Vec<u64> = Vec::new();
        let mut k: usize = 0;
        while k < words
            invariant
                k <= words,
                data@.len() == k,
                forall|m: int| 0 <= m < k ==> data@[m] == 0u64,
            decreases words - k,
        {
            data.push(0u64);
            k = k + 1;
        }
        let r = BitSet { data, len: capacity };
        assert forall|j: int| 0 <= j < r.bits().len() implies !r.bits()[j] by {
            lemma_zero_word((j % 64) as u64);
        }
        assert(r.bits() =~= Seq::new(words_for(capacity as nat) * 64, |j: int| false));
        r
    }

    /// Sets the length to `new_len`, keeping the words that still fit and
    /// adding clear words as needed.
    pub fn resize(&mut self, new_len: usize)
        requires
            old(self).wf(),
            new_len + 63 <= usize::MAX,
        ensures
            final(self).wf(),
            final(self).spec_len() == new_len,
            final(self).bits() == resized_bits(old(self).bits(), words_for(new_len as nat)),
    {
        let new_words = (new_len + 63) / 64;
        let ghost old_data = self.data@;
        if new_words <= self.data.len() {
            self.data.truncate(new_words);
        } else {
            let mut k: usize = self.data.len();
            while k < new_words
                invariant
                    old_data.len() <= k <= new_words,
                    self.data@.len() == k,
                    forall|m: int| 0 <= m < old_data.len() ==> self.data@[m] == old_data[m],
                    forall|m: int| old_data.len() <= m < k ==> self.data@[m] == 0u64,
                decreases new_words - k,
            {
                self.data.push(0u64);
                k = k + 1;
            }
        }
        self.len = new_len;
        let ghost ob = old(self).bits();
        let ghost target = resized_bits(ob, words_for(new_len as nat));
        assert(self.data@.len() == new_words);
        assert(forall|m: int| 0 <= m < self.data@.len() && m < old_data.len() ==> self.data@[m] == old_data[m]);
        assert forall|j: int| 0 <= j < self.bits().len() implies self.bits()[j] == target[j] by {
            assert(0 <= j / 64 < new_words) by (nonlinear_arith)
                requires
                    0 <= j < new_words * 64,
            ;
            assert(self.bits()[j] == word_bit(self.data@[j / 64], j % 64));
            if j < ob.len() {
                assert(j / 64 < old_data.len()) by (nonlinear_arith)
                    requires
                        0 <= j < old_data.len() * 64,
                ;
                assert(ob[j] == word_bit(old_data[j / 64], j % 64));
            } else {
                assert(j / 64 >= old_data.len()) by (nonlinear_arith)
                    requires
                        j >= old_data.len() * 64,
                ;
                lemma_zero_word((j % 64) as u64);
            }
        }
        assert(self.bits() =~= resized_bits(old(self).bits(), words_for(new_len as nat)));
    }

    /// Sets bit `index`, first growing the set to `index + 1` bits when the
    /// index is beyond the length.
    pub fn set(&mut self, index: usize)
        requires
            old(self).wf(),
            index >= old(self).spec_len() ==> index + 64 <= usize::MAX,
        ensures
            final(self).wf(),
            final(self).model() == old(self).model().with_set(index as nat),
            final(self).spec_len() == if index < old(self).spec_len() {
                old(self).spec_len()
            } else {
                (index + 1) as nat
            },
            final(self).bits() == (if index < old(self).spec_len() {
                old(self).bits()
            } else {
                resized_bits(old(self).bits(), words_for((index + 1) as nat))
            }).update(index as int, true),
    {
        if index >= self.len {
            self.resize(index + 1);
        }
        let ghost mid = self.bits();
        let word_index = index / 64;
        let bit_index = index % 64;
        let w = self.data[word_index];
        self.data.set(word_index, w | (1u64 << (bit_index as u64)));
        assert forall|j: int| 0 <= j < self.bits().len() implies self.bits()[j] == mid.update(
            index as int,
            true,
        )[j] by {
            if j / 64 == word_index as int {
                lemma_bit_or(w, bit_index as u64, (j % 64) as u64);
            }
        }
        assert(self.bits() =~= mid.update(index as int, true));
    }

    /// Clears bit `index` when it is within the length; does nothing otherwise.
    pub fn clear(&mut self, index: usize)
        requires
            old(self).wf(),
        ensures
            final(self).wf(),
            final(self).model() == old(self).model().with_cleared(index as nat),
            final(self).spec_len() == old(self).spec_len(),
            final(self).bits() == if index < old(self).spec_len() {
                old(self).bits().update(index as int, false)
            } else {
                old(self).bits()
            },
    {
        if index < self.len {
            let ghost mid = self.bits();
            let word_index = index / 64;
            let bit_index = index % 64;
            let w = self.data[word_index];
            self.data.set(word_index, w & !(1u64 << (bit_index as u64)));
            assert forall|j: int| 0 <= j < self.bits().len() implies self.bits()[j] == mid.update(
                index as int,
                false,
            )[j] by {
                if j / 64 == word_index as int {
                    lemma_bit_and_not(w, bit_index as u64, (j % 64) as u64);
                }
            }
            assert(self.bits() =~= mid.update(index as int, false));
        }
    }

    /// Whether bit `index` is within the length and set.
    pub fn get(&self, index: usize) -> (r: bool)
        requires
            self.wf(),
        ensures
            r == self.contains(index as int),
    {
        if index >= self.len {
            return false;
        }
        let word_index = index / 64;
        let bit_index = index % 64;
        proof {
            lemma_bit_test(self.data@[word_index as int], bit_index as u64);
        }
        (self.data[word_index] & (1u64 << (bit_index as u64))) != 0
    }

    /// Flips bit `index`, first growing the set to `index + 1` bits when the
    /// index is beyond the length.
    pub fn toggle(&mut self, index: usize)
        requires
            old(self).wf(),
            index >= old(self).spec_len() ==> index + 64 <= usize::MAX,
        ensures
            final(self).wf(),
            final(self).model() == old(self).model().with_toggled(index as nat),
            final(self).spec_len() == if index < old(self).spec_len() {
                old(self).spec_len()
            } else {
                (index + 1) as nat
            },
            ({
                let grown = if index < old(self).spec_len() {
                    old(self).bits()
                } else {
                    resized_bits(old(self).bits(), words_for((index + 1) as nat))
                };
                final(self).bits() == grown.update(index as int, !grown[index as int])
            }),
    {
        if index >= self.len {
            self.resize(index + 1);
        }
        let ghost mid = self.bits();
        let word_index = index / 64;
        let bit_index = index % 64;
        let w = self.data[word_index];
        self.data.set(word_index, w ^ (1u64 << (bit_index as u64)));
        assert forall|j: int| 0 <= j < self.bits().len() implies self.bits()[j] == mid.update(
            index as int,
            !mid[index as int],
        )[j] by {
            if j / 64 == word_index as int {
                lemma_bit_xor(w, bit_index as u64, (j % 64) as u64);
            }
        }
        assert(self.bits() =~= mid.update(index as int, !mid[index as int]));
    }

    /// The length in bits.
    pub fn len(&self) -> (r: usize)
        ensures
            r == self.spec_len(),
    {
        self.len
    }

    /// Whether the length is zero.
    pub fn is_empty(&self) -> (r: bool)
        ensures
            r == (self.spec_len() == 0),
    {
        self.len == 0
    }

    /// Clears every stored bit; the length is unchanged.
    pub fn clear_all(&mut self)
        requires
            old(self).wf(),
        ensures
            final(self).wf(),
            final(self).spec_len() == old(self).spec_len(),
            final(self).bits() == Seq::new(old(self).bits().len(), |j: int| false),
    {
        let n = self.data.len();
        let mut k: usize = 0;
        while k < n
            invariant
                k <= n,
                self.data@.len() == n,
                self.len == old(self).len,
                forall|m: int| 0 <= m < k ==> self.data@[m] == 0u64,
            decreases n - k,
        {
            self.data.set(k, 0u64);
            k = k + 1;
        }
        assert forall|j: int| 0 <= j < self.bits().len() implies !self.bits()[j] by {
            lemma_zero_word((j % 64) as u64);
        }
        assert(self.bits() =~= Seq::new(old(self).bits().len(), |j: int| false));
    }

    /// The indices of the set bits below the length, in increasing order.
    pub fn iter_set_bits(&self) -> (r: Vec<usize>)
        requires
            self.wf(),
        ensures
            r@ == set_indices(self.bits(), self.spec_len()),
    {
        let mut r: Vec<usize> = Vec::new();
        let mut i: usize = 0;
        while i < self.len
            invariant
                self.wf(),
                i <= self.len,
                r@ == set_indices(self.bits(), i as nat),
            decreases self.len - i,
        {
            let b = self.get(i);
            assert(set_indices(self.bits(), (i + 1) as nat) == if self.bits()[i as int] {
                set_indices(self.bits(), i as nat).push(i)
            } else {
                set_indices(self.bits(), i as nat)
            });
            if b {
                r.push(i);
            }
            i = i + 1;
        }
        r
    }
}

} // verus!