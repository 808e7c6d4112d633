//! The filter controller: owns the bit store and the hash-strategy
//! sequence, exposes insert/check/clear and the stat queries, and tracks
//! the insertion counter.

use vstd::prelude::*;
use vstd::arithmetic::div_mod::lemma_mod_bound;
use crate::bits::{bit_vec_fill, bit_vec_get, bit_vec_len, bit_vec_repeat, bit_vec_set, bits_of, BitArray};
use crate::hashing::{
    base_hash, palette_alg, palette_entry, spec_strategy_hash, strategy_hash, HashAlgorithm,
};

verus! {

/// Errors that can occur when constructing a Bloom filter.
#[derive(Debug)]
pub enum BloomFilterError {
    /// The size of the bit store must be greater than 0.
    InvalidSize,
    /// The number of hash functions must be greater than 0.
    InvalidHashCount,
    /// Reserved for arithmetic overflow during capacity calculations;
    /// no current operation produces it.
    Overflow,
}

/// A Bloom filter: a fixed-length bit store, a cyclic sequence of hash
/// strategies, and a counter of insertions. A membership check answers
/// "possibly a member" or "definitely not a member": false positives are
/// possible, false negatives are not.
pub struct BloomFilter {
    /// Bit array representing the filter.
    buckets: BitArray,
    /// The hash strategy used at each probe position.
    hash_algorithms: Vec<HashAlgorithm>,
    /// Number of items inserted into the filter.
    item_count: u64,
}

impl BloomFilter {
    /// The bit store's flags, in index order.
    pub closed spec fn spec_bits(&self) -> Seq<bool> {
        bits_of(self.buckets)
    }

    /// The hash strategy at each probe position.
    pub closed spec fn spec_algs(&self) -> Seq<HashAlgorithm> {
        self.hash_algorithms@
    }

    /// The number of insertions since construction or the last clear.
    pub closed spec fn spec_count(&self) -> u64 {
        self.item_count
    }

    /// The number of buckets.
    pub open spec fn spec_capacity(&self) -> nat {
        self.spec_bits().len()
    }

    /// The number of probes per insertion or check.
    pub open spec fn spec_hash_count(&self) -> nat {
        self.spec_algs().len()
    }

    /// Well-formedness: at least one bucket, at least one probe, and the
    /// strategy sequence follows the cyclic palette. The constructor
    /// establishes this and every method preserves it.
    pub open spec fn wf(&self) -> bool {
        &&& self.spec_capacity() > 0
        &&& self.spec_hash_count() > 0
        &&& forall|j: int|
            0 <= j < self.spec_hash_count() ==> self.spec_algs()[j] == palette_alg(j)
    }

    /// The bucket index probed for base hash `base` at position `j`:
    /// the strategy's 64-bit hash, reduced modulo the bucket count.
    pub open spec fn spec_index_at(&self, base: u64, j: int) -> int {
        ((spec_strategy_hash(base, self.spec_algs()[j]) as usize) as int)
            % (self.spec_capacity() as int)
    }

    /// Every bucket probed for base hash `base` is occupied.
    pub open spec fn spec_contains(&self, base: u64) -> bool {
        forall|j: int|
            0 <= j < self.spec_hash_count() ==> self.spec_bits()[#[trigger] self.spec_index_at(
                base,
                j,
            )]
    }
}

/// Exactly how inserting base hash `b` transforms a filter: the capacity
/// and strategies are kept, the counter grows by one, and a bucket is
/// occupied afterward if and only if it was occupied before or is probed
/// for `b`.
pub open spec fn spec_insert_rel(pre: BloomFilter, post: BloomFilter, b: u64) -> bool {
    &&& post.spec_capacity() == pre.spec_capacity()
    &&& post.spec_algs() == pre.spec_algs()
    &&& post.spec_count() == pre.spec_count() + 1
    &&& forall|i: int|
        0 <= i < pre.spec_capacity() ==> #[trigger] post.spec_bits()[i] == (pre.spec_bits()[i]
            || exists|j: int| 0 <= j < pre.spec_hash_count() && i == #[trigger] pre.spec_index_at(
            b,
            j,
        ))
}

/// Every probe index lies within the bit store.
proof fn lemma_index_in_range(f: &BloomFilter, base: u64, j: int)
    requires
        f.wf(),
        0 <= j < f.spec_hash_count(),
    ensures
        0 <= f.spec_index_at(base, j) < f.spec_capacity(),
{
    lemma_mod_bound(
        (spec_strategy_hash(base, f.spec_algs()[j]) as usize) as int,
        f.spec_capacity() as int,
    );
}

impl BloomFilter {
    /// Creates a new Bloom filter with `size` buckets and `hash_count`
    /// probes per value. Rejects a zero size and a zero probe count; on
    /// success the bit store is all unoccupied, the strategy sequence
    /// cycles the palette, and the counter is zero.
    pub fn new(size: usize, hash_count: usize) -> (r: Result<BloomFilter, BloomFilterError>)
        requires
            size <= usize::MAX / 8,
        ensures
            r is Ok <==> (size > 0 && hash_count > 0),
            size == 0 ==> r == Err::<BloomFilter, BloomFilterError>(BloomFilterError::InvalidSize),
            size > 0 && hash_count == 0 ==> r == Err::<BloomFilter, BloomFilterError>(
                BloomFilterError::InvalidHashCount,
            ),
            r matches Ok(f) ==> {
                &&& f.wf()
                &&& f.spec_capacity() == size
                &&& f.spec_hash_count() == hash_count
                &&& f.spec_count() == 0
                &&& forall|i: int| 0 <= i < size ==> !f.spec_bits()[i]
            },
    {
        if size == 0 {
            return Err(BloomFilterError::InvalidSize);
        }
        if hash_count == 0 {
            return Err(BloomFilterError::InvalidHashCount);
        }
        let buckets = bit_vec_repeat(false, size);
        let mut hash_algorithms: Vec<HashAlgorithm> = Vec::new();
        let mut j: usize = 0;
        while j < hash_count
            invariant
                j <= hash_count,
                hash_algorithms@.len() == j,
                forall|i: int| 0 <= i < j ==> hash_algorithms@[i] == palette_alg(i),
            decreases hash_count - j,
        {
            let a = palette_entry(j);
            hash_algorithms.push(a);
            j = j + 1;
        }
        Ok(BloomFilter { buckets, hash_algorithms, item_count: 0 })
    }

    /// Inserts a value by its precomputed base hash: occupies the bucket
    /// probed at every position, then increments the insertion counter.
    pub fn insert_hashed(&mut self, base: u64)
        requires
            old(self).wf(),
            old(self).spec_count() < u64::MAX,
        ensures
            final(self).wf(),
            spec_insert_rel(*old(self), *final(self), base),
    {
        let ghost pre = *self;
        let m = bit_vec_len(&self.buckets);
        let k = self.hash_algorithms.len();
        let mut j: usize = 0;
        while j < k
            invariant
                pre.wf(),
                j <= k,
                k == pre.spec_hash_count(),
                m == pre.spec_capacity(),
                self.hash_algorithms@ == pre.spec_algs(),
                self.item_count == pre.spec_count(),
                self.spec_bits().len() == pre.spec_capacity(),
                forall|i: int|
                    0 <= i < pre.spec_capacity() ==> #[trigger] self.spec_bits()[i] == (
                    pre.spec_bits()[i] || exists|jj: int|
                        0 <= jj < j && i == #[trigger] pre.spec_index_at(base, jj)),
            decreases k - j,
        {
            let alg = self.hash_algorithms[j];
            let h = strategy_hash(base, alg);
            let index = (h as usize) % m;
            proof {
                lemma_index_in_range(&pre, base, j as int);
                assert(index as int == pre.spec_index_at(base, j as int));
            }
            bit_vec_set(&mut self.buckets, index, true);
            proof {
                assert forall|i: int|
                    0 <= i < pre.spec_capacity() implies #[trigger] self.spec_bits()[i] == (
                pre.spec_bits()[i] || exists|jj: int|
                    0 <= jj < j + 1 && i == #[trigger] pre.spec_index_at(base, jj)) by {
                    if i == index as int {
                        assert(0 <= j < j + 1 && i == pre.spec_index_at(base, j as int));
                    }
                }
            }
            j = j + 1;
        }
        self.item_count = self.item_count + 1;
    }

    /// Checks a value by its precomputed base hash: reports whether every
    /// bucket probed for it is occupied.
    pub fn check_hashed(&self, base: u64) -> (r: bool)
        requires
            self.wf(),
        ensures
            r == self.spec_contains(base),
    {
        let m = bit_vec_len(&self.buckets);
        let k = self.hash_algorithms.len();
        let mut j: usize = 0;
        while j < k
            invariant
                self.wf(),
                j <= k,
                k == self.spec_hash_count(),
                m == self.spec_capacity(),
                forall|jj: int|
                    0 <= jj < j ==> self.spec_bits()[#[trigger] self.spec_index_at(base, jj)],
            decreases k - j,
        {
            let alg = self.hash_algorithms[j];
            let h = strategy_hash(base, alg);
            let index = (h as usize) % m;
            proof {
                lemma_index_in_range(self, base, j as int);
                assert(index as int == self.spec_index_at(base, j as int));
            }
            if !bit_vec_get(&self.buckets, index) {
                proof {
                    assert(!self.spec_bits()[self.spec_index_at(base, j as int)]);
                }
                return false;
            }
            j = j + 1;
        }
        true
    }

    /// The bucket index probed at `position` for a value's base hash.
    pub fn bloom_hash(&self, base: u64, position: usize) -> (r: usize)
        requires
            self.wf(),
            position < self.spec_hash_count(),
        ensures
            r == self.spec_index_at(base, position as int),
            r < self.spec_capacity(),
    {
        let m = bit_vec_len(&self.buckets);
        let alg = self.hash_algorithms[position];
        let h = strategy_hash(base, alg);
        proof {
            lemma_index_in_range(self, base, position as int);
        }
        (h as usize) % m
    }

    /// Inserts an element into the Bloom filter: occupies one bucket per
    /// probe position for the element's base hash and increments the
    /// insertion counter. Which buckets are occupied depends on the base
    /// hash the standard hasher computes, so the contract states what
    /// holds for every possible base hash.
    pub fn insert<T: core::hash::Hash>(&mut self, word: &T)
        requires
            old(self).wf(),
            old(self).spec_count() < u64::MAX,
        ensures
            final(self).wf(),
            final(self).spec_capacity() == old(self).spec_capacity(),
            final(self).spec_hash_count() == old(self).spec_hash_count(),
            final(self).spec_algs() == old(self).spec_algs(),
            final(self).spec_count() == old(self).spec_count() + 1,
            forall|i: int|
                0 <= i < old(self).spec_capacity() && old(self).spec_bits()[i]
                    ==> final(self).spec_bits()[i],
            exists|b: u64| spec_insert_rel(*old(self), *final(self), b),
    {
        let base = base_hash(word);
        self.insert_hashed(base);
        proof {
            assert(spec_insert_rel(*old(self), *self, base));
        }
    }

    /// Checks if an element is possibly in the set: reports `true` only
    /// when every bucket probed for the element's base hash is occupied.
    /// A `false` answer is definitive; in particular, a filter whose
    /// buckets are all unoccupied answers `false` for every element.
    pub fn check<T: core::hash::Hash>(&self, word: &T) -> (r: bool)
        requires
            self.wf(),
        ensures
            exists|b: u64| r == self.spec_contains(b),
            (forall|i: int| 0 <= i < self.spec_capacity() ==> !self.spec_bits()[i]) ==> !r,
            (forall|i: int| 0 <= i < self.spec_capacity() ==> self.spec_bits()[i]) ==> r,
    {
        let base = base_hash(word);
        let r = self.check_hashed(base);
        proof {
            assert(r == self.spec_contains(base));
            if forall|i: int| 0 <= i < self.spec_capacity() ==> !self.spec_bits()[i] {
                lemma_unknown_by_default(self, base);
            }
            if forall|i: int| 0 <= i < self.spec_capacity() ==> self.spec_bits()[i] {
                lemma_saturated_contains_all(self, base);
            }
        }
        r
    }

    /// Clears the filter: every bucket becomes unoccupied and the
    /// insertion counter returns to zero. Idempotent.
    pub fn clear(&mut self)
        requires
            old(self).wf(),
        ensures
            final(self).wf(),
            final(self).spec_capacity() == old(self).spec_capacity(),
            final(self).spec_hash_count() == old(self).spec_hash_count(),
            final(self).spec_algs() == old(self).spec_algs(),
            final(self).spec_count() == 0,
            forall|i: int| 0 <= i < final(self).spec_capacity() ==> !final(self).spec_bits()[i],
    {
        bit_vec_fill(&mut self.buckets, false);
        self.item_count = 0;
    }

    /// Returns the capacity of the Bloom filter: the number of buckets,
    /// fixed at construction.
    pub fn capacity(&self) -> (r: usize)
        ensures
            r == self.spec_capacity(),
    {
        bit_vec_len(&self.buckets)
    }

    /// Returns the number of elements inserted since construction or the
    /// last clear (duplicates counted each time).
    pub fn len(&self) -> (r: u64)
        ensures
            r == self.spec_count(),
    {
        self.item_count
    }

    /// Checks if the Bloom filter has had no insertions since
    /// construction or the last clear.
    pub fn is_empty(&self) -> (r: bool)
        ensures
            r == (self.spec_count() == 0),
    {
        self.item_count == 0
    }

    /// Returns the number of hash probes per insertion or check, fixed at
    /// construction.
    pub fn hash_count(&self) -> (r: usize)
        ensures
            r == self.spec_hash_count(),
    {
        self.hash_algorithms.len()
    }
}

/// Law: no false negatives. A value just inserted is found: after
/// inserting base hash `b`, a membership check for `b` reports true.
pub proof fn lemma_no_false_negative_after_insert(pre: BloomFilter, post: BloomFilter, b: u64)
    requires
        pre.wf(),
        spec_insert_rel(pre, post, b),
    ensures
        post.spec_contains(b),
{
    assert forall|j: int|
        0 <= j < post.spec_hash_count() implies post.spec_bits()[#[trigger] post.spec_index_at(
        b,
        j,
    )] by {
        lemma_index_in_range(&pre, b, j);
        assert(post.spec_index_at(b, j) == pre.spec_index_at(b, j));
        let i = pre.spec_index_at(b, j);
        assert(0 <= j < pre.spec_hash_count() && i == pre.spec_index_at(b, j));
        assert(post.spec_bits()[i]);
    }
}

/// Law: no false negatives, continued. A membership report survives
/// further insertions: if a check for base hash `b` reports true, it
/// still reports true after any other base hash is inserted.
pub proof fn lemma_insert_preserves_membership(
    pre: BloomFilter,
    post: BloomFilter,
    b: u64,
    other: u64,
)
    requires
        pre.wf(),
        pre.spec_contains(b),
        spec_insert_rel(pre, post, other),
    ensures
        post.spec_contains(b),
{
    assert forall|j: int|
        0 <= j < post.spec_hash_count() implies post.spec_bits()[#[trigger] post.spec_index_at(
        b,
        j,
    )] by {
        lemma_index_in_range(&pre, b, j);
        assert(post.spec_index_at(b, j) == pre.spec_index_at(b, j));
        assert(pre.spec_bits()[pre.spec_index_at(b, j)]);
    }
}

/// Law: unknown by default. A filter whose buckets are all unoccupied —
/// freshly constructed, or just cleared — contains no base hash, so every
/// membership check reports false.
pub proof fn lemma_unknown_by_default(f: &BloomFilter, b: u64)
    requires
        f.wf(),
        forall|i: int| 0 <= i < f.spec_capacity() ==> !f.spec_bits()[i],
    ensures
        !f.spec_contains(b),
{
    lemma_index_in_range(f, b, 0);
    assert(!f.spec_bits()[f.spec_index_at(b, 0)]);
}

/// The filter `end` is reached from `start` by inserting each base hash
/// of `bs`, in order, with no clear in between.
pub open spec fn spec_inserts_rel(start: BloomFilter, end: BloomFilter, bs: Seq<u64>) -> bool
    decreases bs.len(),
{
    if bs.len() == 0 {
        end == start
    } else {
        exists|mid: BloomFilter|
            #[trigger] spec_insert_rel(start, mid, bs[0]) && spec_inserts_rel(
                mid,
                end,
                bs.drop_first(),
            )
    }
}

/// One insertion keeps a filter well-formed.
pub proof fn lemma_insert_rel_preserves_wf(pre: BloomFilter, post: BloomFilter, b: u64)
    requires
        pre.wf(),
        spec_insert_rel(pre, post, b),
    ensures
        post.wf(),
{
    assert(post.spec_algs().len() == pre.spec_algs().len());
    assert forall|j: int|
        0 <= j < post.spec_hash_count() implies post.spec_algs()[j] == palette_alg(j) by {
        assert(post.spec_algs()[j] == pre.spec_algs()[j]);
    }
}

/// Law: counter accuracy. Over any run of insertions — duplicates
/// counted like any other — the insertion counter grows by exactly the
/// number of calls, so a filter built fresh reports a length equal to
/// the number of values inserted and is empty exactly when that number
/// is zero.
pub proof fn lemma_counter_accuracy(start: BloomFilter, end: BloomFilter, bs: Seq<u64>)
    requires
        start.wf(),
        spec_inserts_rel(start, end, bs),
    ensures
        end.spec_count() == start.spec_count() + bs.len(),
        end.wf(),
    decreases bs.len(),
{
    if bs.len() > 0 {
        let mid = choose|mid: BloomFilter|
            #[trigger] spec_insert_rel(start, mid, bs[0]) && spec_inserts_rel(
                mid,
                end,
                bs.drop_first(),
            );
        lemma_insert_rel_preserves_wf(start, mid, bs[0]);
        lemma_counter_accuracy(mid, end, bs.drop_first());
    }
}

/// A membership report survives any run of further insertions.
pub proof fn lemma_inserts_preserve_membership(
    start: BloomFilter,
    end: BloomFilter,
    bs: Seq<u64>,
    b: u64,
)
    requires
        start.wf(),
        start.spec_contains(b),
        spec_inserts_rel(start, end, bs),
    ensures
        end.spec_contains(b),
    decreases bs.len(),
{
    if bs.len() > 0 {
        let mid = choose|mid: BloomFilter|
            #[trigger] spec_insert_rel(start, mid, bs[0]) && spec_inserts_rel(
                mid,
                end,
                bs.drop_first(),
            );
        lemma_insert_rel_preserves_wf(start, mid, bs[0]);
        lemma_insert_preserves_membership(start, mid, b, bs[0]);
        lemma_inserts_preserve_membership(mid, end, bs.drop_first(), b);
    }
}

/// Law: no false negatives. Over any run of insertions with no clear in
/// between, every base hash that was inserted is contained in the final
/// filter, so a membership check for it reports true.
pub proof fn lemma_no_false_negatives(
    start: BloomFilter,
    end: BloomFilter,
    bs: Seq<u64>,
    idx: int,
)
    requires
        start.wf(),
        spec_inserts_rel(start, end, bs),
        0 <= idx < bs.len(),
    ensures
        end.spec_contains(bs[idx]),
    decreases bs.len(),
{
    let mid = choose|mid: BloomFilter|
        #[trigger] spec_insert_rel(start, mid, bs[0]) && spec_inserts_rel(
            mid,
            end,
            bs.drop_first(),
        );
    lemma_insert_rel_preserves_wf(start, mid, bs[0]);
    if idx == 0 {
        lemma_no_false_negative_after_insert(start, mid, bs[0]);
        lemma_inserts_preserve_membership(mid, end, bs.drop_first(), bs[0]);
    } else {
        lemma_no_false_negatives(mid, end, bs.drop_first(), idx - 1);
        assert(bs.drop_first()[idx - 1] == bs[idx]);
    }
}

/// Law: a saturated filter reports every base hash as possibly a member —
/// once all buckets are occupied, no check can report false.
pub proof fn lemma_saturated_contains_all(f: &BloomFilter, b: u64)
    requires
        f.wf(),
        forall|i: int| 0 <= i < f.spec_capacity() ==> f.spec_bits()[i],
    ensures
        f.spec_contains(b),
{
    assert forall|j: int|
        0 <= j < f.spec_hash_count() implies f.spec_bits()[#[trigger] f.spec_index_at(b, j)] by {
        lemma_index_in_range(f, b, j);
    }
}

} // verus!
