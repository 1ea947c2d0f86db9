//! How far the buckets of a texture's packer have counted.

use crate::packing::{bucket, count_of, stem, MAX_COUNT};
use std::collections::HashMap;
use vstd::prelude::*;

verus! {

broadcast use vstd::std_specs::hash::group_hash_axioms;

/// How far a bucket has counted since it was last made, so that rectangles of
/// this stem are from it.
#[derive(Clone, Copy, Debug, PartialEq, Eq, Structural)]
pub struct BucketCount {
    pub stem: u32,
    pub count: u32,
}

/// How far each bucket has counted, as the numbers of its rectangles tell.
pub struct BucketCounts {
    by_bucket: HashMap<u32, BucketCount>,
    full: bool,
}

/// What [`BucketCounts`] hold.
#[verifier::ext_equal]
pub struct CountsModel {
    pub by_bucket: Map<u32, BucketCount>,
    /// Whether a bucket has counted as far as it can.
    pub full: bool,
}

impl View for BucketCounts {
    type V = CountsModel;

    closed spec fn view(&self) -> CountsModel {
        CountsModel { by_bucket: self.by_bucket@, full: self.full }
    }
}

impl CountsModel {
    /// Where no bucket has counted anything.
    pub open spec fn empty() -> Self {
        CountsModel { by_bucket: Map::empty(), full: false }
    }

    /// How far a bucket has counted once it has handed out a rectangle. One that
    /// was made anew counts from the start.
    pub open spec fn next_count(self, id: u32) -> int {
        match self.by_bucket.get(bucket(id)) {
            Some(known) => if known.stem == stem(id) {
                known.count + 1
            } else {
                1
            },
            None => 1,
        }
    }

    /// The counts once a bucket has handed out a rectangle.
    pub open spec fn with(self, id: u32) -> Self {
        let count = self.next_count(id);
        CountsModel {
            by_bucket: self.by_bucket.insert(
                bucket(id),
                BucketCount { stem: stem(id), count: count as u32 },
            ),
            full: count >= MAX_COUNT,
        }
    }

    /// Whether no bucket has counted further than this says, and none as far as
    /// it can unless this says so.
    pub open spec fn bounds(self, counts: Map<u32, nat>) -> bool {
        &&& forall|s: u32| #[trigger] count_of(counts, s) > 0 ==> {
            &&& self.by_bucket.contains_key(bucket(s))
            &&& self.by_bucket[bucket(s)].stem == s
            &&& count_of(counts, s) <= self.by_bucket[bucket(s)].count
        }
        &&& self.bounded()
    }

    /// Whether no bucket has counted as far as it can unless this says so.
    pub open spec fn bounded(self) -> bool {
        !self.full ==> forall|b: u32| #[trigger]
            self.by_bucket.contains_key(b) ==> self.by_bucket[b].count < MAX_COUNT
    }
}

impl BucketCounts {
    /// Where no bucket has counted anything.
    pub fn new() -> (result: Self)
        ensures
            result@ == CountsModel::empty(),
    {
        BucketCounts { by_bucket: HashMap::new(), full: false }
    }

    /// Whether a bucket has counted as far as it can.
    pub fn is_full(&self) -> (result: bool)
        ensures
            result == self@.full,
    {
        self.full
    }

    /// Counts a rectangle that a bucket has handed out.
    pub fn count(&mut self, id: u32)
        requires
            old(self)@.bounded(),
            !old(self)@.full,
        ensures
            final(self)@ == old(self)@.with(id),
            final(self)@.bounded(),
    {
        let in_bucket: u32 = id % 0x1000;
        let stem: u32 = id % 0x1000 + id / 0x0100_0000 * 0x0100_0000;
        let count: u32 = match self.by_bucket.get(&in_bucket) {
            Some(known) => {
                if known.stem == stem {
                    assert(self@.by_bucket.contains_key(in_bucket));
                    known.count + 1
                } else {
                    1
                }
            },
            None => 1,
        };
        self.by_bucket.insert(in_bucket, BucketCount { stem, count });
        self.full = count >= MAX_COUNT;
        assert(self@ =~= old(self)@.with(id));
    }
}

/// Law: a rectangle counts for its own bucket and no other. A bucket that goes on counts
/// one further, one that was made anew counts one, and the counts are full exactly if
/// that one has counted as far as it can.
pub proof fn lemma_counting_is_by_bucket(counts: CountsModel, id: u32, other: u32)
    requires
        counts.bounded(),
        !counts.full,
    ensures
        other != bucket(id) ==> counts.with(id).by_bucket.get(other) == counts.by_bucket.get(other),
        counts.with(id).by_bucket.contains_key(bucket(id)),
        counts.with(id).by_bucket[bucket(id)].stem == stem(id),
        counts.by_bucket.contains_key(bucket(id)) && counts.by_bucket[bucket(id)].stem == stem(id)
            ==> counts.with(id).by_bucket[bucket(id)].count == counts.by_bucket[bucket(id)].count
            + 1,
        counts.by_bucket.contains_key(bucket(id)) && counts.by_bucket[bucket(id)].stem != stem(id)
            ==> counts.with(id).by_bucket[bucket(id)].count == 1,
        !counts.by_bucket.contains_key(bucket(id)) ==> counts.with(
            id,
        ).by_bucket[bucket(id)].count == 1,
        counts.with(id).full <==> counts.with(id).by_bucket[bucket(id)].count >= MAX_COUNT,
        CountsModel::empty().by_bucket == Map::<u32, BucketCount>::empty(),
        !CountsModel::empty().full,
{
}

} // verus!
