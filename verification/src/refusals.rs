//! Which refused uploads are reported: each reason once for a size.

use crate::atlas::CopyRefusal;
use crate::geometry::{DevicePixels, Size};
use vstd::prelude::*;

verus! {

/// Why an upload from another texture is refused.
#[derive(Clone, Copy, Debug, PartialEq, Eq, Structural)]
pub enum UploadRefusal {
    /// The texture cannot be copied.
    Copy(CopyRefusal),
    /// No tile could be taken.
    NoRoom,
}

/// A refusal of an upload of a size.
#[derive(Clone, Copy, Debug, PartialEq, Eq, Structural)]
pub struct Refusal {
    pub reason: UploadRefusal,
    pub size: Size<DevicePixels>,
}

/// The refusals that were reported, each of which is reported once.
#[derive(Debug)]
pub struct RefusalLog {
    reported: Vec<Refusal>,
}

impl View for RefusalLog {
    type V = Seq<Refusal>;

    closed spec fn view(&self) -> Seq<Refusal> {
        self.reported@
    }
}

/// The refusals reported so far, once there was another one.
pub open spec fn reported(so_far: Seq<Refusal>, refusal: Refusal) -> Seq<Refusal> {
    if so_far.contains(refusal) {
        so_far
    } else {
        so_far.push(refusal)
    }
}

/// The refusals reported so far, once there were some others.
pub open spec fn reported_all(so_far: Seq<Refusal>, refusals: Seq<Refusal>) -> Seq<Refusal>
    decreases refusals.len(),
{
    if refusals.len() == 0 {
        so_far
    } else {
        reported(reported_all(so_far, refusals.drop_last()), refusals.last())
    }
}

impl RefusalLog {
    /// A log in which nothing was reported.
    pub fn new() -> (result: Self)
        ensures
            result@ == Seq::<Refusal>::empty(),
    {
        RefusalLog { reported: Vec::new() }
    }

    /// Whether a refusal is to be reported now: only if the same reason was not
    /// reported for the same size before.
    pub fn report(&mut self, reason: UploadRefusal, size: Size<DevicePixels>) -> (result: bool)
        ensures
            result == !old(self)@.contains(Refusal { reason, size }),
            final(self)@ == reported(old(self)@, Refusal { reason, size }),
            final(self)@.contains(Refusal { reason, size }),
    {
        let refusal = Refusal { reason, size };
        let mut index: usize = 0;
        while index < self.reported.len()
            invariant
                index <= self.reported.len(),
                refusal == (Refusal { reason, size }),
                self@ == old(self)@,
                forall|i: int| 0 <= i < index ==> (#[trigger] self@[i]) != refusal,
            decreases self.reported.len() - index,
        {
            if self.reported[index] == refusal {
                assert(self@[index as int] == refusal);
                return false;
            }
            index = index + 1;
        }
        assert(!old(self)@.contains(refusal));
        self.reported.push(refusal);
        assert(self@.last() == refusal);
        true
    }
}

/// Law: a reason that was reported for a size is never reported again for it,
/// whatever else is refused in between; and no refusal is reported twice.
pub proof fn lemma_refusal_is_reported_once(
    so_far: Seq<Refusal>,
    refusal: Refusal,
    others: Seq<Refusal>,
)
    ensures
        reported_all(reported(so_far, refusal), others).contains(refusal),
        reported(reported_all(reported(so_far, refusal), others), refusal) == reported_all(
            reported(so_far, refusal),
            others,
        ),
        so_far.no_duplicates() ==> reported_all(
            reported(so_far, refusal),
            others,
        ).no_duplicates(),
    decreases others.len(),
{
    if others.len() == 0 {
        if !so_far.contains(refusal) {
            assert(so_far.push(refusal)[so_far.len() as int] == refusal);
        }
    } else {
        lemma_refusal_is_reported_once(so_far, refusal, others.drop_last());
        let before = reported_all(reported(so_far, refusal), others.drop_last());
        let i = choose|i: int| 0 <= i < before.len() && before[i] == refusal;
        assert(reported(before, others.last())[i] == refusal);
    }
}

/// Law: the refusals reported are those that were reported and the new one; what was
/// reported stays where it is.
pub proof fn lemma_reported_adds_one_refusal(so_far: Seq<Refusal>, refusal: Refusal, other: Refusal)
    ensures
        reported(so_far, refusal).contains(other) <==> so_far.contains(other) || other == refusal,
        so_far.is_prefix_of(reported(so_far, refusal)),
{
    if !so_far.contains(refusal) {
        let after = so_far.push(refusal);
        assert(after[so_far.len() as int] == refusal);
        if so_far.contains(other) {
            let i = choose|i: int| 0 <= i < so_far.len() && so_far[i] == other;
            assert(after[i] == other);
        }
        if after.contains(other) && other != refusal {
            let i = choose|i: int| 0 <= i < after.len() && after[i] == other;
            assert(so_far[i] == other);
        }
    }
}

} // verus!
