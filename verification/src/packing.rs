//! Packing of rectangles into a texture.

use crate::geometry::{DevicePixels, Point, Size};
use etagere::{AllocId, BucketedAtlasAllocator};
use vstd::prelude::*;

verus! {

/// The largest texture that Direct3D 11 makes, on either axis.
pub const MAX_ATLAS_SIZE: i32 = 16384;

/// The allocator that packs rectangles into a texture: the
/// `BucketedAtlasAllocator` of the crate `etagere`.
#[verifier::external_type_specification]
#[verifier::external_body]
pub struct ExBucketedAtlasAllocator(BucketedAtlasAllocator);

/// A rectangle of texels from `min` up to, but without, `max`.
#[derive(Clone, Copy, Debug, PartialEq, Eq, Structural)]
pub struct PackedRect {
    pub min: Point<DevicePixels>,
    pub max: Point<DevicePixels>,
}

/// A rectangle and the number by which the allocator knows it.
#[derive(Clone, Copy, Debug, PartialEq, Eq, Structural)]
pub struct Packed {
    pub id: u32,
    pub rect: PackedRect,
}

impl PackedRect {
    /// Whether the rectangles have no texel in common.
    pub open spec fn apart(self, other: Self) -> bool {
        ||| self.max.x.0 <= other.min.x.0
        ||| other.max.x.0 <= self.min.x.0
        ||| self.max.y.0 <= other.min.y.0
        ||| other.max.y.0 <= self.min.y.0
    }

    /// Whether the rectangle lies in a texture of the given size.
    pub open spec fn inside(self, size: Size<DevicePixels>) -> bool {
        &&& 0 <= self.min.x.0 <= self.max.x.0 <= size.width.0
        &&& 0 <= self.min.y.0 <= self.max.y.0 <= size.height.0
    }

    /// Whether an image of the given size fits from the rectangle's first
    /// corner on.
    pub open spec fn offers(self, size: Size<DevicePixels>) -> bool {
        &&& self.min.x.0 + size.width.0 <= self.max.x.0
        &&& self.min.y.0 + size.height.0 <= self.max.y.0
    }
}

/// The rectangles that an allocator holds, by number.
pub uninterp spec fn held(allocator: BucketedAtlasAllocator) -> Map<u32, PackedRect>;

/// What an allocator holds at first.
pub open spec fn nothing_held() -> Map<u32, PackedRect> {
    Map::empty()
}

/// What the buckets of an allocator have counted at first.
pub open spec fn nothing_counted() -> Map<u32, nat> {
    Map::empty()
}

/// The size of the texture that an allocator packs, which it was made with.
pub uninterp spec fn extent(allocator: BucketedAtlasAllocator) -> Size<DevicePixels>;

/// The bucket of the allocator that a rectangle of this number is from.
pub open spec fn bucket(id: u32) -> u32 {
    id % 0x1000
}

/// The bucket that a rectangle of this number is from, and how often the bucket
/// had been made anew, in 8 bits, when it handed the rectangle out: the number
/// without the bucket's own count of rectangles.
pub open spec fn stem(id: u32) -> u32 {
    (id % 0x1000 + id / 0x0100_0000 * 0x0100_0000) as u32
}

/// How many rectangles each bucket has handed out since it was last made, those
/// given back included, by the stem of their numbers.
pub uninterp spec fn counts(allocator: BucketedAtlasAllocator) -> Map<u32, nat>;

/// The count of a stem, which is 0 where there is none.
pub open spec fn count_of(counts: Map<u32, nat>, stem: u32) -> nat {
    match counts.get(stem) {
        Some(count) => count,
        None => 0,
    }
}

/// The most rectangles that a bucket counts.
pub const MAX_COUNT: u32 = 0xFFFF;

/// Where an allocator would put a rectangle of the given size, if it finds
/// room.
pub uninterp spec fn placement(
    allocator: BucketedAtlasAllocator,
    size: Size<DevicePixels>,
) -> Option<Packed>;

/// Whether a request has extent and is no larger than a texture.
pub open spec fn fits(size: Size<DevicePixels>, extent: Size<DevicePixels>) -> bool {
    &&& 0 < size.width.0 <= extent.width.0
    &&& 0 < size.height.0 <= extent.height.0
}

/// An allocator for a texture of the given size.
///
/// This is `BucketedAtlasAllocator::new`. The allocator holds nothing and has no
/// bucket yet, and its first request finds room if it is no larger than
/// the texture. The size is bounded by the largest texture, well below what
/// makes the call panic.
#[verifier::external_body]
pub(crate) fn new_allocator(size: Size<DevicePixels>) -> (result: BucketedAtlasAllocator)
    requires
        0 < size.width.0 <= MAX_ATLAS_SIZE,
        0 < size.height.0 <= MAX_ATLAS_SIZE,
    ensures
        held(result) == nothing_held(),
        extent(result) == size,
        counts(result) == nothing_counted(),
        forall|request: Size<DevicePixels>|
            fits(request, size) ==> (#[trigger] placement(result, request)) is Some,
{
    BucketedAtlasAllocator::new(etagere::Size::new(size.width.0, size.height.0))
}

/// Takes a rectangle of the given size, if there is room.
///
/// This is `BucketedAtlasAllocator::allocate`. What it returns is a function of
/// the allocator and the size. A rectangle that it finds has a number that no
/// other rectangle held has, lies in the texture, is at least as large as asked
/// for, and has no texel in common with a rectangle held. Nothing empty and
/// nothing larger than the texture finds room; an allocator that finds none
/// stays as it is. It never holds as many as two to the power of 24 rectangles:
/// fewer than 4096 buckets hold fewer than 4096 each.
///
/// A bucket counts in 16 bits the rectangles that it has handed out since it was
/// last made. The bucket's number and how often it was made are parts of the
/// number of a rectangle. The count may overflow, which can panic, so an
/// allocator with a bucket that has counted as far as it can is asked for
/// nothing: which bucket a request will go to cannot be known beforehand. A
/// request counts in one bucket; it may make others anew, which then count from
/// 0.
///
/// Left unsaid: where room is found.
#[verifier::external_body]
pub(crate) fn allocate_rect(
    allocator: &mut BucketedAtlasAllocator,
    size: Size<DevicePixels>,
) -> (result: Option<Packed>)
    requires
        forall|s: u32| #[trigger] count_of(counts(*old(allocator)), s) < MAX_COUNT,
    ensures
        result == placement(*old(allocator), size),
        match result {
            Some(packed) => {
                &&& fits(size, extent(*old(allocator)))
                &&& !held(*old(allocator)).contains_key(packed.id)
                &&& packed.rect.inside(extent(*old(allocator)))
                &&& packed.rect.offers(size)
                &&& forall|id: u32| #[trigger]
                    held(*old(allocator)).contains_key(id) ==> packed.rect.apart(
                        held(*old(allocator))[id],
                    )
                &&& held(*final(allocator)) == held(*old(allocator)).insert(packed.id, packed.rect)
                &&& extent(*final(allocator)) == extent(*old(allocator))
                &&& held(*final(allocator)).len() < 0x0100_0000
                &&& count_of(counts(*final(allocator)), stem(packed.id)) == count_of(
                    counts(*old(allocator)),
                    stem(packed.id),
                ) + 1
                &&& forall|s: u32|
                    s != stem(packed.id) && bucket(s) == bucket(packed.id) ==> #[trigger] count_of(
                        counts(*final(allocator)),
                        s,
                    ) == 0
                &&& forall|s: u32|
                    bucket(s) != bucket(packed.id) ==> #[trigger] count_of(
                        counts(*final(allocator)),
                        s,
                    ) <= count_of(counts(*old(allocator)), s)
            },
            None => *final(allocator) == *old(allocator),
        },
{
    match allocator.allocate(etagere::Size::new(size.width.0, size.height.0)) {
        Some(allocation) => {
            let (min, max) = (allocation.rectangle.min, allocation.rectangle.max);
            Some(Packed {
                id: allocation.id.serialize(),
                rect: PackedRect {
                    min: Point { x: DevicePixels(min.x), y: DevicePixels(min.y) },
                    max: Point { x: DevicePixels(max.x), y: DevicePixels(max.y) },
                },
            })
        },
        None => None,
    }
}

/// Gives a rectangle back.
///
/// This is `BucketedAtlasAllocator::deallocate`, which panics on a number that
/// it does not know. The allocator holds one rectangle less, and its buckets
/// have counted as far as before.
#[verifier::external_body]
pub(crate) fn deallocate_rect(allocator: &mut BucketedAtlasAllocator, id: u32)
    requires
        held(*old(allocator)).contains_key(id),
    ensures
        held(*final(allocator)) == held(*old(allocator)).remove(id),
        extent(*final(allocator)) == extent(*old(allocator)),
        counts(*final(allocator)) == counts(*old(allocator)),
{
    allocator.deallocate(AllocId::deserialize(id));
}

/// Whether rectangles lie in a texture of the given size and have no texel in
/// common.
pub open spec fn packed_soundly(
    rects: Map<u32, PackedRect>,
    size: Size<DevicePixels>,
) -> bool {
    &&& rects.dom().finite()
    &&& forall|id: u32| #[trigger] rects.contains_key(id) ==> rects[id].inside(size)
    &&& forall|a: u32, b: u32|
        #[trigger] rects.contains_key(a) && #[trigger] rects.contains_key(b) && a != b
            ==> rects[a].apart(rects[b])
}

} // verus!
