//! The sprite atlas: which tile of which texture belongs to which key.

use crate::bucket_counts::{BucketCounts, CountsModel};
use crate::geometry::{DeviceBounds, DevicePixels, Size};
use crate::gpu::{
    flat_texture, TexelBox, TextureDesc, BIND_SHADER_RESOURCE, FORMAT_B8G8R8A8_UNORM,
    FORMAT_R8G8B8A8_UNORM, FORMAT_R8_UNORM,
};
use crate::packing::{
    allocate_rect, bucket, count_of, counts, deallocate_rect, extent, fits, held, new_allocator,
    packed_soundly, placement, PackedRect, MAX_ATLAS_SIZE, MAX_COUNT,
};
use crate::tile::{AtlasTextureId, AtlasTextureKind, AtlasTile, TileId};
use etagere::BucketedAtlasAllocator;
use vstd::prelude::*;

verus! {

/// The smallest atlas texture, on either axis.
pub const DEFAULT_ATLAS_SIZE: i32 = 1024;

/// What an image goes by: a number of its own, and the kind of texture that it
/// lives in.
#[derive(Clone, Copy, Debug, PartialEq, Eq, Structural)]
pub struct AtlasKey {
    pub id: u64,
    pub kind: AtlasTextureKind,
}

/// One texture of the atlas.
pub struct AtlasTexture {
    id: AtlasTextureId,
    bytes_per_pixel: u32,
    allocator: BucketedAtlasAllocator,
    /// The number by which the owner of the GPU objects knows this texture.
    resource: u64,
    live_atlas_keys: u32,
    counts: BucketCounts,
}

/// What an [`AtlasTexture`] holds.
pub struct TextureModel {
    pub id: AtlasTextureId,
    pub bytes_per_pixel: u32,
    pub allocator: BucketedAtlasAllocator,
    pub resource: u64,
    pub live_atlas_keys: u32,
    pub counts: CountsModel,
}

impl View for AtlasTexture {
    type V = TextureModel;

    closed spec fn view(&self) -> TextureModel {
        TextureModel {
            id: self.id,
            bytes_per_pixel: self.bytes_per_pixel,
            allocator: self.allocator,
            resource: self.resource,
            live_atlas_keys: self.live_atlas_keys,
            counts: self.counts@,
        }
    }
}

/// The textures of one kind. A texture keeps its slot as long as it lives.
pub struct AtlasTextureList {
    textures: Vec<Option<AtlasTexture>>,
    /// Slots to use again.
    free_list: Vec<usize>,
}

/// What an [`AtlasTextureList`] holds.
#[verifier::ext_equal]
pub struct ListModel {
    pub textures: Seq<Option<TextureModel>>,
    pub free_list: Seq<usize>,
}

/// What the textures in some slots hold.
pub open spec fn texture_models(textures: Seq<Option<AtlasTexture>>) -> Seq<Option<TextureModel>> {
    Seq::new(
        textures.len(),
        |i: int|
            match textures[i] {
                Some(texture) => Some(texture@),
                None => None,
            },
    )
}

impl View for AtlasTextureList {
    type V = ListModel;

    closed spec fn view(&self) -> ListModel {
        ListModel { textures: texture_models(self.textures@), free_list: self.free_list@ }
    }
}

/// What became of an attempt to create a texture and a view of it.
#[derive(Clone, Copy, Debug, PartialEq, Eq, Structural)]
pub enum NewTexture {
    /// The texture could not be created.
    TextureFailed,
    /// The texture could be created, but no view of it.
    ViewFailed,
    /// Both were created, and go by this number.
    Created(u64),
}

/// A texture that something else wants copied into the atlas.
#[derive(Clone, Copy, Debug, PartialEq, Eq, Structural)]
pub struct SourceTexture {
    pub format: u32,
    pub width: u32,
    pub height: u32,
    /// The address of the device that owns it, if that could be found out.
    pub device: Option<usize>,
}

/// Why a texture cannot be copied into the atlas.
#[derive(Clone, Copy, Debug, PartialEq, Eq, Structural)]
pub enum CopyRefusal {
    /// It has another pixel format than the atlas.
    Format,
    /// It is smaller than the region asked for.
    TooSmall,
    /// It belongs to another device.
    OtherDevice,
}

/// How far a request for a tile has come.
#[derive(Clone, Copy, Debug, PartialEq, Eq, Structural)]
pub enum TileRequest {
    /// The tile that was taken.
    Tile(AtlasTile),
    /// No texture has room; one like this is needed.
    NeedsTexture(TextureDesc),
}

/// A tile that a key has, or has just taken.
#[derive(Debug)]
pub enum Inserted<B> {
    /// The key had the tile already.
    Found(AtlasTile),
    /// The key has taken the tile, and these are the pixels that go there.
    New(AtlasTile, B),
}

/// Why a key has got no tile.
#[derive(Debug)]
pub enum InsertError<E> {
    /// The image could not be built.
    Build(E),
    /// No tile could be taken for it.
    NoRoom,
}

/// How far an upload from another texture has come.
#[derive(Clone, Copy, Debug, PartialEq, Eq, Structural)]
pub enum GpuUpload {
    /// There is nothing to copy, or it cannot be copied.
    Refused,
    /// The tile to copy into.
    Tile(AtlasTile),
    /// No texture has room; one like this is needed.
    NeedsTexture(TextureDesc),
}

/// What can be said of an upload before its source is looked at.
#[derive(Clone, Copy, Debug, PartialEq, Eq, Structural)]
pub enum UploadPlan {
    /// There is nothing to copy.
    Refuse,
    /// The key has a tile of this size already, which is written again.
    Reuse(AtlasTile),
    /// The key needs a tile, if the source can be copied.
    Inspect,
}

/// What the pixels of a tile take in memory, and where they go.
#[derive(Clone, Copy, Debug, PartialEq, Eq, Structural)]
pub struct UploadRegion {
    pub region: TexelBox,
    pub row_pitch: u32,
}

/// The bytes that a pixel of a texture of this kind takes.
pub open spec fn pixel_bytes(kind: AtlasTextureKind) -> u32 {
    match kind {
        AtlasTextureKind::Monochrome => 1,
        AtlasTextureKind::Polychrome => 4,
        AtlasTextureKind::Subpixel => 4,
    }
}

/// The format of a texture of this kind.
pub open spec fn pixel_format(kind: AtlasTextureKind) -> u32 {
    match kind {
        AtlasTextureKind::Monochrome => FORMAT_R8_UNORM,
        AtlasTextureKind::Polychrome => FORMAT_B8G8R8A8_UNORM,
        AtlasTextureKind::Subpixel => FORMAT_R8G8B8A8_UNORM,
    }
}

/// The length of a texture that is to hold an image of the given length.
pub open spec fn clamped_length(length: int) -> int {
    if length < DEFAULT_ATLAS_SIZE {
        DEFAULT_ATLAS_SIZE as int
    } else if length > MAX_ATLAS_SIZE {
        MAX_ATLAS_SIZE as int
    } else {
        length
    }
}

/// The size of a new texture that is to hold an image of the given size.
pub open spec fn texture_size(size: Size<DevicePixels>) -> Size<DevicePixels> {
    Size {
        width: DevicePixels(clamped_length(size.width.0 as int) as i32),
        height: DevicePixels(clamped_length(size.height.0 as int) as i32),
    }
}

/// The texture that is created for an image of the given size and kind.
pub open spec fn atlas_texture_desc(
    size: Size<DevicePixels>,
    kind: AtlasTextureKind,
) -> TextureDesc {
    flat_texture(
        clamped_length(size.width.0 as int) as u32,
        clamped_length(size.height.0 as int) as u32,
        pixel_format(kind),
        1,
        0,
        BIND_SHADER_RESOURCE,
    )
}

fn clamp_length(length: i32) -> (result: i32)
    ensures
        result == clamped_length(length as int),
{
    if length < DEFAULT_ATLAS_SIZE {
        DEFAULT_ATLAS_SIZE
    } else if length > MAX_ATLAS_SIZE {
        MAX_ATLAS_SIZE
    } else {
        length
    }
}

fn bytes_per_pixel(kind: AtlasTextureKind) -> (result: u32)
    ensures
        result == pixel_bytes(kind),
{
    match kind {
        AtlasTextureKind::Monochrome => 1,
        AtlasTextureKind::Polychrome => 4,
        AtlasTextureKind::Subpixel => 4,
    }
}

/// The texture to create for an image of the given size and kind.
pub fn texture_desc(size: Size<DevicePixels>, kind: AtlasTextureKind) -> (result: TextureDesc)
    ensures
        result == atlas_texture_desc(size, kind),
{
    let format: u32 = match kind {
        AtlasTextureKind::Monochrome => FORMAT_R8_UNORM,
        AtlasTextureKind::Polychrome => FORMAT_B8G8R8A8_UNORM,
        AtlasTextureKind::Subpixel => FORMAT_R8G8B8A8_UNORM,
    };
    TextureDesc::flat(
        clamp_length(size.width.0) as u32,
        clamp_length(size.height.0) as u32,
        format,
        1,
        0,
        BIND_SHADER_RESOURCE,
    )
}

impl TextureModel {
    /// Whether the texture is what it has to be at its slot.
    pub open spec fn sound(self, kind: AtlasTextureKind, index: int) -> bool {
        &&& self.id.kind == kind
        &&& self.id.index == index
        &&& self.bytes_per_pixel == pixel_bytes(kind)
        &&& self.live_atlas_keys == held(self.allocator).len()
        &&& self.counts.bounds(counts(self.allocator))
        &&& packed_soundly(held(self.allocator), extent(self.allocator))
        &&& extent(self.allocator).width.0 <= MAX_ATLAS_SIZE
        &&& extent(self.allocator).height.0 <= MAX_ATLAS_SIZE
    }

    /// Whether this is a new texture for an image of the given size.
    pub open spec fn fresh(
        self,
        size: Size<DevicePixels>,
        kind: AtlasTextureKind,
        index: int,
        resource: u64,
    ) -> bool {
        &&& self.id.kind == kind
        &&& self.id.index == index
        &&& self.bytes_per_pixel == pixel_bytes(kind)
        &&& self.resource == resource
        &&& self.live_atlas_keys == 0
        &&& self.counts == CountsModel::empty()
        &&& counts(self.allocator) == Map::<u32, nat>::empty()
        &&& held(self.allocator) == Map::<u32, PackedRect>::empty()
        &&& extent(self.allocator) == texture_size(size)
        &&& forall|request: Size<DevicePixels>|
            fits(request, texture_size(size)) ==> (#[trigger] placement(
                self.allocator,
                request,
            )) is Some
    }

    /// The tile of the given size that the texture would hand out. A texture
    /// hands out no more once a bucket of its packer has counted as far as it
    /// can.
    pub open spec fn offer(self, size: Size<DevicePixels>) -> Option<AtlasTile> {
        if self.counts.full {
            None
        } else {
            match placement(self.allocator, size) {
                Some(packed) => Some(
                    AtlasTile {
                        texture_id: self.id,
                        tile_id: TileId(packed.id),
                        padding: 0,
                        bounds: DeviceBounds { origin: packed.rect.min, size },
                    },
                ),
                None => None,
            }
        }
    }

    /// Whether `after` is this texture once it has handed out a tile.
    pub open spec fn handed_out(self, tile: AtlasTile, after: Self) -> bool {
        &&& after.id == self.id
        &&& after.bytes_per_pixel == self.bytes_per_pixel
        &&& after.resource == self.resource
        &&& after.counts == self.counts.with(tile.tile_id.0)
        &&& extent(after.allocator) == extent(self.allocator)
        &&& !held(self.allocator).contains_key(tile.tile_id.0)
        &&& held(after.allocator).contains_key(tile.tile_id.0)
        &&& held(after.allocator).remove(tile.tile_id.0) == held(self.allocator)
        &&& held(after.allocator)[tile.tile_id.0].min == tile.bounds.origin
        &&& held(after.allocator)[tile.tile_id.0].offers(tile.bounds.size)
    }

}

impl AtlasTexture {
    /// Takes a tile of the given size, if there is room.
    fn allocate(&mut self, size: Size<DevicePixels>) -> (result: Option<AtlasTile>)
        requires
            old(self)@.sound(old(self)@.id.kind, old(self)@.id.index as int),
        ensures
            final(self)@.sound(old(self)@.id.kind, old(self)@.id.index as int),
            result == old(self)@.offer(size),
            match result {
                Some(tile) => old(self)@.handed_out(tile, final(self)@) && fits(
                    size,
                    extent(old(self)@.allocator),
                ),
                None => *final(self) == *old(self),
            },
    {
        if self.counts.is_full() {
            return None;
        }
        proof {
            assert forall|s: u32| #[trigger]
                count_of(counts(self.allocator), s) < MAX_COUNT by {
                if count_of(counts(self.allocator), s) > 0 {
                    assert(self@.counts.by_bucket.contains_key(bucket(s)));
                }
            }
        }
        match allocate_rect(&mut self.allocator, size) {
            Some(packed) => {
                proof {
                    let before = held(old(self).allocator);
                    let after = held(self.allocator);
                    assert(after.dom() =~= before.dom().insert(packed.id));
                    assert(after.remove(packed.id) =~= before);
                    assert(before.len() + 1 == after.len());
                    assert forall|a: u32, b: u32|
                        #[trigger] after.contains_key(a) && #[trigger] after.contains_key(b) && a
                            != b implies after[a].apart(after[b]) by {
                        if a != packed.id {
                            assert(before.contains_key(a));
                        }
                        if b != packed.id {
                            assert(before.contains_key(b));
                        }
                    }
                    assert forall|id: u32| #[trigger]
                        after.contains_key(id) implies after[id].inside(
                        extent(self.allocator),
                    ) by {
                        if id != packed.id {
                            assert(before.contains_key(id));
                        }
                    }
                }
                self.live_atlas_keys = self.live_atlas_keys + 1;
                self.counts.count(packed.id);
                assert(self@.counts.bounds(counts(self.allocator)));
                Some(
                    AtlasTile {
                        texture_id: self.id,
                        tile_id: TileId(packed.id),
                        padding: 0,
                        bounds: DeviceBounds { origin: packed.rect.min, size },
                    },
                )
            },
            None => None,
        }
    }

    /// Gives a tile back.
    fn deallocate(&mut self, id: u32)
        requires
            old(self)@.sound(old(self)@.id.kind, old(self)@.id.index as int),
            held(old(self)@.allocator).contains_key(id),
        ensures
            final(self)@.sound(old(self)@.id.kind, old(self)@.id.index as int),
            final(self)@.id == old(self)@.id,
            final(self)@.resource == old(self)@.resource,
            final(self)@.counts == old(self)@.counts,
            extent(final(self)@.allocator) == extent(old(self)@.allocator),
            held(final(self)@.allocator) == held(old(self)@.allocator).remove(id),
    {
        proof {
            let before = held(self.allocator);
            let after = before.remove(id);
            assert(after.dom() =~= before.dom().remove(id));
            assert(before.dom().len() > 0);
            assert forall|a: u32| #[trigger] after.contains_key(a) implies before.contains_key(a)
                && after[a] == before[a] by {}
        }
        deallocate_rect(&mut self.allocator, id);
        self.decrement_ref_count();
    }

    fn decrement_ref_count(&mut self)
        requires
            old(self).live_atlas_keys > 0,
        ensures
            *final(self) == (AtlasTexture {
                live_atlas_keys: (old(self).live_atlas_keys - 1) as u32,
                ..*old(self)
            }),
    {
        self.live_atlas_keys = self.live_atlas_keys - 1;
    }

    fn is_unreferenced(&self) -> (result: bool)
        ensures
            result == (self.live_atlas_keys == 0),
    {
        self.live_atlas_keys == 0
    }
}

impl ListModel {
    /// The texture in a slot.
    pub open spec fn texture(self, index: int) -> TextureModel
        recommends
            self.lives(index),
    {
        self.textures[index]->0
    }

    /// Whether there is a texture in a slot.
    pub open spec fn lives(self, index: int) -> bool {
        0 <= index < self.textures.len() && self.textures[index] is Some
    }

    /// Whether some texture goes by this number.
    pub open spec fn uses(self, resource: u64) -> bool {
        exists|i: int| #[trigger] self.lives(i) && self.texture(i).resource == resource
    }

    /// Whether every texture is what it has to be, and every slot to use again
    /// is free, once.
    pub open spec fn sound(self, kind: AtlasTextureKind) -> bool {
        &&& self.textures.len() <= u32::MAX
        &&& forall|i: int| #[trigger] self.lives(i) ==> self.texture(i).sound(kind, i)
        &&& forall|f: int|
            0 <= f < self.free_list.len() ==> (#[trigger] self.free_list[f]) < self.textures.len()
                && self.textures[self.free_list[f] as int] is None
        &&& forall|f: int, g: int|
            0 <= f < g < self.free_list.len() ==> #[trigger] self.free_list[f]
                != #[trigger] self.free_list[g]
    }

    /// The last slot below `count` whose texture has room for an image of the
    /// given size; -1 where none has.
    pub open spec fn roomy(self, size: Size<DevicePixels>, count: nat) -> int
        decreases count,
    {
        if count == 0 {
            -1
        } else if self.lives(count - 1) && self.texture(count - 1).offer(size) is Some {
            count - 1
        } else {
            self.roomy(size, (count - 1) as nat)
        }
    }

    /// The slot that a new texture takes: the last one given up, or a new one.
    pub open spec fn next_slot(self) -> int {
        if self.free_list.len() > 0 {
            self.free_list.last() as int
        } else {
            self.textures.len() as int
        }
    }

    /// The slots to use again, once one has been picked.
    pub open spec fn slots_left(self) -> Seq<usize> {
        if self.free_list.len() > 0 {
            self.free_list.drop_last()
        } else {
            self.free_list
        }
    }

    /// Whether `after` is this list once a texture for an image of the given
    /// size has been created, as far as that worked out.
    pub open spec fn pushed(
        self,
        size: Size<DevicePixels>,
        kind: AtlasTextureKind,
        outcome: NewTexture,
        after: Self,
    ) -> bool {
        match outcome {
            NewTexture::TextureFailed => after == self,
            NewTexture::ViewFailed => after == (ListModel {
                free_list: self.slots_left(),
                ..self
            }),
            NewTexture::Created(resource) => {
                let index = self.next_slot();
                &&& after.free_list == self.slots_left()
                &&& after.textures.len() == if index < self.textures.len() {
                    self.textures.len()
                } else {
                    self.textures.len() + 1
                }
                &&& after.lives(index)
                &&& after.texture(index).fresh(size, kind, index, resource)
                &&& forall|i: int|
                    0 <= i < self.textures.len() && i != index ==> #[trigger] after.textures[i]
                        == self.textures[i]
            },
        }
    }

    /// Whether `after` is this list once a tile of a texture was given back. A
    /// texture without tiles goes, and its slot is the next to use again.
    pub open spec fn released(self, index: int, id: u32, after: Self) -> bool {
        let rest = held(self.texture(index).allocator).remove(id);
        &&& after.textures.len() == self.textures.len()
        &&& forall|i: int|
            0 <= i < self.textures.len() && i != index ==> #[trigger] after.textures[i]
                == self.textures[i]
        &&& if rest.len() == 0 {
            &&& after.textures[index] is None
            &&& rest == Map::<u32, PackedRect>::empty()
            &&& after.free_list == self.free_list.push(index as usize)
        } else {
            &&& after.lives(index)
            &&& after.free_list == self.free_list
            &&& after.texture(index).id == self.texture(index).id
            &&& after.texture(index).resource == self.texture(index).resource
            &&& after.texture(index).counts == self.texture(index).counts
            &&& extent(after.texture(index).allocator) == extent(self.texture(index).allocator)
            &&& held(after.texture(index).allocator) == rest
        }
    }

    /// Whether `after` differs from this list in one texture at most, which
    /// lives.
    pub open spec fn changed_at(self, index: int, after: Self) -> bool {
        &&& after.free_list == self.free_list
        &&& after.textures.len() == self.textures.len()
        &&& after.lives(index)
        &&& forall|i: int|
            0 <= i < self.textures.len() && i != index ==> #[trigger] after.textures[i]
                == self.textures[i]
    }
}

impl AtlasTextureList {
    /// A list without textures.
    pub(crate) fn new() -> (result: Self)
        ensures
            result@ == (ListModel { textures: Seq::empty(), free_list: Seq::empty() }),
    {
        AtlasTextureList { textures: Vec::new(), free_list: Vec::new() }
    }

    /// How many slots there are.
    pub(crate) fn slots(&self) -> (result: usize)
        ensures
            result == self@.textures.len(),
    {
        self.textures.len()
    }

    /// The number by which the owner of the GPU objects knows the texture in a
    /// slot, if there is one.
    pub(crate) fn resource(&self, index: usize) -> (result: Option<u64>)
        ensures
            result == (if self@.lives(index as int) {
                Some(self@.texture(index as int).resource)
            } else {
                None
            }),
    {
        if index < self.textures.len() {
            match &self.textures[index] {
                Some(texture) => Some(texture.resource),
                None => None,
            }
        } else {
            None
        }
    }

    /// Whether some texture goes by this number.
    pub(crate) fn uses_resource(&self, resource: u64) -> (result: bool)
        ensures
            result == self@.uses(resource),
    {
        let mut index: usize = 0;
        while index < self.slots()
            invariant
                forall|i: int|
                    0 <= i < index && #[trigger] self@.lives(i) ==> self@.texture(i).resource
                        != resource,
            decreases self@.textures.len() - index,
        {
            if self.resource(index) == Some(resource) {
                assert(self@.lives(index as int));
                return true;
            }
            index = index + 1;
        }
        false
    }

    /// Takes a tile of the given size from the newest texture that has room.
    pub(crate) fn allocate(
        &mut self,
        size: Size<DevicePixels>,
        kind: AtlasTextureKind,
    ) -> (result: Option<AtlasTile>)
        requires
            old(self)@.sound(kind),
        ensures
            final(self)@.sound(kind),
            match result {
                Some(tile) => {
                    let index = old(self)@.roomy(size, old(self)@.textures.len());
                    &&& old(self)@.lives(index)
                    &&& old(self)@.texture(index).offer(size) == Some(tile)
                    &&& old(self)@.changed_at(index, final(self)@)
                    &&& old(self)@.texture(index).handed_out(tile, final(self)@.texture(index))
                    &&& fits(size, extent(old(self)@.texture(index).allocator))
                },
                None => old(self)@.roomy(size, old(self)@.textures.len()) < 0 && final(self)@
                    == old(self)@,
            },
    {
        let mut index: usize = self.textures.len();
        while index > 0
            invariant
                index <= self.textures.len(),
                self@ == old(self)@,
                self@.sound(kind),
                self@.roomy(size, self@.textures.len()) == self@.roomy(size, index as nat),
            decreases index,
        {
            index = index - 1;
            let ghost before = self@;
            assert(before.lives(index as int) ==> before.texture(index as int).sound(
                kind,
                index as int,
            ));
            let mut taken: Option<AtlasTexture> = None;
            std::mem::swap(&mut self.textures[index], &mut taken);
            if let Some(mut texture) = taken {
                let tile = texture.allocate(size);
                self.textures.set(index, Some(texture));
                if tile.is_some() {
                    proof {
                        let after = self@;
                        assert forall|i: int| #[trigger] after.lives(i) implies after.texture(
                            i,
                        ).sound(kind, i) by {
                            if i != index {
                                assert(before.lives(i));
                                assert(after.textures[i] == before.textures[i]);
                            }
                        }
                        assert forall|f: int| 0 <= f < after.free_list.len() implies (
                        #[trigger] after.free_list[f]) < after.textures.len()
                            && after.textures[after.free_list[f] as int] is None by {
                            assert(before.free_list[f] < before.textures.len());
                            assert(before.textures[before.free_list[f] as int] is None);
                        }
                    }
                    return tile;
                }
                assert(self@ =~= before);
            } else {
                self.textures.set(index, None);
                assert(self@ =~= before);
            }
        }
        None
    }

    /// Puts a new texture for an image of the given size into a slot, if the
    /// texture and its view were created, and returns the slot. A slot that was
    /// picked for a texture without a view is not used again.
    fn push_texture(
        &mut self,
        size: Size<DevicePixels>,
        kind: AtlasTextureKind,
        outcome: NewTexture,
    ) -> (result: Option<usize>)
        requires
            old(self)@.sound(kind),
            old(self)@.textures.len() < u32::MAX,
        ensures
            final(self)@.sound(kind),
            old(self)@.pushed(size, kind, outcome, final(self)@),
            match outcome {
                NewTexture::Created(_) => result == Some(old(self)@.next_slot() as usize),
                _ => result is None,
            },
    {
        let resource: u64 = match outcome {
            NewTexture::TextureFailed => return None,
            NewTexture::ViewFailed => {
                let ghost before = self@;
                let _ = self.free_list.pop();
                proof {
                    let after = self@;
                    assert forall|i: int| #[trigger] after.lives(i) implies after.texture(i).sound(
                        kind,
                        i,
                    ) by {
                        assert(before.lives(i));
                    }
                    assert forall|f: int| 0 <= f < after.free_list.len() implies (
                    #[trigger] after.free_list[f]) < after.textures.len()
                        && after.textures[after.free_list[f] as int] is None by {
                        assert(before.free_list[f] == after.free_list[f]);
                    }
                    assert forall|f: int, g: int| 0 <= f < g < after.free_list.len() implies (
                    #[trigger] after.free_list[f]) != #[trigger] after.free_list[g] by {
                        assert(before.free_list[f] != before.free_list[g]);
                    }
                }
                return None;
            },
            NewTexture::Created(resource) => resource,
        };
        let ghost before = self@;
        let texture_size = Size {
            width: DevicePixels(clamp_length(size.width.0)),
            height: DevicePixels(clamp_length(size.height.0)),
        };
        let index: usize = match self.free_list.pop() {
            Some(index) => index,
            None => self.textures.len(),
        };
        let texture = AtlasTexture {
            id: AtlasTextureId { index: index as u32, kind },
            bytes_per_pixel: bytes_per_pixel(kind),
            allocator: new_allocator(texture_size),
            resource,
            live_atlas_keys: 0,
            counts: BucketCounts::new(),
        };
        let ghost created = texture@;
        if index < self.textures.len() {
            self.textures.set(index, Some(texture));
        } else {
            self.textures.push(Some(texture));
        }
        proof {
            let after = self@;
            assert(index == before.next_slot());
            assert(created.sound(kind, index as int));
            assert(before.free_list.len() > 0 ==> before.free_list[before.free_list.len() - 1]
                < before.textures.len());
            assert(after.texture(index as int) == created);
            assert forall|i: int| #[trigger] after.lives(i) implies after.texture(i).sound(
                kind,
                i,
            ) by {
                if i != index {
                    assert(before.lives(i));
                }
            }
            assert forall|f: int| 0 <= f < after.free_list.len() implies (
            #[trigger] after.free_list[f]) < after.textures.len()
                && after.textures[after.free_list[f] as int] is None by {
                assert(before.free_list[f] == after.free_list[f]);
                assert(before.free_list[f] != before.free_list[before.free_list.len() - 1]);
            }
            assert forall|f: int, g: int| 0 <= f < g < after.free_list.len() implies (
            #[trigger] after.free_list[f]) != #[trigger] after.free_list[g] by {
                assert(before.free_list[f] != before.free_list[g]);
            }
        }
        Some(index)
    }

    /// Creates a texture for an image of the given size, as far as that worked
    /// out, and takes a tile from it.
    pub(crate) fn allocate_in_new(
        &mut self,
        size: Size<DevicePixels>,
        kind: AtlasTextureKind,
        outcome: NewTexture,
    ) -> (result: Option<AtlasTile>)
        requires
            old(self)@.sound(kind),
            old(self)@.textures.len() < u32::MAX,
        ensures
            final(self)@.sound(kind),
            result is Some <==> outcome is Created && fits(size, texture_size(size)),
            match result {
                Some(tile) => exists|middle: ListModel|
                    {
                        let index = old(self)@.next_slot();
                        &&& #[trigger] old(self)@.pushed(size, kind, outcome, middle)
                        &&& middle.texture(index).offer(size) == Some(tile)
                        &&& middle.changed_at(index, final(self)@)
                        &&& middle.texture(index).handed_out(tile, final(self)@.texture(index))
                    },
                None => old(self)@.pushed(size, kind, outcome, final(self)@),
            },
    {
        match self.push_texture(size, kind, outcome) {
            Some(index) => {
                let ghost middle = self@;
                assert(middle.lives(index as int));
                assert(middle.texture(index as int).sound(kind, index as int));
                let mut taken: Option<AtlasTexture> = None;
                std::mem::swap(&mut self.textures[index], &mut taken);
                let mut tile: Option<AtlasTile> = None;
                if let Some(mut texture) = taken {
                    tile = texture.allocate(size);
                    self.textures.set(index, Some(texture));
                }
                proof {
                    let after = self@;
                    assert forall|i: int| #[trigger] after.lives(i) implies after.texture(i).sound(
                        kind,
                        i,
                    ) by {
                        if i != index {
                            assert(middle.lives(i));
                            assert(after.textures[i] == middle.textures[i]);
                        }
                    }
                    assert forall|f: int| 0 <= f < after.free_list.len() implies (
                    #[trigger] after.free_list[f]) < after.textures.len()
                        && after.textures[after.free_list[f] as int] is None by {
                        assert(middle.free_list[f] < middle.textures.len());
                        assert(middle.textures[middle.free_list[f] as int] is None);
                    }
                    if tile is None {
                        assert(after =~= middle);
                    }
                }
                tile
            },
            None => None,
        }
    }

    /// Gives a tile of a texture back. A texture without tiles goes, and its
    /// slot is used again.
    pub(crate) fn release(&mut self, index: usize, id: u32, kind: AtlasTextureKind)
        requires
            old(self)@.sound(kind),
            old(self)@.lives(index as int),
            held(old(self)@.texture(index as int).allocator).contains_key(id),
        ensures
            final(self)@.sound(kind),
            old(self)@.released(index as int, id, final(self)@),
    {
        let ghost before = self@;
        assert(before.texture(index as int).sound(kind, index as int));
        let mut taken: Option<AtlasTexture> = None;
        std::mem::swap(&mut self.textures[index], &mut taken);
        if let Some(mut texture) = taken {
            texture.deallocate(id);
            let ghost rest = held(texture.allocator);
            if texture.is_unreferenced() {
                self.free_list.push(texture.id.index as usize);
            } else {
                self.textures.set(index, Some(texture));
            }
            proof {
                let after = self@;
                assert forall|i: int| #[trigger] after.lives(i) implies after.texture(i).sound(
                    kind,
                    i,
                ) by {
                    if i != index {
                        assert(before.lives(i));
                        assert(after.textures[i] == before.textures[i]);
                    }
                }
                assert forall|f: int| 0 <= f < before.free_list.len() implies (
                #[trigger] before.free_list[f]) != index by {
                    assert(before.textures[before.free_list[f] as int] is None);
                }
                assert forall|f: int| 0 <= f < after.free_list.len() implies (
                #[trigger] after.free_list[f]) < after.textures.len()
                    && after.textures[after.free_list[f] as int] is None by {
                    if f < before.free_list.len() {
                        assert(after.free_list[f] == before.free_list[f]);
                        assert(before.textures[before.free_list[f] as int] is None);
                    }
                }
                assert forall|f: int, g: int| 0 <= f < g < after.free_list.len() implies (
                #[trigger] after.free_list[f]) != #[trigger] after.free_list[g] by {
                    assert(before.free_list[f] == after.free_list[f]);
                    if g < before.free_list.len() {
                        assert(before.free_list[g] == after.free_list[g]);
                    }
                }
                if rest.len() == 0 {
                    assert(rest.dom() =~= Set::empty());
                    assert(rest =~= Map::empty());
                }
                assert(before.released(index as int, id, after));
            }
        }
    }
}

} // verus!
