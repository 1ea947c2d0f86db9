//! The tiles of the sprite atlas, by key.

use crate::atlas::{
    atlas_texture_desc, pixel_bytes, texture_desc, AtlasKey, AtlasTextureList, CopyRefusal,
    GpuUpload, InsertError, Inserted, ListModel, NewTexture, SourceTexture, TextureModel,
    TileRequest, UploadPlan, UploadRegion,
};
use crate::geometry::{DeviceBounds, DevicePixels, Size};
use crate::gpu::{TexelBox, TextureDesc, FORMAT_B8G8R8A8_UNORM};
use crate::packing::{extent, held, PackedRect, MAX_ATLAS_SIZE};
use crate::refusals::{reported, Refusal, RefusalLog, UploadRefusal};
use crate::tile::{AtlasTextureId, AtlasTextureKind, AtlasTile};
use std::collections::HashMap;
use vstd::prelude::*;

verus! {

broadcast use vstd::std_specs::hash::group_hash_axioms;

/// The textures of an atlas, and the tiles that keys have in them.
struct AtlasParts {
    /// The address of the device that the textures live on.
    device: usize,
    monochrome_textures: AtlasTextureList,
    polychrome_textures: AtlasTextureList,
    subpixel_textures: AtlasTextureList,
    tiles_by_key: HashMap<u64, AtlasTile>,
}

/// The sprite atlas of one device.
pub struct DirectXAtlasState {
    parts: AtlasParts,
}

/// What a [`DirectXAtlasState`] holds.
#[verifier::ext_equal]
pub struct AtlasModel {
    pub device: usize,
    pub monochrome: ListModel,
    pub polychrome: ListModel,
    pub subpixel: ListModel,
    pub tiles: Map<u64, AtlasTile>,
}

impl View for AtlasParts {
    type V = AtlasModel;

    closed spec fn view(&self) -> AtlasModel {
        AtlasModel {
            device: self.device,
            monochrome: self.monochrome_textures@,
            polychrome: self.polychrome_textures@,
            subpixel: self.subpixel_textures@,
            tiles: self.tiles_by_key@,
        }
    }
}

impl View for DirectXAtlasState {
    type V = AtlasModel;

    closed spec fn view(&self) -> AtlasModel {
        self.parts@
    }
}

/// A list of textures that holds none.
pub open spec fn no_textures() -> ListModel {
    ListModel { textures: Seq::empty(), free_list: Seq::empty() }
}

impl AtlasModel {
    /// An atlas without tiles.
    pub open spec fn empty(device: usize) -> Self {
        AtlasModel {
            device,
            monochrome: no_textures(),
            polychrome: no_textures(),
            subpixel: no_textures(),
            tiles: Map::empty(),
        }
    }

    /// The textures of one kind.
    pub open spec fn list(self, kind: AtlasTextureKind) -> ListModel {
        match kind {
            AtlasTextureKind::Monochrome => self.monochrome,
            AtlasTextureKind::Polychrome => self.polychrome,
            AtlasTextureKind::Subpixel => self.subpixel,
        }
    }

    /// The atlas with other textures of one kind.
    pub open spec fn with_list(self, kind: AtlasTextureKind, list: ListModel) -> Self {
        match kind {
            AtlasTextureKind::Monochrome => AtlasModel { monochrome: list, ..self },
            AtlasTextureKind::Polychrome => AtlasModel { polychrome: list, ..self },
            AtlasTextureKind::Subpixel => AtlasModel { subpixel: list, ..self },
        }
    }

    /// The rectangles taken in the texture of a slot, by number.
    pub open spec fn taken(self, kind: AtlasTextureKind, index: int) -> Map<u32, PackedRect> {
        if self.list(kind).lives(index) {
            held(self.list(kind).texture(index).allocator)
        } else {
            Map::empty()
        }
    }

    /// The rectangles taken in the texture of a tile.
    pub open spec fn taken_with(self, tile: AtlasTile) -> Map<u32, PackedRect> {
        self.taken(tile.texture_id.kind, tile.texture_id.index as int)
    }

    /// Whether a tile has extent and its rectangle is taken.
    pub open spec fn backed(self, tile: AtlasTile) -> bool {
        &&& self.taken_with(tile).contains_key(tile.tile_id.0)
        &&& self.taken_with(tile)[tile.tile_id.0].min == tile.bounds.origin
        &&& self.taken_with(tile)[tile.tile_id.0].offers(tile.bounds.size)
        &&& 0 < tile.bounds.size.width.0
        &&& 0 < tile.bounds.size.height.0
    }

    /// Whether a key has the tile of this number in the texture of this slot.
    pub open spec fn owns(self, key: u64, kind: AtlasTextureKind, index: int, id: u32) -> bool {
        &&& self.tiles.contains_key(key)
        &&& self.tiles[key].texture_id.kind == kind
        &&& self.tiles[key].texture_id.index == index
        &&& self.tiles[key].tile_id.0 == id
    }

    /// Whether the tiles and the taken rectangles belong together: each tile
    /// has a rectangle of its own, and each rectangle taken belongs to a key.
    pub open spec fn matched(self) -> bool {
        &&& forall|key: u64| #[trigger]
            self.tiles.contains_key(key) ==> self.backed(self.tiles[key])
        &&& forall|a: u64, b: u64|
            #[trigger] self.tiles.contains_key(a) && #[trigger] self.tiles.contains_key(b) && a != b
                ==> self.tiles[a].texture_id != self.tiles[b].texture_id || self.tiles[a].tile_id
                != self.tiles[b].tile_id
        &&& forall|kind: AtlasTextureKind, index: int, id: u32| #[trigger]
            self.taken(kind, index).contains_key(id) ==> exists|key: u64|
                self.owns(key, kind, index, id)
    }

    /// Whether the atlas is what it has to be.
    pub open spec fn sound(self) -> bool {
        &&& self.monochrome.sound(AtlasTextureKind::Monochrome)
        &&& self.polychrome.sound(AtlasTextureKind::Polychrome)
        &&& self.subpixel.sound(AtlasTextureKind::Subpixel)
        &&& self.matched()
    }

    /// Whether `after` is this atlas once a key has taken a tile from the
    /// newest texture that has room.
    pub open spec fn took(self, key: AtlasKey, tile: AtlasTile, after: Self) -> bool {
        let list = self.list(key.kind);
        let index = list.roomy(tile.bounds.size, list.textures.len());
        &&& list.lives(index)
        &&& list.texture(index).offer(tile.bounds.size) == Some(tile)
        &&& after == (AtlasModel {
            tiles: self.tiles.insert(key.id, tile),
            ..self.with_list(key.kind, after.list(key.kind))
        })
        &&& list.changed_at(index, after.list(key.kind))
        &&& list.texture(index).handed_out(tile, after.list(key.kind).texture(index))
    }

    /// Whether no texture of the key's kind has room for an image.
    pub open spec fn full(self, key: AtlasKey, size: Size<DevicePixels>) -> bool {
        self.list(key.kind).roomy(size, self.list(key.kind).textures.len()) < 0
    }

    /// Whether `after` is this atlas once a key has taken a tile from a texture
    /// created for it.
    pub open spec fn took_new(
        self,
        key: AtlasKey,
        tile: AtlasTile,
        outcome: NewTexture,
        after: Self,
    ) -> bool {
        let list = self.list(key.kind);
        let index = list.next_slot();
        &&& after == (AtlasModel {
            tiles: self.tiles.insert(key.id, tile),
            ..self.with_list(key.kind, after.list(key.kind))
        })
        &&& exists|middle: ListModel|
            {
                &&& #[trigger] list.pushed(tile.bounds.size, key.kind, outcome, middle)
                &&& middle.texture(index).offer(tile.bounds.size) == Some(tile)
                &&& middle.changed_at(index, after.list(key.kind))
                &&& middle.texture(index).handed_out(tile, after.list(key.kind).texture(index))
            }
    }

    /// Whether `after` is this atlas, and `result` what is returned, once a key
    /// without a tile was to get one for what was built, if `created` says what
    /// may come of creating a texture.
    pub open spec fn inserted<B, E>(
        self,
        key: AtlasKey,
        built: Result<Option<(Size<DevicePixels>, B)>, E>,
        created: spec_fn(TextureDesc, NewTexture) -> bool,
        result: Result<Option<Inserted<B>>, InsertError<E>>,
        after: Self,
    ) -> bool {
        match built {
            Err(error) => result == Err::<Option<Inserted<B>>, InsertError<E>>(
                InsertError::Build(error),
            ) && after == self,
            Ok(None) => result == Ok::<Option<Inserted<B>>, InsertError<E>>(None) && after == self,
            Ok(Some((size, pixels))) => match result {
                Ok(Some(Inserted::New(tile, given))) => {
                    &&& given == pixels
                    &&& tile.bounds.size == size
                    &&& tile.texture_id.kind == key.kind
                    &&& after.tiles.get(key.id) == Some(tile)
                    &&& {
                        ||| self.took(key, tile, after)
                        ||| {
                            &&& self.full(key, size)
                            &&& self.list(key.kind).textures.len() < u32::MAX
                            &&& exists|outcome: NewTexture| #[trigger]
                                created(atlas_texture_desc(size, key.kind), outcome)
                                    && self.took_new(key, tile, outcome, after)
                        }
                    }
                },
                Err(InsertError::NoRoom) => {
                    &&& self.full(key, size)
                    &&& if self.list(key.kind).textures.len() < u32::MAX {
                        exists|outcome: NewTexture|
                            {
                                &&& #[trigger] created(
                                    atlas_texture_desc(size, key.kind),
                                    outcome,
                                )
                                &&& !(outcome is Created && 0 < size.width.0 <= MAX_ATLAS_SIZE && 0
                                    < size.height.0 <= MAX_ATLAS_SIZE)
                                &&& self.list(key.kind).pushed(
                                    size,
                                    key.kind,
                                    outcome,
                                    after.list(key.kind),
                                )
                                &&& after == self.with_list(key.kind, after.list(key.kind))
                            }
                    } else {
                        after == self
                    }
                },
                _ => false,
            },
        }
    }

    /// Whether `after` is this atlas once a key has given its tile back.
    pub open spec fn gave_back(self, key: u64, after: Self) -> bool {
        if self.tiles.contains_key(key) {
            let tile = self.tiles[key];
            let kind = tile.texture_id.kind;
            &&& after == (AtlasModel {
                tiles: self.tiles.remove(key),
                ..self.with_list(kind, after.list(kind))
            })
            &&& self.list(kind).released(
                tile.texture_id.index as int,
                tile.tile_id.0,
                after.list(kind),
            )
        } else {
            after == self
        }
    }

    /// What becomes of an upload, as far as that does not depend on its source.
    pub open spec fn upload_plan(
        self,
        key: AtlasKey,
        size: Size<DevicePixels>,
        source_is_null: bool,
    ) -> UploadPlan {
        if source_is_null || size.width.0 <= 0 || size.height.0 <= 0 {
            UploadPlan::Refuse
        } else if self.tiles.contains_key(key.id) && self.tiles[key.id].bounds.size == size {
            UploadPlan::Reuse(self.tiles[key.id])
        } else {
            UploadPlan::Inspect
        }
    }

    /// Whether `after` is this atlas once a key has got a tile of the given size
    /// in place of the one it had. A source that cannot be copied changes
    /// nothing.
    pub open spec fn replaced(
        self,
        key: AtlasKey,
        size: Size<DevicePixels>,
        source: SourceTexture,
        result: GpuUpload,
        after: Self,
    ) -> bool {
        if self.refusal(source, size) is Some {
            result == GpuUpload::Refused && after == self
        } else {
            match result {
                GpuUpload::Refused => false,
                GpuUpload::Tile(tile) => tile.bounds.size == size && exists|middle: AtlasModel|
                    #[trigger] self.gave_back(key.id, middle) && middle.took(key, tile, after),
                GpuUpload::NeedsTexture(desc) => {
                    &&& self.gave_back(key.id, after)
                    &&& !after.tiles.contains_key(key.id)
                    &&& after.full(key, size)
                    &&& desc == atlas_texture_desc(size, key.kind)
                },
            }
        }
    }

    /// Why a texture cannot be copied into the atlas, if it cannot.
    pub open spec fn refusal(self, source: SourceTexture, size: Size<DevicePixels>) -> Option<
        CopyRefusal,
    > {
        if source.format != FORMAT_B8G8R8A8_UNORM {
            Some(CopyRefusal::Format)
        } else if source.width < size.width.0 || source.height < size.height.0 {
            Some(CopyRefusal::TooSmall)
        } else if source.device != Some(self.device) {
            Some(CopyRefusal::OtherDevice)
        } else {
            None
        }
    }
}

/// Taking a rectangle for a key without one keeps tiles and rectangles matched.
proof fn lemma_taking_keeps_matched(
    before: AtlasModel,
    after: AtlasModel,
    key: u64,
    tile: AtlasTile,
    rect: PackedRect,
)
    requires
        before.matched(),
        !before.tiles.contains_key(key),
        after.tiles == before.tiles.insert(key, tile),
        !before.taken_with(tile).contains_key(tile.tile_id.0),
        forall|kind: AtlasTextureKind, index: int|
            (#[trigger] after.taken(kind, index)) == (if kind == tile.texture_id.kind && index
                == tile.texture_id.index {
                before.taken(kind, index).insert(tile.tile_id.0, rect)
            } else {
                before.taken(kind, index)
            }),
        rect.min == tile.bounds.origin,
        rect.offers(tile.bounds.size),
        0 < tile.bounds.size.width.0,
        0 < tile.bounds.size.height.0,
    ensures
        after.matched(),
{
    assert forall|k: u64| #[trigger] after.tiles.contains_key(k) implies after.backed(
        after.tiles[k],
    ) by {
        if k != key {
            assert(before.tiles.contains_key(k));
            assert(before.backed(before.tiles[k]));
        }
    }
    assert forall|a: u64, b: u64|
        #[trigger] after.tiles.contains_key(a) && #[trigger] after.tiles.contains_key(b) && a
            != b implies after.tiles[a].texture_id != after.tiles[b].texture_id
        || after.tiles[a].tile_id != after.tiles[b].tile_id by {
        if a != key {
            assert(before.tiles.contains_key(a));
            assert(before.backed(before.tiles[a]));
        }
        if b != key {
            assert(before.tiles.contains_key(b));
            assert(before.backed(before.tiles[b]));
        }
    }
    assert forall|kind: AtlasTextureKind, index: int, id: u32| #[trigger]
        after.taken(kind, index).contains_key(id) implies exists|k: u64|
        after.owns(k, kind, index, id) by {
        if before.taken(kind, index).contains_key(id) {
            let k = choose|k: u64| before.owns(k, kind, index, id);
            assert(after.owns(k, kind, index, id));
        } else {
            assert(after.owns(key, kind, index, id));
        }
    }
}

/// Giving the rectangle of a key back keeps tiles and rectangles matched.
proof fn lemma_giving_back_keeps_matched(before: AtlasModel, after: AtlasModel, key: u64)
    requires
        before.matched(),
        before.tiles.contains_key(key),
        after.tiles == before.tiles.remove(key),
        forall|kind: AtlasTextureKind, index: int|
            (#[trigger] after.taken(kind, index)) == (if kind == before.tiles[key].texture_id.kind
                && index == before.tiles[key].texture_id.index {
                before.taken(kind, index).remove(before.tiles[key].tile_id.0)
            } else {
                before.taken(kind, index)
            }),
    ensures
        after.matched(),
{
    assert forall|k: u64| #[trigger] after.tiles.contains_key(k) implies after.backed(
        after.tiles[k],
    ) by {
        assert(before.tiles.contains_key(k));
        assert(before.backed(before.tiles[k]));
    }
    assert forall|a: u64, b: u64|
        #[trigger] after.tiles.contains_key(a) && #[trigger] after.tiles.contains_key(b) && a
            != b implies after.tiles[a].texture_id != after.tiles[b].texture_id
        || after.tiles[a].tile_id != after.tiles[b].tile_id by {
        assert(before.tiles.contains_key(a));
        assert(before.tiles.contains_key(b));
    }
    assert forall|kind: AtlasTextureKind, index: int, id: u32| #[trigger]
        after.taken(kind, index).contains_key(id) implies exists|k: u64|
        after.owns(k, kind, index, id) by {
        assert(before.taken(kind, index).contains_key(id));
        let k = choose|k: u64| before.owns(k, kind, index, id);
        assert(after.owns(k, kind, index, id));
    }
}

/// A texture that hands out a tile takes one rectangle more.
proof fn lemma_handing_out_inserts(before: TextureModel, tile: AtlasTile, after: TextureModel)
    requires
        before.handed_out(tile, after),
    ensures
        held(after.allocator) == held(before.allocator).insert(
            tile.tile_id.0,
            held(after.allocator)[tile.tile_id.0],
        ),
{
    assert(held(after.allocator) =~= held(before.allocator).insert(
        tile.tile_id.0,
        held(after.allocator)[tile.tile_id.0],
    ));
}

impl AtlasParts {
    fn new(device: usize) -> (result: Self)
        ensures
            result@ == AtlasModel::empty(device),
            result@.sound(),
    {
        AtlasParts {
            device,
            monochrome_textures: AtlasTextureList::new(),
            polychrome_textures: AtlasTextureList::new(),
            subpixel_textures: AtlasTextureList::new(),
            tiles_by_key: HashMap::new(),
        }
    }

    /// The textures of one kind.
    fn list(&self, kind: AtlasTextureKind) -> (result: &AtlasTextureList)
        ensures
            result@ == self@.list(kind),
    {
        match kind {
            AtlasTextureKind::Monochrome => &self.monochrome_textures,
            AtlasTextureKind::Polychrome => &self.polychrome_textures,
            AtlasTextureKind::Subpixel => &self.subpixel_textures,
        }
    }

    /// Takes a tile for a key that has none from the newest texture that has
    /// room, or says which texture would be needed.
    fn allocate(&mut self, key: AtlasKey, size: Size<DevicePixels>) -> (result: TileRequest)
        requires
            old(self)@.sound(),
            !old(self)@.tiles.contains_key(key.id),
        ensures
            final(self)@.sound(),
            match result {
                TileRequest::Tile(tile) => tile.bounds.size == size && old(self)@.took(
                    key,
                    tile,
                    final(self)@,
                ),
                TileRequest::NeedsTexture(desc) => old(self)@.full(key, size) && desc
                    == atlas_texture_desc(size, key.kind) && final(self)@ == old(self)@,
            },
    {
        let ghost before = self@;
        let found = match key.kind {
            AtlasTextureKind::Monochrome => self.monochrome_textures.allocate(size, key.kind),
            AtlasTextureKind::Polychrome => self.polychrome_textures.allocate(size, key.kind),
            AtlasTextureKind::Subpixel => self.subpixel_textures.allocate(size, key.kind),
        };
        match found {
            Some(tile) => {
                let _ = self.tiles_by_key.insert(key.id, tile);
                proof {
                    let after = self@;
                    let list = before.list(key.kind);
                    let index = list.roomy(size, list.textures.len());
                    assert(list.texture(index).sound(key.kind, index));
                    lemma_handing_out_inserts(
                        list.texture(index),
                        tile,
                        after.list(key.kind).texture(index),
                    );
                    assert(after =~= (AtlasModel {
                        tiles: before.tiles.insert(key.id, tile),
                        ..before.with_list(key.kind, after.list(key.kind))
                    }));
                    let rect = held(after.list(key.kind).texture(index).allocator)[tile.tile_id.0];
                    assert forall|kind: AtlasTextureKind, i: int|
                        (#[trigger] after.taken(kind, i)) == (if kind == tile.texture_id.kind && i
                            == tile.texture_id.index {
                            before.taken(kind, i).insert(tile.tile_id.0, rect)
                        } else {
                            before.taken(kind, i)
                        }) by {
                        if kind == key.kind && i != index {
                            assert(after.list(kind).lives(i) == before.list(kind).lives(i));
                        }
                    }
                    lemma_taking_keeps_matched(before, after, key.id, tile, rect);
                }
                TileRequest::Tile(tile)
            },
            None => {
                assert(self@ =~= before);
                TileRequest::NeedsTexture(texture_desc(size, key.kind))
            },
        }
    }

    /// Takes a tile for a key that has none from a texture created for it, as
    /// far as that worked out.
    fn allocate_in_new_texture(
        &mut self,
        key: AtlasKey,
        size: Size<DevicePixels>,
        outcome: NewTexture,
    ) -> (result: Option<AtlasTile>)
        requires
            old(self)@.sound(),
            !old(self)@.tiles.contains_key(key.id),
            old(self)@.list(key.kind).textures.len() < u32::MAX,
        ensures
            final(self)@.sound(),
            result is Some <==> outcome is Created && 0 < size.width.0 <= MAX_ATLAS_SIZE && 0
                < size.height.0 <= MAX_ATLAS_SIZE,
            match result {
                Some(tile) => tile.bounds.size == size && old(self)@.took_new(
                    key,
                    tile,
                    outcome,
                    final(self)@,
                ),
                None => final(self)@ == old(self)@.with_list(key.kind, final(self)@.list(key.kind))
                    && old(self)@.list(key.kind).pushed(
                    size,
                    key.kind,
                    outcome,
                    final(self)@.list(key.kind),
                ),
            },
    {
        let ghost before = self@;
        let found = match key.kind {
            AtlasTextureKind::Monochrome => self.monochrome_textures.allocate_in_new(
                size,
                key.kind,
                outcome,
            ),
            AtlasTextureKind::Polychrome => self.polychrome_textures.allocate_in_new(
                size,
                key.kind,
                outcome,
            ),
            AtlasTextureKind::Subpixel => self.subpixel_textures.allocate_in_new(
                size,
                key.kind,
                outcome,
            ),
        };
        let ghost list = before.list(key.kind);
        let ghost index = list.next_slot();
        proof {
            assert(list.free_list.len() > 0 ==> list.free_list[list.free_list.len() - 1]
                < list.textures.len());
            assert(!list.lives(index));
        }
        match found {
            Some(tile) => {
                let _ = self.tiles_by_key.insert(key.id, tile);
                proof {
                    let after = self@;
                    let middle = choose|middle: ListModel|
                        {
                            &&& #[trigger] list.pushed(size, key.kind, outcome, middle)
                            &&& middle.texture(index).offer(size) == Some(tile)
                            &&& middle.changed_at(index, after.list(key.kind))
                            &&& middle.texture(index).handed_out(
                                tile,
                                after.list(key.kind).texture(index),
                            )
                        };
                    lemma_handing_out_inserts(
                        middle.texture(index),
                        tile,
                        after.list(key.kind).texture(index),
                    );
                    assert(after =~= (AtlasModel {
                        tiles: before.tiles.insert(key.id, tile),
                        ..before.with_list(key.kind, after.list(key.kind))
                    }));
                    let rect = held(after.list(key.kind).texture(index).allocator)[tile.tile_id.0];
                    assert forall|kind: AtlasTextureKind, i: int|
                        (#[trigger] after.taken(kind, i)) == (if kind == tile.texture_id.kind && i
                            == tile.texture_id.index {
                            before.taken(kind, i).insert(tile.tile_id.0, rect)
                        } else {
                            before.taken(kind, i)
                        }) by {
                        if kind == key.kind && i != index {
                            assert(after.list(kind).lives(i) == before.list(kind).lives(i)) by {
                                if 0 <= i < list.textures.len() {
                                    assert(middle.textures[i] == list.textures[i]);
                                    assert(after.list(kind).textures[i] == middle.textures[i]);
                                }
                            }
                        }
                    }
                    lemma_taking_keeps_matched(before, after, key.id, tile, rect);
                }
                Some(tile)
            },
            None => {
                proof {
                    let after = self@;
                    assert(after =~= before.with_list(key.kind, after.list(key.kind)));
                    assert forall|kind: AtlasTextureKind, i: int|
                        (#[trigger] after.taken(kind, i)) == before.taken(kind, i) by {
                        if kind == key.kind && i != index && outcome is Created {
                            assert(after.list(kind).lives(i) == before.list(kind).lives(i)) by {
                                if 0 <= i < list.textures.len() {
                                    assert(after.list(kind).textures[i] == list.textures[i]);
                                }
                            }
                        }
                    }
                    assert forall|k: u64| #[trigger]
                        after.tiles.contains_key(k) implies after.backed(after.tiles[k]) by {
                        assert(before.backed(before.tiles[k]));
                    }
                    assert forall|kind: AtlasTextureKind, i: int, id: u32| #[trigger]
                        after.taken(kind, i).contains_key(id) implies exists|k: u64|
                        after.owns(k, kind, i, id) by {
                        assert(before.taken(kind, i).contains_key(id));
                        let k = choose|k: u64| before.owns(k, kind, i, id);
                        assert(after.owns(k, kind, i, id));
                    }
                }
                None
            },
        }
    }

    /// Gives the tile of a key back. A texture that has no tile left goes.
    fn remove(&mut self, key: AtlasKey)
        requires
            old(self)@.sound(),
        ensures
            final(self)@.sound(),
            old(self)@.gave_back(key.id, final(self)@),
    {
        let ghost before = self@;
        let tile = match self.tiles_by_key.remove(&key.id) {
            Some(tile) => tile,
            None => {
                assert(self@ =~= before);
                return;
            },
        };
        let kind = tile.texture_id.kind;
        let index: usize = tile.texture_id.index as usize;
        let id: u32 = tile.tile_id.0;
        proof {
            assert(before.backed(tile));
            assert(before.list(kind).texture(index as int).sound(kind, index as int));
        }
        match kind {
            AtlasTextureKind::Monochrome => self.monochrome_textures.release(index, id, kind),
            AtlasTextureKind::Polychrome => self.polychrome_textures.release(index, id, kind),
            AtlasTextureKind::Subpixel => self.subpixel_textures.release(index, id, kind),
        }
        proof {
            let after = self@;
            assert(after =~= (AtlasModel {
                tiles: before.tiles.remove(key.id),
                ..before.with_list(kind, after.list(kind))
            }));
            assert forall|k: AtlasTextureKind, i: int|
                (#[trigger] after.taken(k, i)) == (if k == tile.texture_id.kind && i
                    == tile.texture_id.index {
                    before.taken(k, i).remove(tile.tile_id.0)
                } else {
                    before.taken(k, i)
                }) by {
                if k == kind && i != index {
                    assert(after.list(k).lives(i) == before.list(k).lives(i));
                }
            }
            lemma_giving_back_keeps_matched(before, after, key.id);
        }
    }
}

impl DirectXAtlasState {
    #[verifier::type_invariant]
    spec fn is_sound(self) -> bool {
        self.parts@.sound()
    }

    /// An atlas without tiles, for a device.
    pub fn new(device: usize) -> (result: Self)
        ensures
            result@ == AtlasModel::empty(device),
            result@.sound(),
    {
        DirectXAtlasState { parts: AtlasParts::new(device) }
    }

    /// Forgets everything, for another device.
    pub fn handle_device_lost(&mut self, device: usize)
        ensures
            final(self)@ == AtlasModel::empty(device),
            final(self)@.sound(),
    {
        self.parts = AtlasParts::new(device);
    }

    /// The tile of a key, if it has one.
    pub fn find(&self, key: AtlasKey) -> (result: Option<AtlasTile>)
        ensures
            result == self@.tiles.get(key.id),
            self@.sound(),
    {
        proof {
            use_type_invariant(self);
        }
        match self.parts.tiles_by_key.get(&key.id) {
            Some(tile) => Some(*tile),
            None => None,
        }
    }

    /// Takes a tile for a key that has none from the newest texture that has
    /// room, or says which texture would be needed.
    pub fn allocate(&mut self, key: AtlasKey, size: Size<DevicePixels>) -> (result: TileRequest)
        requires
            !old(self)@.tiles.contains_key(key.id),
        ensures
            final(self)@.sound(),
            match result {
                TileRequest::Tile(tile) => tile.bounds.size == size && old(self)@.took(
                    key,
                    tile,
                    final(self)@,
                ),
                TileRequest::NeedsTexture(desc) => old(self)@.full(key, size) && desc
                    == atlas_texture_desc(size, key.kind) && final(self)@ == old(self)@,
            },
    {
        proof {
            use_type_invariant(&*self);
        }
        let mut parts = AtlasParts::new(0);
        std::mem::swap(&mut parts, &mut self.parts);
        let result = parts.allocate(key, size);
        self.parts = parts;
        result
    }

    /// Takes a tile for a key that has none from a texture created for it, as
    /// far as that worked out.
    pub fn allocate_in_new_texture(
        &mut self,
        key: AtlasKey,
        size: Size<DevicePixels>,
        outcome: NewTexture,
    ) -> (result: Option<AtlasTile>)
        requires
            !old(self)@.tiles.contains_key(key.id),
            old(self)@.list(key.kind).textures.len() < u32::MAX,
        ensures
            final(self)@.sound(),
            result is Some <==> outcome is Created && 0 < size.width.0 <= MAX_ATLAS_SIZE && 0
                < size.height.0 <= MAX_ATLAS_SIZE,
            match result {
                Some(tile) => tile.bounds.size == size && old(self)@.took_new(
                    key,
                    tile,
                    outcome,
                    final(self)@,
                ),
                None => final(self)@ == old(self)@.with_list(key.kind, final(self)@.list(key.kind))
                    && old(self)@.list(key.kind).pushed(
                    size,
                    key.kind,
                    outcome,
                    final(self)@.list(key.kind),
                ),
            },
    {
        proof {
            use_type_invariant(&*self);
        }
        let mut parts = AtlasParts::new(0);
        std::mem::swap(&mut parts, &mut self.parts);
        let result = parts.allocate_in_new_texture(key, size, outcome);
        self.parts = parts;
        result
    }

    /// Gives the tile of a key back. A texture that has no tile left goes.
    pub fn remove(&mut self, key: AtlasKey)
        ensures
            final(self)@.sound(),
            old(self)@.gave_back(key.id, final(self)@),
    {
        proof {
            use_type_invariant(&*self);
        }
        let mut parts = AtlasParts::new(0);
        std::mem::swap(&mut parts, &mut self.parts);
        parts.remove(key);
        self.parts = parts;
    }

    /// The tile of a key, or a new one for what `build` gives.
    ///
    /// A key that has a tile keeps it, and nothing is built. Else the image is
    /// built, once. Where there is none, or it cannot be built, nothing
    /// changes. Else the key takes a tile of the image's size from the newest
    /// texture that has room, or from one that `create` has created for it.
    pub fn get_or_insert_with<B, E, F, C>(&mut self, key: AtlasKey, build: F, create: C) -> (result:
        Result<Option<Inserted<B>>, InsertError<E>>) where
        F: FnOnce() -> Result<Option<(Size<DevicePixels>, B)>, E>,
        C: FnOnce(TextureDesc) -> NewTexture,

        requires
            !old(self)@.tiles.contains_key(key.id) ==> call_requires(build, ()),
            forall|desc: TextureDesc| #[trigger] call_requires(create, (desc,)),
        ensures
            final(self)@.sound(),
            if old(self)@.tiles.contains_key(key.id) {
                result == Ok::<Option<Inserted<B>>, InsertError<E>>(
                    Some(Inserted::Found(old(self)@.tiles[key.id])),
                ) && final(self)@ == old(self)@
            } else {
                exists|built: Result<Option<(Size<DevicePixels>, B)>, E>| #[trigger]
                    call_ensures(build, (), built) && old(self)@.inserted(
                        key,
                        built,
                        |desc: TextureDesc, outcome: NewTexture|
                            call_ensures(create, (desc,), outcome),
                        result,
                        final(self)@,
                    )
            },
    {
        proof {
            use_type_invariant(&*self);
        }
        if let Some(tile) = self.find(key) {
            return Ok(Some(Inserted::Found(tile)));
        }
        let ghost before = self@;
        let built = build();
        let ghost given = built;
        let (size, pixels) = match built {
            Err(error) => return Err(InsertError::Build(error)),
            Ok(None) => return Ok(None),
            Ok(Some(image)) => image,
        };
        let desc = match self.allocate(key, size) {
            TileRequest::Tile(tile) => {
                proof {
                    lemma_taken_tile_has_kind(before, key, tile, self@);
                }
                return Ok(Some(Inserted::New(tile, pixels)));
            },
            TileRequest::NeedsTexture(desc) => desc,
        };
        if !self.can_add_texture(key.kind) {
            return Err(InsertError::NoRoom);
        }
        let outcome = create(desc);
        let ghost created = |desc: TextureDesc, outcome: NewTexture|
            call_ensures(create, (desc,), outcome);
        assert(created(atlas_texture_desc(size, key.kind), outcome));
        match self.allocate_in_new_texture(key, size, outcome) {
            Some(tile) => Ok(Some(Inserted::New(tile, pixels))),
            None => Err(InsertError::NoRoom),
        }
    }

    /// Whether there is room for one texture more of a kind in the numbering of
    /// textures.
    pub fn can_add_texture(&self, kind: AtlasTextureKind) -> (result: bool)
        ensures
            result == (self@.list(kind).textures.len() < u32::MAX),
    {
        self.parts.list(kind).slots() < u32::MAX as usize
    }

    /// Why a texture cannot be copied into the atlas, if it cannot. Each of the
    /// reasons would go unnoticed otherwise: a copy between devices does
    /// nothing, and one between formats gives garbage.
    pub fn copy_refusal(&self, source: SourceTexture, size: Size<DevicePixels>) -> (result: Option<
        CopyRefusal,
    >)
        requires
            0 <= size.width.0,
            0 <= size.height.0,
        ensures
            result == self@.refusal(source, size),
    {
        if source.format != FORMAT_B8G8R8A8_UNORM {
            return Some(CopyRefusal::Format);
        }
        if source.width < size.width.0 as u32 || source.height < size.height.0 as u32 {
            return Some(CopyRefusal::TooSmall);
        }
        match source.device {
            Some(owner) => {
                if owner == self.parts.device {
                    None
                } else {
                    Some(CopyRefusal::OtherDevice)
                }
            },
            None => Some(CopyRefusal::OtherDevice),
        }
    }

    /// Why a texture cannot be copied into the atlas, where that is to be
    /// reported now: each reason is reported once for a size. That there is
    /// nothing to copy is not reported.
    pub fn report_refusal(
        &self,
        log: &mut RefusalLog,
        source: SourceTexture,
        size: Size<DevicePixels>,
    ) -> (result: Option<CopyRefusal>)
        ensures
            size.width.0 <= 0 || size.height.0 <= 0 ==> result is None && final(log)@ == old(log)@,
            size.width.0 > 0 && size.height.0 > 0 ==> match self@.refusal(source, size) {
                Some(reason) => {
                    let refusal = Refusal { reason: UploadRefusal::Copy(reason), size };
                    &&& final(log)@ == reported(old(log)@, refusal)
                    &&& result == (if old(log)@.contains(refusal) {
                        None
                    } else {
                        Some(reason)
                    })
                },
                None => result is None && final(log)@ == old(log)@,
            },
    {
        if size.width.0 <= 0 || size.height.0 <= 0 {
            return None;
        }
        match self.copy_refusal(source, size) {
            Some(reason) => {
                if log.report(UploadRefusal::Copy(reason), size) {
                    Some(reason)
                } else {
                    None
                }
            },
            None => None,
        }
    }

    /// Whether a texture can be copied into the atlas.
    pub fn can_copy_from(&self, source: SourceTexture, size: Size<DevicePixels>) -> (result: bool)
        requires
            0 <= size.width.0,
            0 <= size.height.0,
        ensures
            result == (self@.refusal(source, size) is None),
    {
        self.copy_refusal(source, size).is_none()
    }

    /// What becomes of an upload, as far as that does not depend on its source.
    /// The tile of a key is written again and again, as long as it has the
    /// right size.
    pub fn plan_upload(
        &self,
        key: AtlasKey,
        size: Size<DevicePixels>,
        source_is_null: bool,
    ) -> (result: UploadPlan)
        ensures
            result == self@.upload_plan(key, size, source_is_null),
    {
        if source_is_null || size.width.0 <= 0 || size.height.0 <= 0 {
            return UploadPlan::Refuse;
        }
        match self.find(key) {
            Some(tile) => {
                if tile.bounds.size == size {
                    UploadPlan::Reuse(tile)
                } else {
                    UploadPlan::Inspect
                }
            },
            None => UploadPlan::Inspect,
        }
    }

    /// Gives a key a tile of the given size in place of the one it has, if the
    /// source can be copied.
    pub fn replace_for_upload(
        &mut self,
        key: AtlasKey,
        size: Size<DevicePixels>,
        source: SourceTexture,
    ) -> (result: GpuUpload)
        requires
            0 < size.width.0,
            0 < size.height.0,
        ensures
            final(self)@.sound(),
            old(self)@.replaced(key, size, source, result, final(self)@),
    {
        proof {
            use_type_invariant(&*self);
        }
        if !self.can_copy_from(source, size) {
            return GpuUpload::Refused;
        }
        self.remove(key);
        let ghost middle = self@;
        assert(!middle.tiles.contains_key(key.id));
        match self.allocate(key, size) {
            TileRequest::Tile(tile) => GpuUpload::Tile(tile),
            TileRequest::NeedsTexture(desc) => GpuUpload::NeedsTexture(desc),
        }
    }

    /// Finds the tile to copy a texture into. The first upload for a key takes
    /// a tile, and later ones reuse it, unless the size has changed. What the
    /// texture is like is asked for, with `describe`, only where a tile is to be
    /// taken. Where a texture is needed, [`Self::allocate_in_new_texture`] goes
    /// on from here.
    pub fn upload_from_gpu<F: FnOnce() -> SourceTexture>(
        &mut self,
        key: AtlasKey,
        size: Size<DevicePixels>,
        source_is_null: bool,
        describe: F,
    ) -> (result: GpuUpload)
        requires
            old(self)@.upload_plan(key, size, source_is_null) is Inspect ==> call_requires(
                describe,
                (),
            ),
        ensures
            final(self)@.sound(),
            match old(self)@.upload_plan(key, size, source_is_null) {
                UploadPlan::Refuse => result == GpuUpload::Refused && final(self)@ == old(self)@,
                UploadPlan::Reuse(tile) => result == GpuUpload::Tile(tile) && final(self)@
                    == old(self)@,
                UploadPlan::Inspect => exists|source: SourceTexture| #[trigger]
                    call_ensures(describe, (), source) && old(self)@.replaced(
                        key,
                        size,
                        source,
                        result,
                        final(self)@,
                    ),
            },
    {
        proof {
            use_type_invariant(&*self);
        }
        match self.plan_upload(key, size, source_is_null) {
            UploadPlan::Refuse => GpuUpload::Refused,
            UploadPlan::Reuse(tile) => GpuUpload::Tile(tile),
            UploadPlan::Inspect => {
                let source = describe();
                self.replace_for_upload(key, size, source)
            },
        }
    }

    /// The number by which the owner of the GPU objects knows a texture.
    pub fn texture(&self, id: AtlasTextureId) -> (result: u64)
        requires
            self@.list(id.kind).lives(id.index as int),
        ensures
            result == self@.list(id.kind).texture(id.index as int).resource,
    {
        self.parts.list(id.kind).resource(id.index as usize).unwrap()
    }

    /// Whether a texture is there.
    pub fn has_texture(&self, id: AtlasTextureId) -> (result: bool)
        ensures
            result == self@.list(id.kind).lives(id.index as int),
    {
        self.parts.list(id.kind).resource(id.index as usize).is_some()
    }

    /// Whether some texture goes by this number with the owner of the GPU
    /// objects.
    pub fn uses_resource(&self, resource: u64) -> (result: bool)
        ensures
            result == (exists|kind: AtlasTextureKind| self@.list(kind).uses(resource)),
    {
        let used = self.parts.monochrome_textures.uses_resource(resource)
            || self.parts.polychrome_textures.uses_resource(resource)
            || self.parts.subpixel_textures.uses_resource(resource);
        proof {
            assert(self@.list(AtlasTextureKind::Monochrome) == self.parts.monochrome_textures@);
            assert(self@.list(AtlasTextureKind::Polychrome) == self.parts.polychrome_textures@);
            assert(self@.list(AtlasTextureKind::Subpixel) == self.parts.subpixel_textures@);
        }
        used
    }

    /// Where the pixels of a tile go, unless fewer bytes are given than the
    /// tile takes: the driver would read on past their end.
    pub fn upload_region(&self, key: AtlasKey, tile: AtlasTile, byte_count: usize) -> (result:
        Option<UploadRegion>)
        requires
            self@.tiles.get(key.id) == Some(tile),
        ensures
            result == (if byte_count < tile.bounds.size.width.0 * pixel_bytes(
                tile.texture_id.kind,
            ) * tile.bounds.size.height.0 {
                None
            } else {
                Some(
                    UploadRegion {
                        region: tile_box(tile),
                        row_pitch: (tile.bounds.size.width.0 * pixel_bytes(
                            tile.texture_id.kind,
                        )) as u32,
                    },
                )
            }),
    {
        proof {
            use_type_invariant(self);
            lemma_tile_inside_texture(self@, key.id);
        }
        let kind = tile.texture_id.kind;
        let pixel: u32 = match kind {
            AtlasTextureKind::Monochrome => 1,
            AtlasTextureKind::Polychrome => 4,
            AtlasTextureKind::Subpixel => 4,
        };
        let width: u32 = tile.bounds.size.width.0 as u32;
        let height: u32 = tile.bounds.size.height.0 as u32;
        let row_pitch: u32 = width * pixel;
        assert(row_pitch * height <= 0x1_0000 * 0x4000) by (nonlinear_arith)
            requires
                row_pitch <= 0x1_0000,
                height <= 0x4000,
        ;
        let expected: usize = row_pitch as usize * height as usize;
        if byte_count < expected {
            None
        } else {
            Some(
                UploadRegion {
                    region: TexelBox {
                        left: tile.bounds.origin.x.0 as u32,
                        top: tile.bounds.origin.y.0 as u32,
                        right: (tile.bounds.origin.x.0 + tile.bounds.size.width.0) as u32,
                        bottom: (tile.bounds.origin.y.0 + tile.bounds.size.height.0) as u32,
                    },
                    row_pitch,
                },
            )
        }
    }
}

/// The texels of a tile.
pub open spec fn tile_box(tile: AtlasTile) -> TexelBox {
    TexelBox {
        left: tile.bounds.origin.x.0 as u32,
        top: tile.bounds.origin.y.0 as u32,
        right: (tile.bounds.origin.x.0 + tile.bounds.size.width.0) as u32,
        bottom: (tile.bounds.origin.y.0 + tile.bounds.size.height.0) as u32,
    }
}

/// What is copied from a texture into a tile: the texture's first texels, to
/// the tile's origin.
#[derive(Clone, Copy, Debug, PartialEq, Eq, Structural)]
pub struct CopyRegion {
    pub source: TexelBox,
    pub x: u32,
    pub y: u32,
}

/// What is copied from a texture into a tile.
pub fn copy_region(tile: AtlasTile) -> (result: CopyRegion)
    requires
        0 <= tile.bounds.origin.x.0,
        0 <= tile.bounds.origin.y.0,
        0 <= tile.bounds.size.width.0,
        0 <= tile.bounds.size.height.0,
    ensures
        result.source.left == 0,
        result.source.top == 0,
        result.source.right == tile.bounds.size.width.0,
        result.source.bottom == tile.bounds.size.height.0,
        result.x == tile.bounds.origin.x.0,
        result.y == tile.bounds.origin.y.0,
{
    CopyRegion {
        source: TexelBox {
            left: 0,
            top: 0,
            right: tile.bounds.size.width.0 as u32,
            bottom: tile.bounds.size.height.0 as u32,
        },
        x: tile.bounds.origin.x.0 as u32,
        y: tile.bounds.origin.y.0 as u32,
    }
}

/// Law: a tile lies in its texture, which lives and belongs to the tile's slot.
pub proof fn lemma_tile_inside_texture(atlas: AtlasModel, key: u64)
    requires
        atlas.sound(),
        atlas.tiles.contains_key(key),
    ensures
        ({
            let tile = atlas.tiles[key];
            let list = atlas.list(tile.texture_id.kind);
            let index = tile.texture_id.index as int;
            let size = extent(list.texture(index).allocator);
            &&& list.lives(index)
            &&& list.texture(index).id == tile.texture_id
            &&& 0 <= tile.bounds.origin.x.0
            &&& 0 <= tile.bounds.origin.y.0
            &&& 0 < tile.bounds.size.width.0
            &&& 0 < tile.bounds.size.height.0
            &&& tile.bounds.origin.x.0 + tile.bounds.size.width.0 <= size.width.0 <= MAX_ATLAS_SIZE
            &&& tile.bounds.origin.y.0 + tile.bounds.size.height.0 <= size.height.0
                <= MAX_ATLAS_SIZE
        }),
{
    let tile = atlas.tiles[key];
    assert(atlas.backed(tile));
    let list = atlas.list(tile.texture_id.kind);
    let index = tile.texture_id.index as int;
    assert(list.lives(index));
    assert(list.texture(index).sound(tile.texture_id.kind, index));
    assert(held(list.texture(index).allocator)[tile.tile_id.0].inside(
        extent(list.texture(index).allocator),
    ));
}

/// Whether two rectangles have no pixel in common.
pub open spec fn bounds_apart(a: DeviceBounds, b: DeviceBounds) -> bool {
    ||| a.origin.x.0 + a.size.width.0 <= b.origin.x.0
    ||| b.origin.x.0 + b.size.width.0 <= a.origin.x.0
    ||| a.origin.y.0 + a.size.height.0 <= b.origin.y.0
    ||| b.origin.y.0 + b.size.height.0 <= a.origin.y.0
}

/// Law: the tiles of two keys never share a pixel.
pub proof fn lemma_tiles_never_overlap(atlas: AtlasModel, a: u64, b: u64)
    requires
        atlas.sound(),
        atlas.tiles.contains_key(a),
        atlas.tiles.contains_key(b),
        a != b,
    ensures
        atlas.tiles[a].texture_id != atlas.tiles[b].texture_id || bounds_apart(
            atlas.tiles[a].bounds,
            atlas.tiles[b].bounds,
        ),
{
    let ta = atlas.tiles[a];
    let tb = atlas.tiles[b];
    if ta.texture_id == tb.texture_id {
        assert(atlas.backed(ta));
        assert(atlas.backed(tb));
        let list = atlas.list(ta.texture_id.kind);
        let index = ta.texture_id.index as int;
        assert(list.texture(index).sound(ta.texture_id.kind, index));
        let rects = held(list.texture(index).allocator);
        assert(ta.tile_id.0 != tb.tile_id.0);
        assert(rects.contains_key(ta.tile_id.0) && rects.contains_key(tb.tile_id.0));
        assert(rects[ta.tile_id.0].apart(rects[tb.tile_id.0]));
    }
}

/// Law: giving the tile of a key back leaves every other key its tile, and the
/// key none; its rectangle is free.
pub proof fn lemma_remove_leaves_others(atlas: AtlasModel, key: u64, after: AtlasModel, other: u64)
    requires
        atlas.sound(),
        atlas.gave_back(key, after),
        other != key,
    ensures
        !after.tiles.contains_key(key),
        after.tiles.get(other) == atlas.tiles.get(other),
        atlas.tiles.contains_key(key) ==> !after.taken_with(atlas.tiles[key]).contains_key(
            atlas.tiles[key].tile_id.0,
        ),
{
    if atlas.tiles.contains_key(key) {
        assert(atlas.backed(atlas.tiles[key]));
    }
}

/// A tile that a key takes is of the key's kind.
proof fn lemma_taken_tile_has_kind(
    atlas: AtlasModel,
    key: AtlasKey,
    tile: AtlasTile,
    after: AtlasModel,
)
    requires
        atlas.sound(),
        atlas.took(key, tile, after),
    ensures
        tile.texture_id.kind == key.kind,
{
    let list = atlas.list(key.kind);
    let index = list.roomy(tile.bounds.size, list.textures.len());
    assert(list.texture(index).sound(key.kind, index));
}

/// Law: a key that took a tile is found with it, and every other key keeps
/// its own.
pub proof fn lemma_taken_tile_is_found(
    atlas: AtlasModel,
    key: AtlasKey,
    tile: AtlasTile,
    after: AtlasModel,
    other: u64,
)
    requires
        atlas.sound(),
        atlas.took(key, tile, after),
        other != key.id,
    ensures
        after.tiles.get(key.id) == Some(tile),
        after.tiles.get(other) == atlas.tiles.get(other),
        tile.texture_id.kind == key.kind,
{
    lemma_taken_tile_has_kind(atlas, key, tile, after);
}

/// Law: a key that was given a tile for what was built has it from then on, so
/// that nothing is built for it again; a key that was given none changes no tile
/// at all, and no key ever changes the tile of another.
pub proof fn lemma_inserting_keeps_tiles<B, E>(
    atlas: AtlasModel,
    key: AtlasKey,
    built: Result<Option<(Size<DevicePixels>, B)>, E>,
    created: spec_fn(TextureDesc, NewTexture) -> bool,
    result: Result<Option<Inserted<B>>, InsertError<E>>,
    after: AtlasModel,
    other: u64,
)
    requires
        atlas.sound(),
        !atlas.tiles.contains_key(key.id),
        atlas.inserted(key, built, created, result, after),
        other != key.id,
    ensures
        after.tiles.get(key.id) == (match result {
            Ok(Some(Inserted::New(tile, _))) => Some(tile),
            _ => None,
        }),
        after.tiles.get(other) == atlas.tiles.get(other),
        result matches Ok(Some(given)) ==> given is New,
{
}

/// Law: once an upload has found its tile, every further upload of the same
/// size for the key finds the same tile and changes nothing.
pub proof fn lemma_upload_reuses_tile(
    atlas: AtlasModel,
    key: AtlasKey,
    size: Size<DevicePixels>,
    source: SourceTexture,
    tile: AtlasTile,
    after: AtlasModel,
)
    requires
        0 < size.width.0,
        0 < size.height.0,
        atlas.replaced(key, size, source, GpuUpload::Tile(tile), after),
    ensures
        after.upload_plan(key, size, false) == UploadPlan::Reuse(tile),
        tile.bounds.size == size,
{
}

/// Law: a key that took a tile from a texture created for it is found with it,
/// every other key keeps its own, and every further upload of the same size
/// finds the same tile.
pub proof fn lemma_new_tile_is_found(
    atlas: AtlasModel,
    key: AtlasKey,
    tile: AtlasTile,
    outcome: NewTexture,
    after: AtlasModel,
    other: u64,
)
    requires
        atlas.took_new(key, tile, outcome, after),
        outcome is Created,
        0 < tile.bounds.size.width.0,
        0 < tile.bounds.size.height.0,
        other != key.id,
    ensures
        after.tiles.get(key.id) == Some(tile),
        after.tiles.get(other) == atlas.tiles.get(other),
        tile.texture_id.kind == key.kind,
        after.upload_plan(key, tile.bounds.size, false) == UploadPlan::Reuse(tile),
{
}

} // verus!
