//! What holds of the sprite atlas: where tiles come from, and what stays as it is.

use crate::atlas::{
    atlas_texture_desc, pixel_bytes, pixel_format, texture_size, AtlasKey, CopyRefusal, GpuUpload,
    InsertError, Inserted, ListModel, NewTexture, SourceTexture, TextureModel, UploadPlan,
};
use crate::atlas_state::{bounds_apart, lemma_tile_inside_texture, tile_box, AtlasModel};
use crate::geometry::{DeviceBounds, DevicePixels, Size};
use crate::gpu::TextureDesc;
use crate::packing::{extent, fits, held, placement, PackedRect};
use crate::tile::{AtlasTextureId, AtlasTextureKind, AtlasTile};
use vstd::prelude::*;

verus! {

/// Law: coverage takes one byte a pixel, and colour or coverage per channel four, in
/// formats of their own.
pub proof fn lemma_pixels_have_their_formats(kind: AtlasTextureKind, other: AtlasTextureKind)
    ensures
        pixel_bytes(kind) == 1 <==> kind is Monochrome,
        pixel_bytes(kind) == 4 <==> kind is Polychrome || kind is Subpixel,
        pixel_format(AtlasTextureKind::Monochrome) == 61,
        pixel_format(AtlasTextureKind::Polychrome) == 87,
        pixel_format(AtlasTextureKind::Subpixel) == 28,
        pixel_format(kind) == pixel_format(other) <==> kind == other,
{
}

/// Law: a texture that is created for an image is as large as the image, but on either
/// axis not below 1024 texels nor above 16384; it is packed as large as it is created,
/// so that it holds the image exactly if that has extent and is not above the largest
/// texture.
pub proof fn lemma_new_texture_holds_its_image(size: Size<DevicePixels>, kind: AtlasTextureKind)
    ensures
        ({
            let made = texture_size(size);
            let desc = atlas_texture_desc(size, kind);
            &&& 1024 <= made.width.0 <= 16384
            &&& 1024 <= made.height.0 <= 16384
            &&& 1024 <= size.width.0 <= 16384 ==> made.width == size.width
            &&& 1024 <= size.height.0 <= 16384 ==> made.height == size.height
            &&& size.width.0 < 1024 ==> made.width.0 == 1024
            &&& size.height.0 < 1024 ==> made.height.0 == 1024
            &&& size.width.0 > 16384 ==> made.width.0 == 16384
            &&& size.height.0 > 16384 ==> made.height.0 == 16384
            &&& desc.width == made.width.0
            &&& desc.height == made.height.0
            &&& desc.format == pixel_format(kind)
            &&& desc.sample_count == 1
            &&& desc.sample_quality == 0
            &&& desc.bind_flags == 8
            &&& fits(size, made) <==> 0 < size.width.0 <= 16384 && 0 < size.height.0 <= 16384
        }),
{
}

/// Law: a texture offers a tile exactly if its packer finds room and has not counted as
/// far as it can. The tile is of the size that was asked for, lies where the packer puts
/// it, and belongs to the texture.
pub proof fn lemma_offered_tile_is_as_asked(texture: TextureModel, size: Size<DevicePixels>)
    ensures
        texture.offer(size) is Some <==> !texture.counts.full && placement(
            texture.allocator,
            size,
        ) is Some,
        texture.offer(size) matches Some(tile) ==> {
            &&& tile.texture_id == texture.id
            &&& tile.bounds.size == size
            &&& tile.bounds.origin == placement(texture.allocator, size)->0.rect.min
            &&& tile.tile_id.0 == placement(texture.allocator, size)->0.id
            &&& tile.padding == 0
        },
{
}

proof fn lemma_roomy_below(list: ListModel, size: Size<DevicePixels>, count: nat)
    requires
        count <= list.textures.len(),
    ensures
        -1 <= list.roomy(size, count) < count,
        list.roomy(size, count) >= 0 ==> list.lives(list.roomy(size, count)) && list.texture(
            list.roomy(size, count),
        ).offer(size) is Some,
        forall|i: int|
            list.roomy(size, count) < i < count && #[trigger] list.lives(i) ==> list.texture(
                i,
            ).offer(size) is None,
    decreases count,
{
    if count > 0 && !(list.lives(count - 1) && list.texture(count - 1).offer(size) is Some) {
        lemma_roomy_below(list, size, (count - 1) as nat);
    }
}

/// Law: a tile is taken from the newest texture that offers one, and no texture has room
/// exactly if none that lives offers one.
pub proof fn lemma_newest_texture_with_room_is_used(
    atlas: AtlasModel,
    key: AtlasKey,
    size: Size<DevicePixels>,
    i: int,
)
    requires
        atlas.list(key.kind).lives(i),
    ensures
        ({
            let list = atlas.list(key.kind);
            let used = list.roomy(size, list.textures.len());
            &&& atlas.full(key, size) ==> list.texture(i).offer(size) is None
            &&& !atlas.full(key, size) ==> list.lives(used) && list.texture(used).offer(
                size,
            ) is Some
            &&& i > used ==> list.texture(i).offer(size) is None
        }),
{
    let list = atlas.list(key.kind);
    lemma_roomy_below(list, size, list.textures.len());
}

/// Law: a new texture takes a slot in which no texture lives: one that was given up, if
/// there is one, and else a new one. It goes by its number, is of its kind, holds nothing,
/// and no other texture changes.
pub proof fn lemma_new_texture_takes_a_free_slot(
    list: ListModel,
    size: Size<DevicePixels>,
    kind: AtlasTextureKind,
    resource: u64,
    after: ListModel,
    other: int,
)
    requires
        list.sound(kind),
        list.pushed(size, kind, NewTexture::Created(resource), after),
        other != list.next_slot(),
    ensures
        ({
            let slot = list.next_slot();
            let texture = after.texture(slot);
            &&& !list.lives(slot)
            &&& after.lives(slot)
            &&& texture.id == (AtlasTextureId { index: slot as u32, kind })
            &&& texture.resource == resource
            &&& texture.bytes_per_pixel == pixel_bytes(kind)
            &&& texture.live_atlas_keys == 0
            &&& held(texture.allocator) == Map::<u32, PackedRect>::empty()
            &&& extent(texture.allocator) == texture_size(size)
            &&& !texture.counts.full
            &&& list.free_list.len() == 0 ==> slot == list.textures.len() && after.textures.len()
                == list.textures.len() + 1 && after.free_list == list.free_list
            &&& list.free_list.len() > 0 ==> list.free_list == after.free_list.push(slot as usize)
                && after.textures.len() == list.textures.len()
            &&& after.lives(other) <==> list.lives(other)
            &&& list.lives(other) ==> after.texture(other) == list.texture(other)
            &&& fits(size, texture_size(size)) ==> texture.offer(size) is Some
        }),
{
    let slot = list.next_slot();
    if list.free_list.len() > 0 {
        let last = list.free_list.len() - 1;
        assert(list.free_list[last] < list.textures.len());
        assert(list.free_list =~= list.free_list.drop_last().push(slot as usize));
    }
    if 0 <= other < list.textures.len() {
        assert(after.textures[other] == list.textures[other]);
    }
    if fits(size, texture_size(size)) {
        assert(placement(after.texture(slot).allocator, size) is Some);
    }
}

/// Law: where a texture could not be created nothing changes; where only its view could
/// not be, no texture changes, and the slot that was picked is not used again.
pub proof fn lemma_failed_texture_changes_no_texture(
    list: ListModel,
    size: Size<DevicePixels>,
    kind: AtlasTextureKind,
    outcome: NewTexture,
    after: ListModel,
)
    requires
        list.pushed(size, kind, outcome, after),
        !(outcome is Created),
    ensures
        after.textures == list.textures,
        outcome is TextureFailed || list.free_list.len() == 0 ==> after.free_list
            == list.free_list,
        outcome is ViewFailed && list.free_list.len() > 0 ==> list.free_list
            == after.free_list.push(list.free_list.last()),
{
    if list.free_list.len() > 0 {
        assert(list.free_list =~= list.free_list.drop_last().push(list.free_list.last()));
    }
}

/// Law: giving a tile back frees its rectangle and no other. A texture that has tiles left
/// lives on; one that has none goes, and its slot is the next to be used.
pub proof fn lemma_given_back_tile_frees_its_rectangle(
    atlas: AtlasModel,
    key: u64,
    after: AtlasModel,
    kind: AtlasTextureKind,
    index: int,
    id: u32,
)
    requires
        atlas.sound(),
        atlas.tiles.contains_key(key),
        atlas.gave_back(key, after),
    ensures
        ({
            let tile = atlas.tiles[key];
            let home = tile.texture_id;
            let mine = kind == home.kind && index == home.index && id == tile.tile_id.0;
            &&& after.taken(kind, index).contains_key(id) <==> atlas.taken(
                kind,
                index,
            ).contains_key(id) && !mine
            &&& after.taken(kind, index).contains_key(id) ==> after.taken(kind, index)[id]
                == atlas.taken(kind, index)[id]
            &&& (kind != home.kind || index != home.index) ==> (after.list(kind).lives(index)
                <==> atlas.list(kind).lives(index))
            &&& kind == home.kind && index == home.index ==> (after.list(kind).lives(index) <==>
                exists|other: u32|
                other != tile.tile_id.0 && #[trigger] atlas.taken_with(tile).contains_key(other))
            &&& !after.list(home.kind).lives(home.index as int) ==> after.list(
                home.kind,
            ).next_slot() == home.index
            &&& after.list(home.kind).lives(home.index as int) ==> after.list(
                home.kind,
            ).free_list == atlas.list(home.kind).free_list && after.list(home.kind).texture(
                home.index as int,
            ).resource == atlas.list(home.kind).texture(home.index as int).resource
            &&& after.device == atlas.device
        }),
{
    let tile = atlas.tiles[key];
    let home = tile.texture_id;
    assert(atlas.backed(tile));
    lemma_tile_inside_texture(atlas, key);
    let before = atlas.list(home.kind);
    let now = after.list(home.kind);
    let rest = held(before.texture(home.index as int).allocator).remove(tile.tile_id.0);
    if kind == home.kind && index != home.index && 0 <= index < before.textures.len() {
        assert(now.textures[index] == before.textures[index]);
    }
    assert(before.texture(home.index as int).sound(home.kind, home.index as int));
    assert(rest.dom().finite());
    if rest.len() > 0 {
        assert(rest.dom().len() > 0);
        assert(!(rest.dom() =~= Set::<u32>::empty()));
        let other = choose|other: u32| rest.dom().contains(other);
        assert(atlas.taken_with(tile).contains_key(other));
    } else {
        assert forall|other: u32|
            other != tile.tile_id.0 implies !(#[trigger] atlas.taken_with(tile).contains_key(
            other,
        )) by {
            assert(!rest.contains_key(other));
        }
        assert(now.free_list.last() == home.index as usize);
    }
}

/// Law: every kind has a list of textures of its own. To put another in its place
/// changes neither those of other kinds nor the tiles nor the device.
pub proof fn lemma_kinds_have_their_lists(
    atlas: AtlasModel,
    kind: AtlasTextureKind,
    other: AtlasTextureKind,
    list: ListModel,
)
    ensures
        atlas.with_list(kind, list).list(kind) == list,
        other != kind ==> atlas.with_list(kind, list).list(other) == atlas.list(other),
        atlas.with_list(kind, list).tiles == atlas.tiles,
        atlas.with_list(kind, list).device == atlas.device,
        atlas.list(AtlasTextureKind::Monochrome) == atlas.monochrome,
        atlas.list(AtlasTextureKind::Polychrome) == atlas.polychrome,
        atlas.list(AtlasTextureKind::Subpixel) == atlas.subpixel,
{
}

/// Law: a texture lives in a slot exactly if the slot holds one, and a number is used
/// exactly if a texture that lives goes by it.
pub proof fn lemma_slots_hold_textures(list: ListModel, index: int, resource: u64)
    ensures
        list.lives(index) <==> 0 <= index < list.textures.len() && list.textures[index] is Some,
        list.lives(index) ==> list.textures[index] == Some(list.texture(index)),
        list.uses(resource) <==> exists|i: int|
            0 <= i < list.textures.len() && (#[trigger] list.textures[i]) is Some
                && list.textures[i]->0.resource == resource,
{
    if exists|i: int|
        0 <= i < list.textures.len() && (#[trigger] list.textures[i]) is Some
            && list.textures[i]->0.resource == resource {
        let i = choose|i: int|
            0 <= i < list.textures.len() && (#[trigger] list.textures[i]) is Some
                && list.textures[i]->0.resource == resource;
        assert(list.lives(i));
    }
}

/// Law: an atlas that was just made has no tiles and no textures.
pub proof fn lemma_empty_atlas_holds_nothing(
    device: usize,
    key: u64,
    kind: AtlasTextureKind,
    index: int,
)
    ensures
        AtlasModel::empty(device).device == device,
        !AtlasModel::empty(device).tiles.contains_key(key),
        !AtlasModel::empty(device).list(kind).lives(index),
        AtlasModel::empty(device).list(kind).free_list.len() == 0,
        AtlasModel::empty(device).list(kind).textures.len() == 0,
{
}

/// Law: taking a tile changes the one texture that the tile is from: it has one rectangle
/// more, which no tile had before, that starts at the tile's origin and holds it.
pub proof fn lemma_taking_changes_one_texture(
    atlas: AtlasModel,
    key: AtlasKey,
    tile: AtlasTile,
    after: AtlasModel,
    kind: AtlasTextureKind,
    index: int,
)
    requires
        atlas.sound(),
        atlas.took(key, tile, after),
    ensures
        after.device == atlas.device,
        tile.texture_id.kind == key.kind,
        !atlas.taken_with(tile).contains_key(tile.tile_id.0),
        after.taken_with(tile) == atlas.taken_with(tile).insert(
            tile.tile_id.0,
            after.taken_with(tile)[tile.tile_id.0],
        ),
        after.taken_with(tile)[tile.tile_id.0].min == tile.bounds.origin,
        after.taken_with(tile)[tile.tile_id.0].max.x.0 >= tile.bounds.origin.x.0
            + tile.bounds.size.width.0,
        after.taken_with(tile)[tile.tile_id.0].max.y.0 >= tile.bounds.origin.y.0
            + tile.bounds.size.height.0,
        after.list(kind).lives(index) <==> atlas.list(kind).lives(index),
        kind != tile.texture_id.kind || index != tile.texture_id.index ==> after.taken(kind, index)
            == atlas.taken(kind, index),
        atlas.list(kind).lives(index) ==> after.list(kind).texture(index).resource == atlas.list(
            kind,
        ).texture(index).resource,
{
    let list = atlas.list(key.kind);
    let used = list.roomy(tile.bounds.size, list.textures.len());
    assert(list.texture(used).sound(key.kind, used));
    let now = after.list(key.kind);
    if 0 <= index < list.textures.len() && index != used {
        assert(now.textures[index] == list.textures[index]);
    }
    let taken = held(now.texture(used).allocator);
    assert(taken =~= held(list.texture(used).allocator).insert(
        tile.tile_id.0,
        taken[tile.tile_id.0],
    ));
}

/// Law: a tile from a texture that was created for it is the first of that texture, which
/// has a slot in which none lived; no other texture changes.
pub proof fn lemma_new_texture_starts_with_its_tile(
    atlas: AtlasModel,
    key: AtlasKey,
    tile: AtlasTile,
    resource: u64,
    after: AtlasModel,
    kind: AtlasTextureKind,
    index: int,
)
    requires
        atlas.sound(),
        atlas.took_new(key, tile, NewTexture::Created(resource), after),
    ensures
        after.device == atlas.device,
        tile.texture_id.kind == key.kind,
        tile.texture_id.index == atlas.list(key.kind).next_slot() as u32,
        !atlas.list(key.kind).lives(atlas.list(key.kind).next_slot()),
        after.list(key.kind).lives(atlas.list(key.kind).next_slot()),
        after.list(key.kind).texture(atlas.list(key.kind).next_slot()).resource == resource,
        forall|id: u32|
            held(
                after.list(key.kind).texture(atlas.list(key.kind).next_slot()).allocator,
            ).contains_key(id) <==> id == tile.tile_id.0,
        kind != key.kind || index != atlas.list(key.kind).next_slot() ==> (after.list(kind).lives(
            index,
        ) <==> atlas.list(kind).lives(index)) && after.taken(kind, index) == atlas.taken(
            kind,
            index,
        ),
{
    let list = atlas.list(key.kind);
    let slot = list.next_slot();
    let now = after.list(key.kind);
    let middle = choose|middle: ListModel|
        {
            &&& #[trigger] list.pushed(
                tile.bounds.size,
                key.kind,
                NewTexture::Created(resource),
                middle,
            )
            &&& middle.texture(slot).offer(tile.bounds.size) == Some(tile)
            &&& middle.changed_at(slot, now)
            &&& middle.texture(slot).handed_out(tile, now.texture(slot))
        };
    if list.free_list.len() > 0 {
        let last = list.free_list.len() - 1;
        assert(list.free_list[last] < list.textures.len());
    }
    if 0 <= index < list.textures.len() && index != slot {
        assert(middle.textures[index] == list.textures[index]);
        assert(now.textures[index] == middle.textures[index]);
    }
    let taken = held(now.texture(slot).allocator);
    assert forall|id: u32| taken.contains_key(id) implies id == tile.tile_id.0 by {
        if id != tile.tile_id.0 {
            assert(taken.remove(tile.tile_id.0).contains_key(id));
        }
    }
}

/// Law: every rectangle that is taken belongs to the tile of a key: none is lost.
pub proof fn lemma_no_rectangle_is_lost(
    atlas: AtlasModel,
    kind: AtlasTextureKind,
    index: int,
    id: u32,
) -> (key: u64)
    requires
        atlas.sound(),
        atlas.list(kind).lives(index),
        held(atlas.list(kind).texture(index).allocator).contains_key(id),
    ensures
        atlas.tiles.contains_key(key),
        atlas.tiles[key].texture_id == (AtlasTextureId { index: index as u32, kind }),
        atlas.tiles[key].tile_id.0 == id,
{
    assert(atlas.taken(kind, index).contains_key(id));
    let key = choose|key: u64| atlas.owns(key, kind, index, id);
    assert(atlas.owns(key, kind, index, id));
    key
}

/// Law: what is answered to a key without a tile. Nothing changes where the image could
/// not be built or there is none; else the key has a tile of the image's size for the
/// pixels that were built, unless no texture of its kind has room and none can be made
/// that would hold it.
pub proof fn lemma_what_inserting_answers<B, E>(
    atlas: AtlasModel,
    key: AtlasKey,
    built: Result<Option<(Size<DevicePixels>, B)>, E>,
    created: spec_fn(TextureDesc, NewTexture) -> bool,
    result: Result<Option<Inserted<B>>, InsertError<E>>,
    after: AtlasModel,
)
    requires
        atlas.sound(),
        !atlas.tiles.contains_key(key.id),
        atlas.inserted(key, built, created, result, after),
    ensures
        built is Err <==> result is Err && result->Err_0 is Build,
        built is Err ==> result->Err_0->Build_0 == built->Err_0 && after == atlas,
        (built is Ok && built->Ok_0 is None) <==> (result is Ok && result->Ok_0 is None),
        result is Ok && result->Ok_0 is None ==> after == atlas,
        result matches Ok(Some(Inserted::New(tile, pixels))) ==> {
            &&& built is Ok && built->Ok_0 == Some((tile.bounds.size, pixels))
            &&& tile.texture_id.kind == key.kind
            &&& after.tiles == atlas.tiles.insert(key.id, tile)
        },
        result is Err && result->Err_0 is NoRoom ==> after.tiles == atlas.tiles,
        result is Err && result->Err_0 is NoRoom ==> (built matches Ok(Some(image)) && atlas.full(
            key,
            image.0,
        )),
        built matches Ok(Some(image)) ==> (0 < image.0.width.0 <= 16384 && 0 < image.0.height.0
            <= 16384 && atlas.list(key.kind).textures.len() < u32::MAX && (forall|
            desc: TextureDesc,
            outcome: NewTexture,
        | #[trigger]
            created(desc, outcome) ==> outcome is Created) ==> result is Ok),
        !(result matches Ok(Some(Inserted::Found(_)))),
{
}

/// Law: an upload is refused at once exactly if there is nothing to copy, and a tile is
/// written again exactly if it is the key's own and of the right size.
pub proof fn lemma_when_a_tile_is_written_again(
    atlas: AtlasModel,
    key: AtlasKey,
    size: Size<DevicePixels>,
    source_is_null: bool,
)
    ensures
        ({
            let plan = atlas.upload_plan(key, size, source_is_null);
            let something = !source_is_null && size.width.0 > 0 && size.height.0 > 0;
            &&& plan is Refuse <==> !something
            &&& plan is Reuse <==> something && exists|tile: AtlasTile|
                tile.bounds.size == size && #[trigger] atlas.tiles.get(key.id) == Some(tile)
            &&& plan matches UploadPlan::Reuse(tile) ==> atlas.tiles.contains_key(key.id)
                && atlas.tiles[key.id] == tile && tile.bounds.size == size
        }),
{
    if atlas.upload_plan(key, size, source_is_null) is Reuse {
        assert(atlas.tiles.get(key.id) == Some(atlas.tiles[key.id]));
    }
}

/// Law: a texture can be copied exactly if it has the format of colour tiles, is as large as
/// the region and belongs to the atlas's device. Of the reasons against it the first one
/// is given, in this order.
pub proof fn lemma_what_can_be_copied(
    atlas: AtlasModel,
    source: SourceTexture,
    size: Size<DevicePixels>,
)
    ensures
        ({
            let format = source.format == pixel_format(AtlasTextureKind::Polychrome);
            let large = source.width >= size.width.0 && source.height >= size.height.0;
            let own = source.device == Some(atlas.device);
            let refusal = atlas.refusal(source, size);
            &&& refusal is None <==> format && large && own
            &&& refusal == Some(CopyRefusal::Format) <==> !format
            &&& refusal == Some(CopyRefusal::TooSmall) <==> format && !large
            &&& refusal == Some(CopyRefusal::OtherDevice) <==> format && large && !own
        }),
{
}

/// Law: what an upload answers where a tile is to be taken. It is refused, and changes
/// nothing, exactly if the source cannot be copied; else the tile that the key had is
/// given back, and the key has the new tile or none; no other key's tile changes.
pub proof fn lemma_upload_changes_one_key(
    atlas: AtlasModel,
    key: AtlasKey,
    size: Size<DevicePixels>,
    source: SourceTexture,
    result: GpuUpload,
    after: AtlasModel,
    other: u64,
)
    requires
        atlas.replaced(key, size, source, result, after),
        other != key.id,
    ensures
        result is Refused <==> atlas.refusal(source, size) is Some,
        result is Refused ==> after == atlas,
        result matches GpuUpload::Tile(tile) ==> after.tiles.get(key.id) == Some(tile)
            && tile.bounds.size == size,
        result matches GpuUpload::NeedsTexture(desc) ==> !after.tiles.contains_key(key.id) && desc
            == atlas_texture_desc(size, key.kind) && after.full(key, size),
        after.tiles.get(other) == atlas.tiles.get(other),
        after.device == atlas.device,
{
}

/// Law: the texels of a tile are those of its bounds, all of them in its texture.
pub proof fn lemma_tile_box_is_the_tile(atlas: AtlasModel, key: u64)
    requires
        atlas.sound(),
        atlas.tiles.contains_key(key),
    ensures
        ({
            let tile = atlas.tiles[key];
            let texels = tile_box(tile);
            let size = extent(
                atlas.list(tile.texture_id.kind).texture(tile.texture_id.index as int).allocator,
            );
            &&& texels.left == tile.bounds.origin.x.0
            &&& texels.top == tile.bounds.origin.y.0
            &&& texels.right - texels.left == tile.bounds.size.width.0
            &&& texels.bottom - texels.top == tile.bounds.size.height.0
            &&& texels.right <= size.width.0
            &&& texels.bottom <= size.height.0
        }),
{
    lemma_tile_inside_texture(atlas, key);
}

/// Whether a pixel is in a rectangle.
pub open spec fn has_pixel(bounds: DeviceBounds, x: int, y: int) -> bool {
    &&& bounds.origin.x.0 <= x < bounds.origin.x.0 + bounds.size.width.0
    &&& bounds.origin.y.0 <= y < bounds.origin.y.0 + bounds.size.height.0
}

/// Law: two rectangles with extent are apart exactly if no pixel is in both.
pub proof fn lemma_apart_is_no_pixel_in_common(a: DeviceBounds, b: DeviceBounds)
    requires
        0 < a.size.width.0 && 0 < a.size.height.0,
        0 < b.size.width.0 && 0 < b.size.height.0,
    ensures
        bounds_apart(a, b) <==> !exists|x: int, y: int|
            has_pixel(a, x, y) && #[trigger] has_pixel(b, x, y),
{
    if !bounds_apart(a, b) {
        let x = if a.origin.x.0 < b.origin.x.0 {
            b.origin.x.0 as int
        } else {
            a.origin.x.0 as int
        };
        let y = if a.origin.y.0 < b.origin.y.0 {
            b.origin.y.0 as int
        } else {
            a.origin.y.0 as int
        };
        assert(has_pixel(a, x, y) && has_pixel(b, x, y));
    }
}

/// Whether a texel is in a packed rectangle.
pub open spec fn has_texel(rect: PackedRect, x: int, y: int) -> bool {
    &&& rect.min.x.0 <= x < rect.max.x.0
    &&& rect.min.y.0 <= y < rect.max.y.0
}

/// Law: two packed rectangles that have extent are apart exactly if no texel is in both.
pub proof fn lemma_packed_apart_is_no_texel_in_common(a: PackedRect, b: PackedRect)
    requires
        a.min.x.0 < a.max.x.0 && a.min.y.0 < a.max.y.0,
        b.min.x.0 < b.max.x.0 && b.min.y.0 < b.max.y.0,
    ensures
        a.apart(b) <==> !exists|x: int, y: int| has_texel(a, x, y) && #[trigger] has_texel(b, x, y),
{
    if !a.apart(b) {
        let x = if a.min.x.0 < b.min.x.0 {
            b.min.x.0 as int
        } else {
            a.min.x.0 as int
        };
        let y = if a.min.y.0 < b.min.y.0 {
            b.min.y.0 as int
        } else {
            a.min.y.0 as int
        };
        assert(has_texel(a, x, y) && has_texel(b, x, y));
    }
}

} // verus!
