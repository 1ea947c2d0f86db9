use gpui_scene::atlas::{
    texture_desc, AtlasKey, CopyRefusal, GpuUpload, InsertError, Inserted, NewTexture,
    SourceTexture, TileRequest, UploadPlan,
};
use gpui_scene::atlas_state::{copy_region, DirectXAtlasState};
use gpui_scene::bucket_counts::BucketCounts;
use gpui_scene::geometry::{DevicePixels, Size};
use gpui_scene::gpu::{FORMAT_B8G8R8A8_UNORM, FORMAT_R8G8B8A8_UNORM, FORMAT_R8_UNORM};
use gpui_scene::refusals::{RefusalLog, UploadRefusal};
use gpui_scene::tile::{AtlasTextureKind, AtlasTile};

type Built = Result<Option<(Size<DevicePixels>, Vec<u8>)>, String>;

const DEVICE: usize = 0x1000;
const OTHER_DEVICE: usize = 0x2000;

fn size(width: i32, height: i32) -> Size<DevicePixels> {
    Size {
        width: DevicePixels(width),
        height: DevicePixels(height),
    }
}

fn make_image_key(image_id: u64) -> AtlasKey {
    AtlasKey {
        id: image_id,
        kind: AtlasTextureKind::Polychrome,
    }
}

/// A BGRA texture of a device, in the shape that an upload accepts.
fn create_source(device: usize, size: Size<DevicePixels>) -> SourceTexture {
    SourceTexture {
        format: FORMAT_B8G8R8A8_UNORM,
        width: size.width.0 as u32,
        height: size.height.0 as u32,
        device: Some(device),
    }
}

/// Takes a tile on a device that creates every texture it is asked for.
fn insert_tile(
    atlas: &mut DirectXAtlasState,
    key: AtlasKey,
    size: Size<DevicePixels>,
) -> AtlasTile {
    let built: Built = Ok(Some((size, Vec::new())));
    let inserted = atlas
        .get_or_insert_with(key, || built, |_| NewTexture::Created(key.id))
        .expect("allocation should succeed")
        .expect("callback returns Some");
    match inserted {
        Inserted::Found(tile) => tile,
        Inserted::New(tile, _) => tile,
    }
}

/// Uploads on a device that creates every texture it is asked for.
fn upload(
    atlas: &mut DirectXAtlasState,
    key: AtlasKey,
    size: Size<DevicePixels>,
    source: Option<SourceTexture>,
) -> Option<AtlasTile> {
    let found = atlas.upload_from_gpu(key, size, source.is_none(), || source.unwrap());
    match found {
        GpuUpload::Refused => None,
        GpuUpload::Tile(tile) => Some(tile),
        GpuUpload::NeedsTexture(_) => {
            atlas.allocate_in_new_texture(key, size, NewTexture::Created(key.id))
        }
    }
}

#[test]
fn test_remove_deallocates_tile_space_for_reuse() {
    let mut atlas = DirectXAtlasState::new(DEVICE);
    let small = size(64, 64);
    let big = size(700, 700);

    let keeper_key = make_image_key(1);
    let big_key_a = make_image_key(2);
    let big_key_b = make_image_key(3);

    let keeper_tile = insert_tile(&mut atlas, keeper_key, small);
    let tile_a = insert_tile(&mut atlas, big_key_a, big);
    assert_eq!(keeper_tile.texture_id, tile_a.texture_id);

    atlas.remove(big_key_a);

    let tile_b = insert_tile(&mut atlas, big_key_b, big);
    assert_eq!(tile_b.texture_id, keeper_tile.texture_id);
}

#[test]
fn gpu_upload_reuses_one_tile_and_follows_a_resize() {
    let mut atlas = DirectXAtlasState::new(DEVICE);

    let first_size = size(320, 180);
    let source = create_source(DEVICE, first_size);
    let key = make_image_key(10);

    let first = upload(&mut atlas, key, first_size, Some(source))
        .expect("a same-device BGRA texture is acceptable");
    for _ in 0..8 {
        let again = upload(&mut atlas, key, first_size, Some(source))
            .expect("the tile is reused, not reallocated");
        assert_eq!(again.tile_id, first.tile_id);
        assert_eq!(again.bounds, first.bounds);
    }

    // A resize takes a new tile of the new size and frees the old one.
    let bigger = size(640, 360);
    let bigger_source = create_source(DEVICE, bigger);
    let resized = upload(&mut atlas, key, bigger, Some(bigger_source))
        .expect("a resize is still acceptable");
    assert_eq!(resized.bounds.size, bigger);
    assert_eq!(atlas.find(key), Some(resized));
}

#[test]
fn gpu_upload_refuses_null_wrong_device_and_wrong_format() {
    let mut atlas = DirectXAtlasState::new(DEVICE);
    let tile_size = size(64, 64);

    assert!(
        upload(&mut atlas, make_image_key(20), tile_size, None).is_none(),
        "a null handle is not a texture"
    );

    // A texture on a different device: what a lost device leaves every
    // producer holding.
    let foreign = create_source(OTHER_DEVICE, tile_size);
    assert!(
        upload(&mut atlas, make_image_key(21), tile_size, Some(foreign)).is_none(),
        "a texture from another device must be refused, not silently copied"
    );

    // Wrong format: the polychrome atlas is BGRA8 and nothing else.
    let rgba = SourceTexture {
        format: FORMAT_R8G8B8A8_UNORM,
        width: 64,
        height: 64,
        device: Some(DEVICE),
    };
    assert!(
        upload(&mut atlas, make_image_key(22), tile_size, Some(rgba)).is_none(),
        "RGBA into a BGRA atlas would swap the channels silently"
    );
    assert_eq!(atlas.find(make_image_key(20)), None);
    assert_eq!(atlas.find(make_image_key(21)), None);
    assert_eq!(atlas.find(make_image_key(22)), None);
}

#[test]
fn each_refusal_has_its_reason() {
    let atlas = DirectXAtlasState::new(DEVICE);
    let asked = size(64, 32);
    let good = create_source(DEVICE, asked);
    assert_eq!(atlas.copy_refusal(good, asked), None);
    assert!(atlas.can_copy_from(good, asked));
    let rgba = SourceTexture {
        format: FORMAT_R8G8B8A8_UNORM,
        ..good
    };
    assert_eq!(atlas.copy_refusal(rgba, asked), Some(CopyRefusal::Format));
    let narrow = SourceTexture { width: 63, ..good };
    assert_eq!(atlas.copy_refusal(narrow, asked), Some(CopyRefusal::TooSmall));
    let low = SourceTexture { height: 31, ..good };
    assert_eq!(atlas.copy_refusal(low, asked), Some(CopyRefusal::TooSmall));
    let foreign = create_source(OTHER_DEVICE, asked);
    assert_eq!(
        atlas.copy_refusal(foreign, asked),
        Some(CopyRefusal::OtherDevice)
    );
    let unknown = SourceTexture {
        device: None,
        ..good
    };
    assert_eq!(
        atlas.copy_refusal(unknown, asked),
        Some(CopyRefusal::OtherDevice)
    );
    assert!(!atlas.can_copy_from(unknown, asked));
}

#[test]
fn empty_uploads_are_refused_before_anything_is_looked_at() {
    let mut atlas = DirectXAtlasState::new(DEVICE);
    let key = make_image_key(30);
    for empty in [size(0, 5), size(5, 0), size(-1, 5), size(5, -7)] {
        assert_eq!(atlas.plan_upload(key, empty, false), UploadPlan::Refuse);
        let source = create_source(DEVICE, size(64, 64));
        assert_eq!(
            atlas.upload_from_gpu(key, empty, false, || source),
            GpuUpload::Refused
        );
    }
    assert_eq!(
        atlas.plan_upload(key, size(5, 5), true),
        UploadPlan::Refuse
    );
    assert_eq!(
        atlas.plan_upload(key, size(5, 5), false),
        UploadPlan::Inspect
    );
    let tile = insert_tile(&mut atlas, key, size(5, 5));
    assert_eq!(
        atlas.plan_upload(key, size(5, 5), false),
        UploadPlan::Reuse(tile)
    );
    assert_eq!(
        atlas.plan_upload(key, size(5, 6), false),
        UploadPlan::Inspect
    );
}

#[test]
fn a_refused_resize_keeps_the_old_tile() {
    let mut atlas = DirectXAtlasState::new(DEVICE);
    let key = make_image_key(40);
    let old = size(100, 100);
    let tile = upload(&mut atlas, key, old, Some(create_source(DEVICE, old))).unwrap();
    let new = size(200, 200);
    assert_eq!(
        upload(&mut atlas, key, new, Some(create_source(OTHER_DEVICE, new))),
        None
    );
    assert_eq!(atlas.find(key), Some(tile));
}

fn apart(a: AtlasTile, b: AtlasTile) -> bool {
    let (ax, ay) = (a.bounds.origin.x.0, a.bounds.origin.y.0);
    let (bx, by) = (b.bounds.origin.x.0, b.bounds.origin.y.0);
    ax + a.bounds.size.width.0 <= bx
        || bx + b.bounds.size.width.0 <= ax
        || ay + a.bounds.size.height.0 <= by
        || by + b.bounds.size.height.0 <= ay
}

#[test]
fn tiles_never_overlap_and_lie_in_their_texture() {
    let mut atlas = DirectXAtlasState::new(DEVICE);
    let mut tiles: Vec<(AtlasKey, AtlasTile)> = Vec::new();
    for id in 0u64..400 {
        let key = make_image_key(id);
        let wanted = size(8 + (id as i32 * 13) % 90, 8 + (id as i32 * 7) % 60);
        let tile = insert_tile(&mut atlas, key, wanted);
        assert_eq!(tile.bounds.size, wanted);
        tiles.push((key, tile));
        if id % 3 == 2 {
            let (gone, _) = tiles.remove((id as usize * 5) % tiles.len());
            atlas.remove(gone);
            assert_eq!(atlas.find(gone), None);
        }
    }
    for (i, (key, tile)) in tiles.iter().enumerate() {
        assert_eq!(atlas.find(*key), Some(*tile));
        assert!(tile.bounds.origin.x.0 >= 0 && tile.bounds.origin.y.0 >= 0);
        assert!(tile.bounds.origin.x.0 + tile.bounds.size.width.0 <= 1024);
        assert!(tile.bounds.origin.y.0 + tile.bounds.size.height.0 <= 1024);
        for (_, other) in &tiles[i + 1..] {
            assert!(tile.texture_id != other.texture_id || apart(*tile, *other));
        }
    }
}

#[test]
fn textures_are_sized_between_the_limits() {
    let small = texture_desc(size(10, 2000), AtlasTextureKind::Polychrome);
    assert_eq!((small.width, small.height), (1024, 2000));
    assert_eq!(small.format, FORMAT_B8G8R8A8_UNORM);
    assert_eq!((small.mip_levels, small.array_size), (1, 1));
    assert_eq!((small.sample_count, small.sample_quality), (1, 0));
    assert_eq!(small.bind_flags, 8);
    let large = texture_desc(size(16385, -3), AtlasTextureKind::Monochrome);
    assert_eq!((large.width, large.height), (16384, 1024));
    assert_eq!(large.format, FORMAT_R8_UNORM);
    let subpixel = texture_desc(size(1, 1), AtlasTextureKind::Subpixel);
    assert_eq!(subpixel.format, FORMAT_R8G8B8A8_UNORM);
}

#[test]
fn a_failing_device_gives_no_tile() {
    let mut atlas = DirectXAtlasState::new(DEVICE);
    let key = make_image_key(50);
    let wanted = size(64, 64);
    assert!(matches!(
        atlas.allocate(key, wanted),
        TileRequest::NeedsTexture(_)
    ));
    assert_eq!(
        atlas.allocate_in_new_texture(key, wanted, NewTexture::TextureFailed),
        None
    );
    assert_eq!(
        atlas.allocate_in_new_texture(key, wanted, NewTexture::ViewFailed),
        None
    );
    assert_eq!(atlas.find(key), None);
    let tile = atlas
        .allocate_in_new_texture(key, wanted, NewTexture::Created(7))
        .unwrap();
    assert_eq!(atlas.texture(tile.texture_id), 7);
}

#[test]
fn an_image_larger_than_any_texture_gets_no_tile() {
    let mut atlas = DirectXAtlasState::new(DEVICE);
    let key = make_image_key(60);
    let wanted = size(16385, 4);
    assert_eq!(
        atlas.allocate_in_new_texture(key, wanted, NewTexture::Created(1)),
        None
    );
    let wanted = size(16384, 4);
    let tile = atlas
        .allocate_in_new_texture(key, wanted, NewTexture::Created(2))
        .unwrap();
    assert_eq!(tile.bounds.size, wanted);
    assert_eq!(tile.texture_id.index, 1);
}

#[test]
fn the_last_tile_of_a_texture_frees_its_slot() {
    let mut atlas = DirectXAtlasState::new(DEVICE);
    let a = make_image_key(1);
    let b = make_image_key(2);
    let tile_a = insert_tile(&mut atlas, a, size(1000, 1000));
    let tile_b = insert_tile(&mut atlas, b, size(1000, 1000));
    assert_eq!(tile_a.texture_id.index, 0);
    assert_eq!(tile_b.texture_id.index, 1);
    atlas.remove(a);
    atlas.remove(a);
    let c = make_image_key(3);
    let tile_c = insert_tile(&mut atlas, c, size(1000, 1000));
    assert_eq!(tile_c.texture_id.index, 0);
    assert_eq!(atlas.texture(tile_c.texture_id), 3);
    assert_eq!(atlas.find(b), Some(tile_b));
}

#[test]
fn a_slot_picked_for_a_texture_without_a_view_is_lost() {
    let mut atlas = DirectXAtlasState::new(DEVICE);
    let a = make_image_key(1);
    insert_tile(&mut atlas, a, size(10, 10));
    atlas.remove(a);
    assert_eq!(
        atlas.allocate_in_new_texture(a, size(10, 10), NewTexture::ViewFailed),
        None
    );
    let tile = atlas
        .allocate_in_new_texture(a, size(10, 10), NewTexture::Created(9))
        .unwrap();
    assert_eq!(tile.texture_id.index, 1);
}

#[test]
fn a_lost_device_takes_every_tile_along() {
    let mut atlas = DirectXAtlasState::new(DEVICE);
    let key = make_image_key(70);
    let wanted = size(64, 64);
    insert_tile(&mut atlas, key, wanted);
    atlas.handle_device_lost(OTHER_DEVICE);
    assert_eq!(atlas.find(key), None);
    assert!(!atlas.can_copy_from(create_source(DEVICE, wanted), wanted));
    assert!(atlas.can_copy_from(create_source(OTHER_DEVICE, wanted), wanted));
}

#[test]
fn short_pixel_data_is_not_uploaded() {
    let mut atlas = DirectXAtlasState::new(DEVICE);
    let key = make_image_key(80);
    let tile = insert_tile(&mut atlas, key, size(10, 20));
    assert_eq!(atlas.upload_region(key, tile, 799), None);
    let region = atlas.upload_region(key, tile, 800).unwrap();
    assert_eq!(region.row_pitch, 40);
    assert_eq!(region.region.left, tile.bounds.origin.x.0 as u32);
    assert_eq!(region.region.right, tile.bounds.origin.x.0 as u32 + 10);
    assert_eq!(region.region.bottom, tile.bounds.origin.y.0 as u32 + 20);

    let mono = AtlasKey {
        id: 81,
        kind: AtlasTextureKind::Monochrome,
    };
    let tile = insert_tile(&mut atlas, mono, size(10, 20));
    assert_eq!(atlas.upload_region(mono, tile, 199), None);
    assert_eq!(atlas.upload_region(mono, tile, 200).unwrap().row_pitch, 10);
}

#[test]
fn a_copy_goes_from_the_first_texel_to_the_tile() {
    let mut atlas = DirectXAtlasState::new(DEVICE);
    insert_tile(&mut atlas, make_image_key(1), size(64, 64));
    let tile = insert_tile(&mut atlas, make_image_key(2), size(32, 16));
    let copy = copy_region(tile);
    assert_eq!((copy.source.left, copy.source.top), (0, 0));
    assert_eq!((copy.source.right, copy.source.bottom), (32, 16));
    assert_eq!(copy.x, tile.bounds.origin.x.0 as u32);
    assert_eq!(copy.y, tile.bounds.origin.y.0 as u32);
}

/// What a key gets on a device that creates every texture it is asked for, and
/// how often the image was built and a texture created.
fn get_or_insert(
    atlas: &mut DirectXAtlasState,
    key: AtlasKey,
    built: Built,
) -> (Result<Option<Inserted<Vec<u8>>>, InsertError<String>>, u32, u32) {
    let (mut builds, mut textures) = (0, 0);
    let result = atlas.get_or_insert_with(
        key,
        || {
            builds += 1;
            built
        },
        |_| {
            textures += 1;
            NewTexture::Created(key.id)
        },
    );
    (result, builds, textures)
}

#[test]
fn a_missing_key_is_built_once_and_found_afterwards() {
    let mut atlas = DirectXAtlasState::new(DEVICE);
    let key = make_image_key(1);
    let wanted = size(10, 20);
    let (result, builds, textures) =
        get_or_insert(&mut atlas, key, Ok(Some((wanted, vec![1, 2, 3]))));
    let Ok(Some(Inserted::New(tile, pixels))) = result else {
        panic!("the key takes a tile");
    };
    assert_eq!((builds, textures), (1, 1));
    assert_eq!(pixels, vec![1, 2, 3]);
    assert_eq!(tile.bounds.size, wanted);
    assert_eq!(tile.texture_id.kind, AtlasTextureKind::Polychrome);
    assert_eq!(atlas.find(key), Some(tile));

    let (result, builds, textures) = get_or_insert(&mut atlas, key, Err("not built".to_string()));
    assert!(matches!(result, Ok(Some(Inserted::Found(found))) if found == tile));
    assert_eq!((builds, textures), (0, 0));

    // The texture has room for another.
    let (result, builds, textures) =
        get_or_insert(&mut atlas, make_image_key(2), Ok(Some((wanted, Vec::new()))));
    assert!(matches!(result, Ok(Some(Inserted::New(_, _)))));
    assert_eq!((builds, textures), (1, 0));
}

#[test]
fn an_image_that_is_not_built_takes_nothing() {
    let mut atlas = DirectXAtlasState::new(DEVICE);
    let key = make_image_key(1);
    let (result, builds, textures) = get_or_insert(&mut atlas, key, Err("broken".to_string()));
    assert!(matches!(result, Err(InsertError::Build(text)) if text == "broken"));
    assert_eq!((builds, textures), (1, 0));
    assert_eq!(atlas.find(key), None);
    let (result, builds, textures) = get_or_insert(&mut atlas, key, Ok(None));
    assert!(matches!(result, Ok(None)));
    assert_eq!((builds, textures), (1, 0));
    assert_eq!(atlas.find(key), None);
}

#[test]
fn an_image_without_room_is_an_error() {
    let mut atlas = DirectXAtlasState::new(DEVICE);
    let key = make_image_key(1);
    let (result, builds, textures) =
        get_or_insert(&mut atlas, key, Ok(Some((size(16385, 1), Vec::new()))));
    assert!(matches!(result, Err(InsertError::NoRoom)));
    assert_eq!((builds, textures), (1, 1));
    assert_eq!(atlas.find(key), None);

    let mut atlas = DirectXAtlasState::new(DEVICE);
    let built: Built = Ok(Some((size(8, 8), Vec::new())));
    let result = atlas.get_or_insert_with(key, || built, |_| NewTexture::TextureFailed);
    assert!(matches!(result, Err(InsertError::NoRoom)));
    assert_eq!(atlas.find(key), None);
}

#[test]
fn a_refusal_is_reported_once_for_each_reason_and_size() {
    let mut log = RefusalLog::new();
    let reasons = [
        UploadRefusal::Copy(CopyRefusal::Format),
        UploadRefusal::Copy(CopyRefusal::TooSmall),
        UploadRefusal::Copy(CopyRefusal::OtherDevice),
        UploadRefusal::NoRoom,
    ];
    for reason in reasons {
        for asked in [size(64, 64), size(64, 32), size(32, 64)] {
            assert!(log.report(reason, asked));
            assert!(!log.report(reason, asked));
        }
    }
    for reason in reasons {
        assert!(!log.report(reason, size(64, 64)));
    }
}

#[test]
fn two_refused_uploads_of_one_size_are_reported_once() {
    let atlas = DirectXAtlasState::new(DEVICE);
    let mut log = RefusalLog::new();
    let asked = size(64, 64);
    let foreign = create_source(OTHER_DEVICE, asked);
    assert_eq!(
        atlas.report_refusal(&mut log, foreign, asked),
        Some(CopyRefusal::OtherDevice)
    );
    assert_eq!(atlas.report_refusal(&mut log, foreign, asked), None);
    assert!(!atlas.can_copy_from(foreign, asked));
    // Another reason, and another size.
    let rgba = SourceTexture {
        format: FORMAT_R8G8B8A8_UNORM,
        ..foreign
    };
    assert_eq!(
        atlas.report_refusal(&mut log, rgba, asked),
        Some(CopyRefusal::Format)
    );
    let smaller = size(32, 32);
    assert_eq!(
        atlas.report_refusal(&mut log, foreign, smaller),
        Some(CopyRefusal::OtherDevice)
    );
    // What is not refused, and what is nothing, is not reported.
    assert_eq!(atlas.report_refusal(&mut log, foreign, size(0, 64)), None);
    let good = create_source(DEVICE, asked);
    assert_eq!(atlas.report_refusal(&mut log, good, asked), None);
    assert!(log.report(UploadRefusal::NoRoom, asked));
}

#[test]
fn a_source_is_looked_at_only_where_a_tile_is_taken() {
    let mut atlas = DirectXAtlasState::new(DEVICE);
    let key = make_image_key(90);
    let wanted = size(16, 16);
    let mut looks = 0;
    let mut look = |atlas: &mut DirectXAtlasState, null: bool| {
        atlas.upload_from_gpu(key, wanted, null, || {
            looks += 1;
            create_source(DEVICE, wanted)
        })
    };
    assert_eq!(look(&mut atlas, true), GpuUpload::Refused);
    assert!(matches!(
        look(&mut atlas, false),
        GpuUpload::NeedsTexture(_)
    ));
    let tile = atlas
        .allocate_in_new_texture(key, wanted, NewTexture::Created(1))
        .unwrap();
    for _ in 0..3 {
        assert_eq!(look(&mut atlas, false), GpuUpload::Tile(tile));
    }
    assert_eq!(looks, 1);
}

#[test]
fn a_texture_goes_on_as_long_as_its_buckets_do() {
    let mut atlas = DirectXAtlasState::new(DEVICE);
    let keeper = make_image_key(1);
    let first = insert_tile(&mut atlas, keeper, size(8, 8));
    for id in 0u64..70000 {
        let key = make_image_key(2 + id);
        let TileRequest::Tile(tile) = atlas.allocate(key, size(8, 8)) else {
            panic!("the texture has room");
        };
        assert_eq!(tile.texture_id, first.texture_id);
        atlas.remove(key);
    }
    assert_eq!(atlas.find(keeper), Some(first));
}

#[test]
fn a_bucket_that_cannot_count_further_ends_its_texture() {
    let mut atlas = DirectXAtlasState::new(DEVICE);
    let wanted = size(1000, 300);
    let (below, middle) = (make_image_key(1), make_image_key(2));
    let first = insert_tile(&mut atlas, below, wanted);
    insert_tile(&mut atlas, middle, wanted);
    let keeper = insert_tile(&mut atlas, make_image_key(3), size(1000, 380));
    assert_eq!(keeper.texture_id, first.texture_id);
    atlas.remove(below);
    atlas.remove(middle);
    // One of the two shelves below counts up to 4095 by itself. The other one
    // then does all the work, together with the height of the first.
    for id in 0u64..(0xFFFF - 1) + (0xFFF - 1) {
        let key = make_image_key(4 + id);
        let TileRequest::Tile(tile) = atlas.allocate(key, wanted) else {
            panic!("the texture has room");
        };
        atlas.remove(key);
        assert_eq!(tile.texture_id, first.texture_id);
    }
    let next = insert_tile(&mut atlas, make_image_key(0x20000), wanted);
    assert_ne!(next.texture_id, first.texture_id);
    assert_eq!(atlas.find(make_image_key(3)), Some(keeper));
}

#[test]
fn a_bucket_made_anew_counts_from_the_start() {
    let mut counts = BucketCounts::new();
    for _ in 0..0xFFFE {
        counts.count(0x0100_5007);
    }
    assert!(!counts.is_full());
    // Another bucket, and the same one in its next life.
    counts.count(0x0100_5008);
    counts.count(0x0200_1007);
    for count in 0u32..0xFFFD {
        counts.count(0x0200_0007 + ((count & 0xFFF) << 12));
    }
    assert!(!counts.is_full());
    counts.count(0x02AB_C007);
    assert!(counts.is_full());
}

#[test]
fn the_state_tells_which_textures_and_objects_are_in_use() {
    let mut atlas = DirectXAtlasState::new(DEVICE);
    let key = make_image_key(5);
    assert!(!atlas.uses_resource(5));
    assert!(atlas.can_add_texture(AtlasTextureKind::Polychrome));
    let tile = insert_tile(&mut atlas, key, size(8, 8));
    assert!(atlas.has_texture(tile.texture_id));
    assert!(atlas.uses_resource(5));
    assert!(!atlas.uses_resource(6));
    atlas.remove(key);
    assert!(!atlas.has_texture(tile.texture_id));
    assert!(!atlas.uses_resource(5));
}
