use batch2d::color::Rgba8;
use batch2d::texture::{Atlas, AtlasError, Image, SpriteRect};

#[test]
fn gen_image_color_fills_every_pixel() {
    let red = Rgba8::new(255, 0, 0, 255);
    let img = Image::gen_image_color(3, 2, red);
    assert_eq!(img.width, 3);
    assert_eq!(img.height, 2);
    assert_eq!(img.bytes.len(), 3 * 2 * 4);
    for y in 0..2 {
        for x in 0..3 {
            assert_eq!(img.get_pixel(x, y), red);
        }
    }
}

#[test]
fn set_pixel_changes_only_its_target() {
    let black = Rgba8::zero();
    let blue = Rgba8::new(0, 0, 255, 255);
    let mut img = Image::gen_image_color(4, 4, black);
    img.set_pixel(2, 1, blue);
    for y in 0..4 {
        for x in 0..4 {
            let expected = if (x, y) == (2, 1) { blue } else { black };
            assert_eq!(img.get_pixel(x, y), expected);
        }
    }
}

#[test]
fn sub_image_copies_the_window() {
    let mut img = Image::gen_image_color(4, 3, Rgba8::zero());
    img.set_pixel(1, 1, Rgba8::new(10, 20, 30, 40));
    img.set_pixel(2, 2, Rgba8::new(50, 60, 70, 80));

    let sub = img.sub_image(1, 1, 2, 2);
    assert_eq!(sub.width, 2);
    assert_eq!(sub.height, 2);
    assert_eq!(sub.get_pixel(0, 0), Rgba8::new(10, 20, 30, 40));
    assert_eq!(sub.get_pixel(1, 1), Rgba8::new(50, 60, 70, 80));
    assert_eq!(sub.get_pixel(1, 0), Rgba8::zero());
    assert_eq!(sub.get_pixel(0, 1), Rgba8::zero());
}

#[test]
fn atlas_caches_and_looks_up() {
    let mut atlas = Atlas::new(64, 16, 64);
    assert_eq!(atlas.lookup_uv(1), None);

    let img = Image::gen_image_color(10, 8, Rgba8::white());
    let rect = atlas.cache(1, img).unwrap();
    assert_eq!(rect, SpriteRect { x: 0, y: 0, w: 10, h: 8 });
    assert_eq!(atlas.lookup_uv(1), Some(rect));
    assert_eq!(atlas.lookup_uv(2), None);
}

#[test]
fn atlas_recache_same_content_returns_same_rect() {
    let mut atlas = Atlas::new(64, 16, 64);
    let img = Image::gen_image_color(10, 8, Rgba8::white());
    let again = Image::gen_image_color(10, 8, Rgba8::white());

    let first = atlas.cache(7, img).unwrap();
    let second = atlas.cache(7, again).unwrap();
    assert_eq!(first, second);
    assert_eq!(atlas.lookup_uv(7), Some(first));
}

#[test]
fn atlas_entries_do_not_overlap() {
    let mut atlas = Atlas::new(32, 16, 64);
    let a = atlas
        .cache(1, Image::gen_image_color(12, 8, Rgba8::white()))
        .unwrap();
    let b = atlas
        .cache(2, Image::gen_image_color(12, 8, Rgba8::white()))
        .unwrap();
    // Same row, side by side.
    assert_eq!(a, SpriteRect { x: 0, y: 0, w: 12, h: 8 });
    assert_eq!(b, SpriteRect { x: 12, y: 0, w: 12, h: 8 });

    // The third image no longer fits the row and starts a fresh one below.
    let c = atlas
        .cache(3, Image::gen_image_color(12, 8, Rgba8::white()))
        .unwrap();
    assert_eq!(c, SpriteRect { x: 0, y: 8, w: 12, h: 8 });

    // Earlier rectangles are untouched.
    assert_eq!(atlas.lookup_uv(1), Some(a));
    assert_eq!(atlas.lookup_uv(2), Some(b));
}

#[test]
fn atlas_rejects_oversized_image() {
    let mut atlas = Atlas::new(32, 16, 64);
    let wide = Image::gen_image_color(33, 4, Rgba8::white());
    assert_eq!(atlas.cache(1, wide), Err(AtlasError::ImageTooLarge));
    let tall = Image::gen_image_color(4, 65, Rgba8::white());
    assert_eq!(atlas.cache(2, tall), Err(AtlasError::ImageTooLarge));
    assert_eq!(atlas.lookup_uv(1), None);
    assert_eq!(atlas.lookup_uv(2), None);
}

#[test]
fn atlas_full_leaves_entries_untouched() {
    let mut atlas = Atlas::new(16, 8, 8);
    let a = atlas
        .cache(1, Image::gen_image_color(16, 8, Rgba8::white()))
        .unwrap();
    // No room left below the first row: the next image is refused and the
    // first entry's rectangle survives unharmed.
    let refused = atlas.cache(2, Image::gen_image_color(16, 8, Rgba8::white()));
    assert_eq!(refused, Err(AtlasError::AtlasFull));
    assert_eq!(atlas.lookup_uv(1), Some(a));
    assert_eq!(atlas.lookup_uv(2), None);
}

#[test]
fn atlas_rejects_dimension_change_for_cached_id() {
    let mut atlas = Atlas::new(64, 16, 64);
    let first = atlas
        .cache(5, Image::gen_image_color(8, 8, Rgba8::white()))
        .unwrap();
    let changed = atlas.cache(5, Image::gen_image_color(9, 8, Rgba8::white()));
    assert_eq!(changed, Err(AtlasError::SizeMismatch));
    assert_eq!(atlas.lookup_uv(5), Some(first));
}

#[test]
fn atlas_grows_downward_without_moving_entries() {
    let mut atlas = Atlas::new(16, 4, 64);
    let a = atlas
        .cache(1, Image::gen_image_color(16, 4, Rgba8::white()))
        .unwrap();
    // The next row lies beyond the initial height; the atlas grows and the
    // first rectangle stays where it was.
    let b = atlas
        .cache(2, Image::gen_image_color(16, 4, Rgba8::white()))
        .unwrap();
    assert_eq!(a, SpriteRect { x: 0, y: 0, w: 16, h: 4 });
    assert_eq!(b, SpriteRect { x: 0, y: 4, w: 16, h: 4 });
    assert_eq!(atlas.lookup_uv(1), Some(a));
}
