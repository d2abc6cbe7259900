use image::{DynamicImage, ImageFormat, Rgba, RgbaImage};
use imhumane::{canvas_side, cell_origin, compose, make_thumbnail, reuse_thumbnail, Error, Picture};
use std::io::Cursor;

fn png(w: u32, h: u32) -> Vec<u8> {
    let img = RgbaImage::from_pixel(w, h, Rgba([200, 10, 10, 255]));
    let mut out = Vec::new();
    DynamicImage::ImageRgba8(img).write_to(Cursor::new(&mut out), ImageFormat::Png).unwrap();
    out
}

#[test]
fn canvas_side_of_default_layout() {
    assert_eq!(canvas_side(96, 8, 3), Some(320));
    assert_eq!(canvas_side(10, 0, 1), Some(10));
    assert_eq!(canvas_side(u32::MAX, 1, 1), None);
}

#[test]
fn cell_origins_go_row_by_row() {
    assert_eq!(cell_origin(0, 96, 8, 3), (8, 8));
    assert_eq!(cell_origin(1, 96, 8, 3), (112, 8));
    assert_eq!(cell_origin(5, 96, 8, 3), (216, 112));
    assert_eq!(cell_origin(8, 96, 8, 3), (216, 216));
}

#[test]
fn thumbnail_is_square() {
    let t = make_thumbnail(&b"a.png".to_vec(), &png(40, 20), 16).unwrap();
    assert_eq!((t.image.width(), t.image.height()), (16, 16));
    assert_eq!((t.image.image().width(), t.image.image().height()), (16, 16));
    let decoded = image::load_from_memory_with_format(&t.encoded, ImageFormat::WebP).unwrap();
    assert_eq!((decoded.width(), decoded.height()), (16, 16));
}

#[test]
fn thumbnail_is_reused_when_it_fits() {
    let t = make_thumbnail(&b"a.png".to_vec(), &png(30, 30), 12).unwrap();
    let again = reuse_thumbnail(&t.encoded, 12).unwrap();
    assert_eq!((again.width(), again.height()), (12, 12));
    assert!(reuse_thumbnail(&t.encoded, 13).is_none());
    assert!(reuse_thumbnail(&[], 12).is_none());
    assert!(reuse_thumbnail(b"not an image", 12).is_none());
}

#[test]
fn thumbnails_are_deterministic() {
    let source = png(25, 17);
    let a = make_thumbnail(&b"a.png".to_vec(), &source, 8).unwrap();
    let b = make_thumbnail(&b"a.png".to_vec(), &source, 8).unwrap();
    assert_eq!(a.encoded, b.encoded);
}

#[test]
fn undecodable_source_is_open_image_error() {
    match make_thumbnail(&b"dir/x.jpg".to_vec(), b"garbage", 8) {
        Err(Error::OpenImage { path }) => assert_eq!(path, b"dir/x.jpg".to_vec()),
        _ => panic!("expected OpenImage"),
    }
}

#[test]
fn compose_lays_out_grid() {
    let tiles: Vec<Picture> = (0..9)
        .map(|_| make_thumbnail(&b"a.png".to_vec(), &png(10, 10), 6).unwrap().image)
        .collect();
    let bytes = compose(&tiles, 6, 2, 3).unwrap();
    let img = image::load_from_memory_with_format(&bytes, ImageFormat::WebP).unwrap();
    assert_eq!((img.width(), img.height()), (26, 26));
    let rgba = img.to_rgba8();
    assert_eq!(rgba.get_pixel(0, 0)[3], 0);
    assert_eq!(rgba.get_pixel(2, 2)[3], 255);
    assert_eq!(rgba.get_pixel(8, 8)[3], 0);
    assert_eq!(rgba.get_pixel(10, 18)[3], 255);
}

#[test]
fn compose_fails_on_oversized_tile() {
    let tiles = vec![make_thumbnail(&b"a.png".to_vec(), &png(20, 20), 20).unwrap().image];
    assert!(matches!(compose(&tiles, 6, 2, 1), Err(Error::GenerateImage)));
}

use imhumane::{ThumbnailAction, ThumbnailEvent, ThumbnailFetch};

fn fetch_path(action: &ThumbnailAction) -> Vec<u8> {
    match action {
        ThumbnailAction::OpenAndLock { path } => path.clone(),
        other => panic!("unexpected {:?}", other),
    }
}

#[test]
fn fetch_makes_and_stores_missing_thumbnail() {
    let (mut fetch, action) = ThumbnailFetch::start(&b"dir/cat.png".to_vec(), 10);
    assert_eq!(fetch_path(&action), b"dir/.thumbnail.cat.webp".to_vec());
    assert!(matches!(fetch.step(ThumbnailEvent::Opened), ThumbnailAction::ReadCached));
    assert!(matches!(
        fetch.step(ThumbnailEvent::Cached { bytes: vec![] }),
        ThumbnailAction::Reset
    ));
    match fetch.step(ThumbnailEvent::Emptied) {
        ThumbnailAction::ReadSource { path } => assert_eq!(path, b"dir/cat.png".to_vec()),
        other => panic!("unexpected {:?}", other),
    }
    let stored = match fetch.step(ThumbnailEvent::Source { bytes: png(30, 20) }) {
        ThumbnailAction::Store { bytes } => bytes,
        other => panic!("unexpected {:?}", other),
    };
    match fetch.step(ThumbnailEvent::Stored) {
        ThumbnailAction::Finish { result: Ok(img) } => assert_eq!((img.width(), img.height()), (10, 10)),
        other => panic!("unexpected {:?}", other),
    }

    // A second fetch finds the stored thumbnail and writes nothing.
    let (mut again, _) = ThumbnailFetch::start(&b"dir/cat.png".to_vec(), 10);
    assert!(matches!(again.step(ThumbnailEvent::Opened), ThumbnailAction::ReadCached));
    match again.step(ThumbnailEvent::Cached { bytes: stored }) {
        ThumbnailAction::Finish { result: Ok(img) } => assert_eq!((img.width(), img.height()), (10, 10)),
        other => panic!("unexpected {:?}", other),
    }
}

#[test]
fn fetch_regenerates_thumbnail_of_wrong_size() {
    let small = make_thumbnail(&b"a.png".to_vec(), &png(9, 9), 4).unwrap().encoded;
    let (mut fetch, _) = ThumbnailFetch::start(&b"a.png".to_vec(), 10);
    fetch.step(ThumbnailEvent::Opened);
    assert!(matches!(fetch.step(ThumbnailEvent::Cached { bytes: small }), ThumbnailAction::Reset));
}

#[test]
fn fetch_errors_by_stage() {
    let (mut f, _) = ThumbnailFetch::start(&b"d/x.jpg".to_vec(), 8);
    match f.step(ThumbnailEvent::Failed) {
        ThumbnailAction::Finish { result: Err(Error::OpenThumbnail { path }) } => {
            assert_eq!(path, b"d/x.jpg".to_vec())
        }
        other => panic!("unexpected {:?}", other),
    }

    let (mut f, _) = ThumbnailFetch::start(&b"d/x.jpg".to_vec(), 8);
    f.step(ThumbnailEvent::Opened);
    f.step(ThumbnailEvent::Cached { bytes: vec![] });
    f.step(ThumbnailEvent::Emptied);
    match f.step(ThumbnailEvent::Source { bytes: b"garbage".to_vec() }) {
        ThumbnailAction::Finish { result: Err(Error::OpenImage { path }) } => {
            assert_eq!(path, b"d/x.jpg".to_vec())
        }
        other => panic!("unexpected {:?}", other),
    }

    let (mut f, _) = ThumbnailFetch::start(&b"d/x.jpg".to_vec(), 8);
    f.step(ThumbnailEvent::Opened);
    f.step(ThumbnailEvent::Cached { bytes: vec![] });
    f.step(ThumbnailEvent::Emptied);
    f.step(ThumbnailEvent::Source { bytes: png(8, 8) });
    assert!(matches!(
        f.step(ThumbnailEvent::Failed),
        ThumbnailAction::Finish { result: Err(Error::GenerateImage) }
    ));
}

#[test]
fn fetch_of_path_without_file_name_fails() {
    let (_, action) = ThumbnailFetch::start(&b"dir/".to_vec(), 8);
    assert!(matches!(
        action,
        ThumbnailAction::Finish { result: Err(Error::OpenThumbnail { .. }) }
    ));
}

#[test]
fn thumbnail_of_unusable_size_fails() {
    assert!(matches!(make_thumbnail(&b"a.png".to_vec(), &png(4, 4), 0), Err(Error::GenerateImage)));
    assert!(matches!(
        make_thumbnail(&b"a.png".to_vec(), &png(4, 4), 16385),
        Err(Error::GenerateImage)
    ));
}

#[test]
fn fetch_regenerates_undecodable_cache() {
    let (mut fetch, _) = ThumbnailFetch::start(&b"a.png".to_vec(), 6);
    fetch.step(ThumbnailEvent::Opened);
    assert!(matches!(
        fetch.step(ThumbnailEvent::Cached { bytes: b"junk".to_vec() }),
        ThumbnailAction::Reset
    ));
    assert!(matches!(fetch.step(ThumbnailEvent::Emptied), ThumbnailAction::ReadSource { .. }));
    assert!(matches!(
        fetch.step(ThumbnailEvent::Source { bytes: png(7, 3) }),
        ThumbnailAction::Store { .. }
    ));
    match fetch.step(ThumbnailEvent::Stored) {
        ThumbnailAction::Finish { result: Ok(p) } => assert_eq!((p.width(), p.height()), (6, 6)),
        other => panic!("unexpected {:?}", other),
    }
}

#[test]
fn composed_image_has_canvas_size() {
    let tiles: Vec<Picture> = (0..4)
        .map(|_| make_thumbnail(&b"a.png".to_vec(), &png(5, 9), 10).unwrap().image)
        .collect();
    let bytes = compose(&tiles, 10, 3, 2).unwrap();
    let img = image::load_from_memory_with_format(&bytes, ImageFormat::WebP).unwrap();
    assert_eq!((img.width(), img.height()), (29, 29));
}

#[test]
fn composed_pixels_follow_cells() {
    let red = make_thumbnail(&b"r.png".to_vec(), &png(3, 3), 2).unwrap().image;
    let tiles: Vec<Picture> = (0..4)
        .map(|_| make_thumbnail(&b"r.png".to_vec(), &png(3, 3), 2).unwrap().image)
        .collect();
    let bytes = compose(&tiles, 2, 1, 2).unwrap();
    let img = image::load_from_memory_with_format(&bytes, ImageFormat::WebP).unwrap().to_rgba8();
    assert_eq!((img.width(), img.height()), (7, 7));
    // Cell 3 starts at (4, 4); the pixel there is the tile's first pixel.
    assert_eq!(img.get_pixel(4, 4).0.to_vec(), red.pixels()[0..4].to_vec());
    assert_eq!(img.get_pixel(3, 3).0, [0, 0, 0, 0]);
}

#[test]
fn reused_thumbnail_is_the_cached_image() {
    let t = make_thumbnail(&b"a.png".to_vec(), &png(6, 6), 5).unwrap();
    let again = reuse_thumbnail(&t.encoded, 5).unwrap();
    let decoded = image::load_from_memory_with_format(&t.encoded, ImageFormat::WebP).unwrap().to_rgba8();
    assert_eq!(again.pixels(), decoded.as_raw());
    assert_eq!(again.pixels().len(), 5 * 5 * 4);
}
