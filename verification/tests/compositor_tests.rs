use ani_gif::compositor::{Compositor, DisposalMethod, FrameDelta, Rgb, Rgba};
use ani_gif::error::ConvError;

fn px(r: u8, g: u8, b: u8, a: u8) -> Rgba {
    Rgba { r, g, b, a }
}

fn clear() -> Rgba {
    px(0, 0, 0, 0)
}

fn block(
    left: u16,
    top: u16,
    width: u16,
    height: u16,
    disposal: DisposalMethod,
    color: Rgb,
) -> FrameDelta {
    FrameDelta {
        left,
        top,
        width,
        height,
        disposal,
        transparent: None,
        pixels: vec![0u8; (width as usize) * (height as usize)],
        palette: vec![color],
    }
}

fn empty_delta() -> FrameDelta {
    FrameDelta {
        left: 0,
        top: 0,
        width: 0,
        height: 0,
        disposal: DisposalMethod::Keep,
        transparent: None,
        pixels: vec![],
        palette: vec![],
    }
}

#[test]
fn new_canvas_is_fully_transparent() {
    let c = Compositor::new(4, 3);
    assert_eq!(c.canvas.len(), 12);
    assert!(c.canvas.iter().all(|p| *p == clear()));
}

#[test]
fn paint_opaque_block() {
    let mut c = Compositor::new(4, 4);
    let d = block(1, 1, 2, 2, DisposalMethod::Keep, Rgb { r: 9, g: 8, b: 7 });
    let raster = c.apply(&d).unwrap();
    for y in 0..4usize {
        for x in 0..4usize {
            let expected = if (1..3).contains(&x) && (1..3).contains(&y) {
                px(9, 8, 7, 255)
            } else {
                clear()
            };
            assert_eq!(raster[y * 4 + x], expected, "pixel ({}, {})", x, y);
        }
    }
}

#[test]
fn transparent_index_shows_canvas_through() {
    let mut c = Compositor::new(2, 1);
    let base = block(0, 0, 2, 1, DisposalMethod::Keep, Rgb { r: 1, g: 1, b: 1 });
    c.apply(&base).unwrap();
    let over = FrameDelta {
        left: 0,
        top: 0,
        width: 2,
        height: 1,
        disposal: DisposalMethod::Keep,
        transparent: Some(7),
        pixels: vec![7, 0],
        palette: vec![Rgb { r: 2, g: 2, b: 2 }],
    };
    let raster = c.apply(&over).unwrap();
    assert_eq!(raster[0], px(1, 1, 1, 255));
    assert_eq!(raster[1], px(2, 2, 2, 255));
}

#[test]
fn restore_to_background_clears_frame_region() {
    let mut c = Compositor::new(4, 4);
    let base = block(0, 0, 4, 4, DisposalMethod::Keep, Rgb { r: 5, g: 5, b: 5 });
    c.apply(&base).unwrap();
    let d1 = block(1, 1, 2, 2, DisposalMethod::Background, Rgb { r: 9, g: 0, b: 0 });
    let raster1 = c.apply(&d1).unwrap();
    let raster2 = c.apply(&empty_delta()).unwrap();
    for y in 0..4usize {
        for x in 0..4usize {
            if (1..3).contains(&x) && (1..3).contains(&y) {
                assert_eq!(raster2[y * 4 + x], clear(), "region pixel ({}, {})", x, y);
            } else {
                assert_eq!(raster2[y * 4 + x], raster1[y * 4 + x]);
                assert_eq!(raster2[y * 4 + x], px(5, 5, 5, 255));
            }
        }
    }
}

#[test]
fn restore_to_previous_reverts_frame_region() {
    let mut c = Compositor::new(2, 2);
    let base = block(0, 0, 2, 2, DisposalMethod::Keep, Rgb { r: 3, g: 6, b: 9 });
    let raster0 = c.apply(&base).unwrap();
    let d1 = block(0, 0, 1, 1, DisposalMethod::Previous, Rgb { r: 200, g: 0, b: 0 });
    let raster1 = c.apply(&d1).unwrap();
    assert_eq!(raster1[0], px(200, 0, 0, 255));
    let raster2 = c.apply(&empty_delta()).unwrap();
    assert_eq!(raster2, raster0);
}

#[test]
fn restore_to_previous_is_idempotent_on_transparent_start() {
    // a canvas that starts fully transparent, a first frame with
    // restore-to-previous, and a second frame that paints nothing: the
    // second raster is fully transparent again
    let mut c = Compositor::new(3, 3);
    let d1 = block(0, 0, 2, 2, DisposalMethod::Previous, Rgb { r: 1, g: 2, b: 3 });
    c.apply(&d1).unwrap();
    let raster2 = c.apply(&empty_delta()).unwrap();
    assert!(raster2.iter().all(|p| *p == clear()));
}

#[test]
fn delta_outside_canvas_is_refused() {
    let mut c = Compositor::new(4, 4);
    let d = block(2, 2, 3, 3, DisposalMethod::Keep, Rgb { r: 1, g: 1, b: 1 });
    assert_eq!(c.apply(&d), Err(ConvError::GifDisposeError));
}

#[test]
fn pixel_index_outside_palette_is_refused() {
    let mut c = Compositor::new(1, 1);
    let d = FrameDelta {
        left: 0,
        top: 0,
        width: 1,
        height: 1,
        disposal: DisposalMethod::Keep,
        transparent: None,
        pixels: vec![5],
        palette: vec![Rgb { r: 1, g: 1, b: 1 }],
    };
    assert_eq!(c.apply(&d), Err(ConvError::GifDisposeError));
}

#[test]
fn wrong_pixel_count_is_refused() {
    let mut c = Compositor::new(4, 4);
    let d = FrameDelta {
        left: 0,
        top: 0,
        width: 2,
        height: 2,
        disposal: DisposalMethod::Keep,
        transparent: None,
        pixels: vec![0, 0, 0],
        palette: vec![Rgb { r: 1, g: 1, b: 1 }],
    };
    assert_eq!(c.apply(&d), Err(ConvError::GifDisposeError));
}
