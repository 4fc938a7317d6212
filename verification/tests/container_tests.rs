use ani_gif::assembler::Assembler;
use ani_gif::compositor::{Compositor, DisposalMethod, FrameDelta, Rgb, Rgba};
use ani_gif::encoder::{encode_frame, rgba_bytes, CursorDirectoryEntry};
use ani_gif::error::ConvError;
use ani_gif::hotspot::validate_hotspot;
use ani_gif::pipeline::convert_frame;

fn u32_at(bytes: &[u8], off: usize) -> u32 {
    u32::from_le_bytes([bytes[off], bytes[off + 1], bytes[off + 2], bytes[off + 3]])
}

fn u16_at(bytes: &[u8], off: usize) -> u16 {
    u16::from_le_bytes([bytes[off], bytes[off + 1]])
}

fn checker_raster(width: usize, height: usize) -> Vec<Rgba> {
    let mut raster = Vec::new();
    for y in 0..height {
        for x in 0..width {
            let v = ((x + y * width) % 251) as u8;
            let a = if (x + y) % 2 == 0 { 255 } else { 0 };
            raster.push(Rgba { r: v, g: v.wrapping_add(40), b: v.wrapping_add(80), a });
        }
    }
    raster
}

#[test]
fn rgba_bytes_flattens_in_order() {
    let raster = vec![
        Rgba { r: 1, g: 2, b: 3, a: 4 },
        Rgba { r: 5, g: 6, b: 7, a: 8 },
    ];
    assert_eq!(rgba_bytes(&raster), vec![1, 2, 3, 4, 5, 6, 7, 8]);
}

#[test]
fn encode_frame_keeps_dimensions_and_hotspot() {
    let raster = checker_raster(3, 2);
    let entry = encode_frame(&raster, 3, 2, 1, 2);
    assert_eq!(entry.width, 3);
    assert_eq!(entry.height, 2);
    assert_eq!(entry.hotspot_x, 1);
    assert_eq!(entry.hotspot_y, 2);
    // the payload is a PNG stream
    assert_eq!(&entry.png[0..4], &[0x89, 0x50, 0x4e, 0x47]);
}

#[test]
fn encode_frame_round_trips_through_the_codec() {
    let raster = checker_raster(5, 4);
    let entry = encode_frame(&raster, 5, 4, 0, 0);
    let decoded = riff_ani::ico::IconImage::read_png(&entry.png[..]).unwrap();
    assert_eq!(decoded.width(), 5);
    assert_eq!(decoded.height(), 4);
    assert_eq!(decoded.rgba_data(), &rgba_bytes(&raster)[..]);
}

#[test]
fn assembler_counts_pushes() {
    let mut a = Assembler::new();
    assert_eq!(a.count, 0);
    for i in 0..5u16 {
        a.push(CursorDirectoryEntry {
            width: 1,
            height: 1,
            hotspot_x: i,
            hotspot_y: 0,
            png: vec![1, 2, 3],
        });
    }
    assert_eq!(a.count, 5);
    assert_eq!(a.entries.len(), 5);
    assert_eq!(a.entries[3].hotspot_x, 3);
}

#[test]
fn finalize_of_empty_stream() {
    let a = Assembler::new();
    let bytes = a.finalize(7, 20, 30).unwrap();
    assert_eq!(bytes.len(), 68);
    assert_eq!(&bytes[0..4], b"RIFF");
    assert_eq!(u32_at(&bytes, 4), 60);
    assert_eq!(&bytes[8..12], b"ACON");
    assert_eq!(&bytes[12..16], b"anih");
    assert_eq!(u32_at(&bytes, 16), 36);
    assert_eq!(u32_at(&bytes, 20), 36);
    assert_eq!(u32_at(&bytes, 24), 0); // frame count
    assert_eq!(u32_at(&bytes, 28), 0); // step count
    assert_eq!(u32_at(&bytes, 32), 20); // width
    assert_eq!(u32_at(&bytes, 36), 30); // height
    assert_eq!(u32_at(&bytes, 40), 32); // color depth
    assert_eq!(u32_at(&bytes, 44), 1); // planes
    assert_eq!(u32_at(&bytes, 48), 7); // display rate
    assert_eq!(u32_at(&bytes, 52), 1); // cursor flag
    assert_eq!(&bytes[56..60], b"LIST");
    assert_eq!(u32_at(&bytes, 60), 4);
    assert_eq!(&bytes[64..68], b"fram");
}

#[test]
fn finalize_header_reports_the_push_count() {
    let mut a = Assembler::new();
    for _ in 0..3 {
        a.push(CursorDirectoryEntry {
            width: 2,
            height: 2,
            hotspot_x: 0,
            hotspot_y: 0,
            png: vec![0; 10],
        });
    }
    let bytes = a.finalize(1, 2, 2).unwrap();
    assert_eq!(u32_at(&bytes, 24), 3);
    assert_eq!(u32_at(&bytes, 28), 3);
}

#[test]
fn icon_chunk_layout_with_odd_payload_is_padded() {
    let mut a = Assembler::new();
    a.push(CursorDirectoryEntry {
        width: 10,
        height: 256,
        hotspot_x: 4,
        hotspot_y: 9,
        png: vec![0xaa, 0xbb, 0xcc],
    });
    let bytes = a.finalize(2, 10, 256).unwrap();
    let chunk = &bytes[68..];
    assert_eq!(&chunk[0..4], b"icon");
    assert_eq!(u32_at(chunk, 4), 25); // 22 directory bytes + 3 payload bytes
    let dir = &chunk[8..];
    assert_eq!(&dir[0..6], &[0, 0, 2, 0, 1, 0]);
    assert_eq!(dir[6], 10); // width
    assert_eq!(dir[7], 0); // height 256 is stored as 0
    assert_eq!(&dir[8..10], &[0, 0]);
    assert_eq!(u16_at(dir, 10), 4); // hotspot x
    assert_eq!(u16_at(dir, 12), 9); // hotspot y
    assert_eq!(u32_at(dir, 14), 3); // payload size
    assert_eq!(u32_at(dir, 18), 22); // payload offset
    assert_eq!(&dir[22..25], &[0xaa, 0xbb, 0xcc]);
    assert_eq!(dir[25], 0); // pad byte: the chunk size 25 is odd
    assert_eq!(bytes.len(), 68 + 8 + 25 + 1);
    assert_eq!(u32_at(&bytes, 4), 60 + 34);
    assert_eq!(u32_at(&bytes, 60), 4 + 34);
}

#[test]
fn three_frame_conversion_end_to_end() {
    // a 3-frame 10 by 10 animation with hotspot "5:5" and display rate 3
    let (hx, hy) = validate_hotspot(&String::from("5:5"), 10, 10).unwrap();
    let mut comp = Compositor::new(10, 10);
    let mut assembler = Assembler::new();
    let colors = [
        Rgb { r: 255, g: 0, b: 0 },
        Rgb { r: 0, g: 255, b: 0 },
        Rgb { r: 0, g: 0, b: 255 },
    ];
    for (i, color) in colors.iter().enumerate() {
        let delta = FrameDelta {
            left: i as u16,
            top: 0,
            width: 3,
            height: 3,
            disposal: DisposalMethod::Keep,
            transparent: None,
            pixels: vec![0; 9],
            palette: vec![*color],
        };
        convert_frame(&mut comp, &mut assembler, &delta, hx, hy).unwrap();
    }
    let bytes = assembler.finalize(3, 10, 10).unwrap();
    assert_eq!(u32_at(&bytes, 24), 3); // frame count
    assert_eq!(u32_at(&bytes, 28), 3); // step count
    assert_eq!(u32_at(&bytes, 32), 10); // width
    assert_eq!(u32_at(&bytes, 36), 10); // height
    assert_eq!(u32_at(&bytes, 48), 3); // display rate
    // walk the three icon chunks of the frame list
    let mut off = 68usize;
    for frame in 0..3 {
        assert_eq!(&bytes[off..off + 4], b"icon", "frame {}", frame);
        let size = u32_at(&bytes, off + 4) as usize;
        let dir = &bytes[off + 8..off + 8 + size];
        assert_eq!(dir[6], 10); // entry width
        assert_eq!(dir[7], 10); // entry height
        assert_eq!(u16_at(dir, 10), 5); // hotspot x
        assert_eq!(u16_at(dir, 12), 5); // hotspot y
        let decoded = riff_ani::ico::IconImage::read_png(&dir[22..]).unwrap();
        assert_eq!(decoded.width(), 10);
        assert_eq!(decoded.height(), 10);
        off += 8 + size + size % 2;
    }
    assert_eq!(off, bytes.len());
}

#[test]
fn convert_frame_surfaces_compositor_errors() {
    let mut comp = Compositor::new(4, 4);
    let mut assembler = Assembler::new();
    let delta = FrameDelta {
        left: 3,
        top: 3,
        width: 4,
        height: 4,
        disposal: DisposalMethod::Keep,
        transparent: None,
        pixels: vec![0; 16],
        palette: vec![Rgb { r: 0, g: 0, b: 0 }],
    };
    assert_eq!(
        convert_frame(&mut comp, &mut assembler, &delta, 0, 0),
        Err(ConvError::GifDisposeError)
    );
    assert_eq!(assembler.count, 0);
}
