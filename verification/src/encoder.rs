//! The cursor frame encoder: wraps one full-frame RGBA raster, together
//! with the validated hotspot, into a single cursor-image directory entry,
//! calling out to the external still-image codec for the compressed
//! payload.

use vstd::prelude::*;

use crate::compositor::Rgba;

verus! {

/// One self-contained cursor-image directory entry: the canvas dimensions,
/// the hotspot, and the compressed still-image payload.
pub struct CursorDirectoryEntry {
    pub width: u16,
    pub height: u16,
    pub hotspot_x: u16,
    pub hotspot_y: u16,
    pub png: Vec<u8>,
}

/// The bytes the external still-image codec emits for an RGBA raster of the
/// given size: a function of the dimensions and pixel bytes alone.
pub uninterp spec fn png_of(width: u32, height: u32, rgba: Seq<u8>) -> Seq<u8>;

/// The byte at position i of the RGBA byte stream of a raster: four bytes
/// per pixel, red first, alpha last, pixels in buffer order.
pub open spec fn rgba_byte(s: Seq<Rgba>, i: int) -> u8 {
    let p = s[i / 4];
    if i % 4 == 0 {
        p.r
    } else if i % 4 == 1 {
        p.g
    } else if i % 4 == 2 {
        p.b
    } else {
        p.a
    }
}

/// The RGBA byte stream of a raster.
pub open spec fn rgba_seq(s: Seq<Rgba>) -> Seq<u8> {
    Seq::new(4 * s.len(), |i: int| rgba_byte(s, i))
}

/// Flattens a raster into its RGBA byte stream.
#[verifier::loop_isolation(false)]
pub fn rgba_bytes(raster: &Vec<Rgba>) -> (out: Vec<u8>)
    ensures
        out@ == rgba_seq(raster@),
{
    let mut out: Vec<u8> = Vec::new();
    let n = raster.len();
    let mut i: usize = 0;
    while i < n
        invariant
            i <= n,
            out@ == rgba_seq(raster@.take(i as int)),
        decreases n - i,
    {
        let p = raster[i];
        out.push(p.r);
        out.push(p.g);
        out.push(p.b);
        out.push(p.a);
        proof {
            assert forall|j: int| 0 <= j < 4 * (i + 1) implies out@[j] == rgba_byte(
                raster@.take(i + 1),
                j,
            ) by {
                if j < 4 * i {
                    assert(out@[j] == rgba_byte(raster@.take(i as int), j));
                    assert(raster@.take(i as int)[j / 4] == raster@.take(i + 1)[j / 4]);
                } else {
                    assert(j / 4 == i && raster@.take(i + 1)[i as int] == raster@[i as int]);
                }
            }
            assert(out@ =~= rgba_seq(raster@.take(i + 1)));
        }
        i += 1;
    }
    proof {
        assert(raster@.take(n as int) =~= raster@);
    }
    out
}

/// Relies on riff_ani::ico::IconImage::from_rgba_data and
/// IconImage::write_png: the codec compresses the raster into PNG bytes,
/// deterministically from the dimensions and pixel bytes. from_rgba_data
/// panics outside dimensions 1..=256 or on a wrong buffer length, so those
/// inputs are excluded here. Under these inputs the call cannot fail: the
/// png encoder's only format error asks for a buffer shorter than the
/// dimensions demand, and every write goes into a byte buffer, whose writes
/// never report an error; so the bytes are returned outright.
#[verifier::external_body]
fn encode_png(width: u32, height: u32, rgba: Vec<u8>) -> (r: Vec<u8>)
    requires
        1 <= width <= 256,
        1 <= height <= 256,
        rgba@.len() == 4 * width * height,
    ensures
        r@ == png_of(width, height, rgba@),
{
    let image = riff_ani::ico::IconImage::from_rgba_data(width, height, rgba);
    let mut out: Vec<u8> = Vec::new();
    image
        .write_png(&mut out)
        .expect("PNG encoding into a byte buffer cannot fail");
    out
}

/// Builds the directory entry for one reconstructed raster: the canvas
/// dimensions, the shared hotspot, and the codec's payload for exactly this
/// raster. On the rasters this encoder admits the codec cannot fail, so an
/// entry is always returned.
pub fn encode_frame(
    raster: &Vec<Rgba>,
    width: u16,
    height: u16,
    hotspot_x: u16,
    hotspot_y: u16,
) -> (e: CursorDirectoryEntry)
    requires
        1 <= width <= 256,
        1 <= height <= 256,
        raster@.len() == width as int * height as int,
    ensures
        e.width == width,
        e.height == height,
        e.hotspot_x == hotspot_x,
        e.hotspot_y == hotspot_y,
        e.png@ == png_of(width as u32, height as u32, rgba_seq(raster@)),
{
    let bytes = rgba_bytes(raster);
    proof {
        assert(4 * (width as int * height as int) == 4 * (width as int) * (height as int))
            by (nonlinear_arith);
    }
    let png = encode_png(width as u32, height as u32, bytes);
    CursorDirectoryEntry { width, height, hotspot_x, hotspot_y, png }
}

} // verus!
