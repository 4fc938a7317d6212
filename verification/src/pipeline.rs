//! The per-frame conversion step: one decoded delta is composited onto the
//! canvas, the reconstructed raster is encoded as a cursor directory entry,
//! and the entry is accumulated by the assembler. The caller drives the
//! loop, feeding one delta per decoded frame, and calls the assembler's
//! `finalize` when the stream ends.

use vstd::prelude::*;

use crate::assembler::Assembler;
use crate::compositor::{apply_rel, Compositor, FrameDelta};
use crate::encoder::{png_of, rgba_seq};
use crate::error::ConvError;

verus! {

/// Composites one delta, encodes the resulting raster with the shared
/// hotspot, and appends the entry. The step succeeds exactly when the
/// compositor accepts the delta; the assembler then holds exactly one more
/// entry: the canvas dimensions, the hotspot, and the codec's payload for
/// the reconstructed raster. A delta the compositor refuses is
/// `GifDisposeError` and leaves everything unchanged.
pub fn convert_frame(
    comp: &mut Compositor,
    assembler: &mut Assembler,
    delta: &FrameDelta,
    hotspot_x: u16,
    hotspot_y: u16,
) -> (r: Result<(), ConvError>)
    requires
        old(comp).wf(),
        old(assembler).wf(),
        1 <= old(comp).width <= 256,
        1 <= old(comp).height <= 256,
        old(assembler).count < 0xffffffffu32,
    ensures
        final(comp).wf(),
        final(assembler).wf(),
        final(comp).width == old(comp).width,
        final(comp).height == old(comp).height,
        match r {
            Ok(()) => {
                &&& delta.wf(old(comp).width, old(comp).height)
                &&& apply_rel(*old(comp), *final(comp), *delta, final(comp).canvas@)
                &&& final(assembler).count == old(assembler).count + 1
                &&& final(assembler).entries@.len() == old(assembler).entries@.len() + 1
                &&& final(assembler).entries@.subrange(0, old(assembler).entries@.len() as int) == old(
                    assembler,
                ).entries@
                &&& {
                    let e = final(assembler).entries@.last();
                    &&& e.width == old(comp).width
                    &&& e.height == old(comp).height
                    &&& e.hotspot_x == hotspot_x
                    &&& e.hotspot_y == hotspot_y
                    &&& e.png@ == png_of(
                        old(comp).width as u32,
                        old(comp).height as u32,
                        rgba_seq(final(comp).canvas@),
                    )
                }
            },
            Err(e) => {
                &&& e == ConvError::GifDisposeError
                &&& !delta.wf(old(comp).width, old(comp).height)
                &&& *final(assembler) == *old(assembler)
                &&& *final(comp) == *old(comp)
            },
        },
{
    let width = comp.width;
    let height = comp.height;
    let raster = match comp.apply(delta) {
        Err(e) => {
            return Err(e);
        },
        Ok(raster) => raster,
    };
    let entry = crate::encoder::encode_frame(&raster, width, height, hotspot_x, hotspot_y);
    assembler.push(entry);
    proof {
        assert(assembler.entries@.subrange(0, old(assembler).entries@.len() as int) =~= old(assembler).entries@);
    }
    Ok(())
}

} // verus!
