//! The canvas compositor: owns a persistent RGBA buffer sized to the
//! animation's logical screen and replays a stream of independently sized,
//! independently positioned frame deltas onto it, honoring per-frame
//! disposal semantics, to produce one full opaque-plus-alpha raster per
//! displayed frame.

use vstd::pervasive::VecAdditionalExecFns;
use vstd::prelude::*;

use crate::error::ConvError;

verus! {

/// One palette color of a frame delta.
#[derive(Debug, Clone, Copy, PartialEq, Eq, Structural)]
pub struct Rgb {
    pub r: u8,
    pub g: u8,
    pub b: u8,
}

/// One canvas pixel.
#[derive(Debug, Clone, Copy, PartialEq, Eq, Structural)]
pub struct Rgba {
    pub r: u8,
    pub g: u8,
    pub b: u8,
    pub a: u8,
}

/// The fully transparent pixel the canvas starts from and that
/// restore-to-background clears to.
pub open spec fn transparent_pixel() -> Rgba {
    Rgba { r: 0, g: 0, b: 0, a: 0 }
}

impl Rgba {
    pub fn clear() -> (p: Rgba)
        ensures
            p == transparent_pixel(),
    {
        Rgba { r: 0, g: 0, b: 0, a: 0 }
    }

    /// A palette color painted onto the canvas: fully opaque.
    pub open spec fn opaque_spec(c: Rgb) -> Rgba {
        Rgba { r: c.r, g: c.g, b: c.b, a: 255 }
    }

    pub fn opaque(c: Rgb) -> (p: Rgba)
        ensures
            p == Rgba::opaque_spec(c),
    {
        Rgba { r: c.r, g: c.g, b: c.b, a: 255 }
    }
}

/// How the canvas region the previous frame occupied is treated before the
/// next frame is painted.
#[derive(Debug, Clone, Copy, PartialEq, Eq, Structural)]
pub enum DisposalMethod {
    /// Leave the canvas as painted.
    Any,
    /// Identical effect: the frame persists.
    Keep,
    /// The region the frame occupied is cleared to transparent.
    Background,
    /// The region is reverted to the values it held just before the frame
    /// was painted.
    Previous,
}

/// A raw indexed frame delta from the external decoder: a local raster
/// patch with its own size, an offset within the canvas, a disposal method
/// and an optional transparent color index.
pub struct FrameDelta {
    pub left: u16,
    pub top: u16,
    pub width: u16,
    pub height: u16,
    pub disposal: DisposalMethod,
    pub transparent: Option<u8>,
    /// Row-major indexed pixels, `width * height` of them.
    pub pixels: Vec<u8>,
    /// The palette the indices point into.
    pub palette: Vec<Rgb>,
}

/// Whether (x, y) lies in the rectangle at (l, t) of size w by h.
pub open spec fn in_rect(l: int, t: int, w: int, h: int, x: int, y: int) -> bool {
    l <= x < l + w && t <= y < t + h
}

/// The pixel of a row-major buffer of width `w` at canvas position (x, y).
pub open spec fn pix(s: Seq<Rgba>, w: int, x: int, y: int) -> Rgba {
    s[y * w + x]
}

impl FrameDelta {
    /// A delta the compositor accepts: it fits inside the canvas, carries
    /// exactly one index per pixel, and every painted index points into the
    /// palette.
    pub open spec fn wf(&self, cw: u16, ch: u16) -> bool {
        &&& self.left + self.width <= cw
        &&& self.top + self.height <= ch
        &&& self.pixels@.len() == self.width as int * self.height as int
        &&& forall|k: int|
            0 <= k < self.pixels@.len() ==> (self.transparent == Some(#[trigger] self.pixels@[k])
                || self.pixels@[k] < self.palette@.len())
    }

    pub open spec fn covers(&self, x: int, y: int) -> bool {
        in_rect(self.left as int, self.top as int, self.width as int, self.height as int, x, y)
    }

    /// The delta's index at canvas position (x, y), for covered positions.
    pub open spec fn index_at(&self, x: int, y: int) -> u8 {
        self.pixels@[(y - self.top) * self.width + (x - self.left)]
    }

    /// Whether the delta overwrites canvas position (x, y): transparent
    /// indices are skipped, the canvas underneath shows through.
    pub open spec fn paints(&self, x: int, y: int) -> bool {
        self.covers(x, y) && self.transparent != Some(self.index_at(x, y))
    }

    /// The opaque color the delta paints at a covered, non-transparent
    /// position.
    pub open spec fn color_at(&self, x: int, y: int) -> Rgba {
        Rgba::opaque_spec(self.palette@[self.index_at(x, y) as int])
    }
}

/// Any canvas position is a single buffer index, and it is in bounds.
proof fn lemma_pos_bound(cw: int, ch: int, x: int, y: int)
    by (nonlinear_arith)
    requires
        0 <= x < cw,
        0 <= y < ch,
    ensures
        0 <= y * cw + x < cw * ch,
{
}

/// Distinct canvas positions give distinct buffer indices.
proof fn lemma_pos_inj(cw: int, x1: int, y1: int, x2: int, y2: int)
    by (nonlinear_arith)
    requires
        0 <= x1 < cw,
        0 <= x2 < cw,
        0 <= y1,
        0 <= y2,
        y1 * cw + x1 == y2 * cw + x2,
    ensures
        x1 == x2,
        y1 == y2,
{
}

/// The buffer of a canvas of u16 dimensions fits a 32-bit address space.
proof fn lemma_canvas_size(cw: int, ch: int)
    by (nonlinear_arith)
    requires
        0 <= cw <= 65535,
        0 <= ch <= 65535,
    ensures
        cw * ch <= 0xfffe0001,
{
}

/// Copies a pixel buffer.
fn clone_pixels(v: &Vec<Rgba>) -> (r: Vec<Rgba>)
    ensures
        r@ == v@,
{
    let mut r: Vec<Rgba> = Vec::new();
    let n = v.len();
    let mut i: usize = 0;
    while i < n
        invariant
            i <= n,
            n == v@.len(),
            r@ =~= v@.take(i as int),
        decreases n - i,
    {
        r.push(v[i]);
        i += 1;
    }
    proof {
        assert(v@.take(n as int) =~= v@);
    }
    r
}

/// Sets every pixel of the rectangle to one color, and nothing else.
#[verifier::loop_isolation(false)]
fn fill_rect(canvas: &mut Vec<Rgba>, cw: u16, ch: u16, l: u16, t: u16, w: u16, h: u16, color: Rgba)
    requires
        old(canvas)@.len() == cw as int * ch as int,
        l + w <= cw,
        t + h <= ch,
    ensures
        final(canvas)@.len() == old(canvas)@.len(),
        forall|x: int, y: int|
            0 <= x < cw && 0 <= y < ch ==> pix(final(canvas)@, cw as int, x, y) == (if in_rect(
                l as int,
                t as int,
                w as int,
                h as int,
                x,
                y,
            ) {
                color
            } else {
                pix(old(canvas)@, cw as int, x, y)
            }),
{
    let mut dy: u16 = 0;
    while dy < h
        invariant
            dy <= h,
            canvas@.len() == old(canvas)@.len(),
            forall|x: int, y: int|
                0 <= x < cw && 0 <= y < ch ==> pix(canvas@, cw as int, x, y) == (if in_rect(
                    l as int,
                    t as int,
                    w as int,
                    dy as int,
                    x,
                    y,
                ) {
                    color
                } else {
                    pix(old(canvas)@, cw as int, x, y)
                }),
        decreases h - dy,
    {
        let mut dx: u16 = 0;
        while dx < w
            invariant
                dx <= w,
                dy < h,
                canvas@.len() == old(canvas)@.len(),
                forall|x: int, y: int|
                    0 <= x < cw && 0 <= y < ch ==> pix(canvas@, cw as int, x, y) == (if in_rect(
                        l as int,
                        t as int,
                        w as int,
                        dy as int,
                        x,
                        y,
                    ) || (y == t + dy && l <= x < l + dx) {
                        color
                    } else {
                        pix(old(canvas)@, cw as int, x, y)
                    }),
            decreases w - dx,
        {
            let x = l + dx;
            let y = t + dy;
            proof {
                lemma_pos_bound(cw as int, ch as int, x as int, y as int);
                lemma_canvas_size(cw as int, ch as int);
            }
            let ghost before = canvas@;
            let idx: usize = (y as usize) * (cw as usize) + (x as usize);
            canvas.set(idx, color);
            proof {
                assert forall|x2: int, y2: int|
                    0 <= x2 < cw && 0 <= y2 < ch && !(x2 == x && y2 == y) implies pix(
                    canvas@,
                    cw as int,
                    x2,
                    y2,
                ) == pix(before, cw as int, x2, y2) by {
                    lemma_pos_bound(cw as int, ch as int, x2, y2);
                    if y2 * cw + x2 == y * cw + x {
                        lemma_pos_inj(cw as int, x2, y2, x as int, y as int);
                    }
                }
                assert(pix(canvas@, cw as int, x as int, y as int) == color);
            }
            dx += 1;
        }
        dy += 1;
    }
}

/// Reverts every pixel of the rectangle to the value it holds in `src`, and
/// touches nothing else.
#[verifier::loop_isolation(false)]
fn copy_rect(canvas: &mut Vec<Rgba>, src: &Vec<Rgba>, cw: u16, ch: u16, l: u16, t: u16, w: u16, h: u16)
    requires
        old(canvas)@.len() == cw as int * ch as int,
        src@.len() == cw as int * ch as int,
        l + w <= cw,
        t + h <= ch,
    ensures
        final(canvas)@.len() == old(canvas)@.len(),
        forall|x: int, y: int|
            0 <= x < cw && 0 <= y < ch ==> pix(final(canvas)@, cw as int, x, y) == (if in_rect(
                l as int,
                t as int,
                w as int,
                h as int,
                x,
                y,
            ) {
                pix(src@, cw as int, x, y)
            } else {
                pix(old(canvas)@, cw as int, x, y)
            }),
{
    let mut dy: u16 = 0;
    while dy < h
        invariant
            dy <= h,
            canvas@.len() == old(canvas)@.len(),
            forall|x: int, y: int|
                0 <= x < cw && 0 <= y < ch ==> pix(canvas@, cw as int, x, y) == (if in_rect(
                    l as int,
                    t as int,
                    w as int,
                    dy as int,
                    x,
                    y,
                ) {
                    pix(src@, cw as int, x, y)
                } else {
                    pix(old(canvas)@, cw as int, x, y)
                }),
        decreases h - dy,
    {
        let mut dx: u16 = 0;
        while dx < w
            invariant
                dx <= w,
                dy < h,
                canvas@.len() == old(canvas)@.len(),
                forall|x: int, y: int|
                    0 <= x < cw && 0 <= y < ch ==> pix(canvas@, cw as int, x, y) == (if in_rect(
                        l as int,
                        t as int,
                        w as int,
                        dy as int,
                        x,
                        y,
                    ) || (y == t + dy && l <= x < l + dx) {
                        pix(src@, cw as int, x, y)
                    } else {
                        pix(old(canvas)@, cw as int, x, y)
                    }),
            decreases w - dx,
        {
            let x = l + dx;
            let y = t + dy;
            proof {
                lemma_pos_bound(cw as int, ch as int, x as int, y as int);
                lemma_canvas_size(cw as int, ch as int);
            }
            let ghost before = canvas@;
            let idx: usize = (y as usize) * (cw as usize) + (x as usize);
            let value = src[idx];
            canvas.set(idx, value);
            proof {
                assert forall|x2: int, y2: int|
                    0 <= x2 < cw && 0 <= y2 < ch && !(x2 == x && y2 == y) implies pix(
                    canvas@,
                    cw as int,
                    x2,
                    y2,
                ) == pix(before, cw as int, x2, y2) by {
                    lemma_pos_bound(cw as int, ch as int, x2, y2);
                    if y2 * cw + x2 == y * cw + x {
                        lemma_pos_inj(cw as int, x2, y2, x as int, y as int);
                    }
                }
                assert(pix(canvas@, cw as int, x as int, y as int) == pix(
                    src@,
                    cw as int,
                    x as int,
                    y as int,
                ));
            }
            dx += 1;
        }
        dy += 1;
    }
}

/// Paints the delta at its offset: transparent indices are skipped, every
/// other index overwrites the canvas with its opaque palette color.
#[verifier::loop_isolation(false)]
fn paint_delta(canvas: &mut Vec<Rgba>, cw: u16, ch: u16, delta: &FrameDelta)
    requires
        old(canvas)@.len() == cw as int * ch as int,
        delta.wf(cw, ch),
    ensures
        final(canvas)@.len() == old(canvas)@.len(),
        forall|x: int, y: int|
            #![trigger pix(final(canvas)@, cw as int, x, y)]
            0 <= x < cw && 0 <= y < ch ==> pix(final(canvas)@, cw as int, x, y) == (if delta.paints(
                x,
                y,
            ) {
                delta.color_at(x, y)
            } else {
                pix(old(canvas)@, cw as int, x, y)
            }),
{
    let l = delta.left;
    let t = delta.top;
    let w = delta.width;
    let h = delta.height;
    let mut dy: u16 = 0;
    while dy < h
        invariant
            dy <= h,
            canvas@.len() == old(canvas)@.len(),
            forall|x: int, y: int|
                #![trigger pix(canvas@, cw as int, x, y)]
                0 <= x < cw && 0 <= y < ch ==> pix(canvas@, cw as int, x, y) == (if in_rect(
                    l as int,
                    t as int,
                    w as int,
                    dy as int,
                    x,
                    y,
                ) && delta.paints(x, y) {
                    delta.color_at(x, y)
                } else {
                    pix(old(canvas)@, cw as int, x, y)
                }),
        decreases h - dy,
    {
        let mut dx: u16 = 0;
        while dx < w
            invariant
                dx <= w,
                dy < h,
                canvas@.len() == old(canvas)@.len(),
                forall|x: int, y: int|
                    #![trigger pix(canvas@, cw as int, x, y)]
                    0 <= x < cw && 0 <= y < ch ==> pix(canvas@, cw as int, x, y) == (if (in_rect(
                        l as int,
                        t as int,
                        w as int,
                        dy as int,
                        x,
                        y,
                    ) || (y == t + dy && l <= x < l + dx)) && delta.paints(x, y) {
                        delta.color_at(x, y)
                    } else {
                        pix(old(canvas)@, cw as int, x, y)
                    }),
            decreases w - dx,
        {
            let x = l + dx;
            let y = t + dy;
            proof {
                lemma_pos_bound(cw as int, ch as int, x as int, y as int);
                lemma_canvas_size(cw as int, ch as int);
                lemma_pos_bound(w as int, h as int, dx as int, dy as int);
                lemma_canvas_size(w as int, h as int);
                assert((y - t) * w + (x - l) == dy as int * w as int + dx as int);
            }
            let di: usize = (dy as usize) * (w as usize) + (dx as usize);
            let p = delta.pixels[di];
            assert(delta.index_at(x as int, y as int) == p);
            let skip = match delta.transparent {
                Some(tr) => p == tr,
                None => false,
            };
            let ghost before = canvas@;
            if !skip {
                assert(delta.paints(x as int, y as int));
                assert(p < delta.palette@.len());
                let col = delta.palette[p as usize];
                let idx: usize = (y as usize) * (cw as usize) + (x as usize);
                canvas.set(idx, Rgba::opaque(col));
                proof {
                    assert forall|x2: int, y2: int|
                        0 <= x2 < cw && 0 <= y2 < ch && !(x2 == x && y2 == y) implies pix(
                        canvas@,
                        cw as int,
                        x2,
                        y2,
                    ) == pix(before, cw as int, x2, y2) by {
                        lemma_pos_bound(cw as int, ch as int, x2, y2);
                        if y2 * cw + x2 == y * cw + x {
                            lemma_pos_inj(cw as int, x2, y2, x as int, y as int);
                        }
                    }
                    assert(pix(canvas@, cw as int, x as int, y as int) == delta.color_at(
                        x as int,
                        y as int,
                    ));
                }
            } else {
                assert(!delta.paints(x as int, y as int));
            }
            proof {
                assert forall|x2: int, y2: int|
                    #![trigger pix(canvas@, cw as int, x2, y2)]
                    0 <= x2 < cw && 0 <= y2 < ch implies pix(canvas@, cw as int, x2, y2) == (if (
                in_rect(l as int, t as int, w as int, dy as int, x2, y2) || (y2 == t + dy && l
                    <= x2 < l + dx + 1)) && delta.paints(x2, y2) {
                    delta.color_at(x2, y2)
                } else {
                    pix(old(canvas)@, cw as int, x2, y2)
                }) by {
                    lemma_pos_bound(cw as int, ch as int, x2, y2);
                    if !(x2 == x as int && y2 == y as int) {
                        assert(pix(canvas@, cw as int, x2, y2) == pix(before, cw as int, x2, y2));
                    }
                }
            }
            dx += 1;
        }
        dy += 1;
    }
}

/// Checks whether the compositor accepts the delta.
#[verifier::loop_isolation(false)]
fn check_delta(delta: &FrameDelta, cw: u16, ch: u16) -> (r: bool)
    ensures
        r == delta.wf(cw, ch),
{
    if (delta.left as u32) + (delta.width as u32) > (cw as u32) {
        return false;
    }
    if (delta.top as u32) + (delta.height as u32) > (ch as u32) {
        return false;
    }
    proof {
        lemma_canvas_size(delta.width as int, delta.height as int);
    }
    let expected: usize = (delta.width as usize) * (delta.height as usize);
    if delta.pixels.len() != expected {
        return false;
    }
    let n = delta.pixels.len();
    let mut k: usize = 0;
    while k < n
        invariant
            k <= n,
            n == delta.pixels@.len(),
            forall|j: int|
                0 <= j < k ==> (delta.transparent == Some(#[trigger] delta.pixels@[j])
                    || delta.pixels@[j] < delta.palette@.len()),
        decreases n - k,
    {
        let p = delta.pixels[k];
        let is_transparent = match delta.transparent {
            Some(tr) => p == tr,
            None => false,
        };
        if !is_transparent && (p as usize) >= delta.palette.len() {
            return false;
        }
        k += 1;
    }
    true
}

/// The compositor: the persistent canvas, and the disposal method, region
/// and pre-paint snapshot of the previously displayed frame.
pub struct Compositor {
    pub width: u16,
    pub height: u16,
    pub canvas: Vec<Rgba>,
    /// The canvas as it stood just before the previous delta was painted
    /// (after that delta's own disposal step), retained for
    /// restore-to-previous.
    pub snapshot: Vec<Rgba>,
    pub prev_disposal: DisposalMethod,
    pub prev_left: u16,
    pub prev_top: u16,
    pub prev_width: u16,
    pub prev_height: u16,
}

impl Compositor {
    pub open spec fn wf(&self) -> bool {
        &&& self.canvas@.len() == self.width as int * self.height as int
        &&& self.snapshot@.len() == self.width as int * self.height as int
        &&& self.prev_left + self.prev_width <= self.width
        &&& self.prev_top + self.prev_height <= self.height
    }

    /// Whether (x, y) lies in the region the previous frame occupied.
    pub open spec fn in_prev_rect(&self, x: int, y: int) -> bool {
        in_rect(
            self.prev_left as int,
            self.prev_top as int,
            self.prev_width as int,
            self.prev_height as int,
            x,
            y,
        )
    }

    /// The canvas value at (x, y) once the previous frame's disposal method
    /// is resolved: restore-to-background clears its region to transparent,
    /// restore-to-previous reverts its region to the retained pre-paint
    /// values, and the other methods leave the canvas as painted.
    pub open spec fn disposed_at(&self, x: int, y: int) -> Rgba {
        if self.prev_disposal == DisposalMethod::Background && self.in_prev_rect(x, y) {
            transparent_pixel()
        } else if self.prev_disposal == DisposalMethod::Previous && self.in_prev_rect(x, y) {
            pix(self.snapshot@, self.width as int, x, y)
        } else {
            pix(self.canvas@, self.width as int, x, y)
        }
    }

    /// Creates a compositor over a fully transparent canvas with no previous
    /// frame.
    pub fn new(width: u16, height: u16) -> (c: Compositor)
        ensures
            c.wf(),
            c.width == width,
            c.height == height,
            c.canvas@.len() == width as int * height as int,
            forall|i: int| 0 <= i < c.canvas@.len() ==> c.canvas@[i] == transparent_pixel(),
            c.snapshot@ == c.canvas@,
            c.prev_disposal == DisposalMethod::Keep,
            c.prev_width == 0,
            c.prev_height == 0,
    {
        proof {
            lemma_canvas_size(width as int, height as int);
        }
        let n: usize = (width as usize) * (height as usize);
        let mut canvas: Vec<Rgba> = Vec::new();
        while canvas.len() < n
            invariant
                canvas@.len() <= n,
                forall|i: int| 0 <= i < canvas@.len() ==> canvas@[i] == transparent_pixel(),
            decreases n - canvas@.len(),
        {
            canvas.push(Rgba::clear());
        }
        let snapshot = clone_pixels(&canvas);
        Compositor {
            width,
            height,
            canvas,
            snapshot,
            prev_disposal: DisposalMethod::Keep,
            prev_left: 0,
            prev_top: 0,
            prev_width: 0,
            prev_height: 0,
        }
    }

    /// Applies one delta and hands back the full-frame raster snapshot.
    ///
    /// The raster equals the final canvas: the previous frame's disposal
    /// resolved, then the delta painted over it. The canvas as it stood
    /// between those two steps is retained as the new snapshot, and the
    /// delta's disposal method and region are recorded as "previous" for the
    /// next call. A delta that does not fit the canvas or points outside its
    /// palette is refused, and the compositor is left unchanged.
    pub fn apply(&mut self, delta: &FrameDelta) -> (r: Result<Vec<Rgba>, ConvError>)
        requires
            old(self).wf(),
        ensures
            final(self).wf(),
            final(self).width == old(self).width,
            final(self).height == old(self).height,
            match r {
                Ok(raster) => delta.wf(old(self).width, old(self).height) && apply_rel(
                    *old(self),
                    *final(self),
                    *delta,
                    raster@,
                ),
                Err(e) => e == ConvError::GifDisposeError && !delta.wf(
                    old(self).width,
                    old(self).height,
                ) && *final(self) == *old(self),
            },
    {
        if !check_delta(delta, self.width, self.height) {
            return Err(ConvError::GifDisposeError);
        }
        let ghost pre = *self;
        match self.prev_disposal {
            DisposalMethod::Background => {
                fill_rect(
                    &mut self.canvas,
                    self.width,
                    self.height,
                    self.prev_left,
                    self.prev_top,
                    self.prev_width,
                    self.prev_height,
                    Rgba::clear(),
                );
            },
            DisposalMethod::Previous => {
                copy_rect(
                    &mut self.canvas,
                    &self.snapshot,
                    self.width,
                    self.height,
                    self.prev_left,
                    self.prev_top,
                    self.prev_width,
                    self.prev_height,
                );
            },
            _ => {},
        }
        proof {
            assert forall|x: int, y: int|
                0 <= x < pre.width && 0 <= y < pre.height implies pix(
                self.canvas@,
                pre.width as int,
                x,
                y,
            ) == pre.disposed_at(x, y) by {
                lemma_pos_bound(pre.width as int, pre.height as int, x, y);
            }
        }
        // the disposed canvas is what restore-to-previous may later revert to
        self.snapshot = clone_pixels(&self.canvas);
        paint_delta(&mut self.canvas, self.width, self.height, delta);
        let raster = clone_pixels(&self.canvas);
        self.prev_disposal = delta.disposal;
        self.prev_left = delta.left;
        self.prev_top = delta.top;
        self.prev_width = delta.width;
        self.prev_height = delta.height;
        Ok(raster)
    }
}

/// How one `apply` call relates the compositor's state before (`pre`) and
/// after (`post`), the delta it was given, and the raster it returned.
pub open spec fn apply_rel(
    pre: Compositor,
    post: Compositor,
    delta: FrameDelta,
    raster: Seq<Rgba>,
) -> bool {
    &&& post.width == pre.width
    &&& post.height == pre.height
    &&& post.prev_disposal == delta.disposal
    &&& post.prev_left == delta.left
    &&& post.prev_top == delta.top
    &&& post.prev_width == delta.width
    &&& post.prev_height == delta.height
    &&& post.canvas@.len() == pre.width as int * pre.height as int
    &&& post.snapshot@.len() == pre.width as int * pre.height as int
    &&& forall|x: int, y: int|
        0 <= x < pre.width && 0 <= y < pre.height ==> pix(post.snapshot@, pre.width as int, x, y)
            == pre.disposed_at(x, y)
    &&& forall|x: int, y: int|
        0 <= x < pre.width && 0 <= y < pre.height ==> pix(post.canvas@, pre.width as int, x, y)
            == (if delta.paints(x, y) {
            delta.color_at(x, y)
        } else {
            pre.disposed_at(x, y)
        })
    &&& raster == post.canvas@
}

/// Restore-to-background: after a frame whose disposal is
/// restore-to-background, the raster of a following frame that paints
/// nothing shows that frame's region as transparent and everything else
/// unchanged.
pub proof fn lemma_restore_to_background(
    c0: Compositor,
    c1: Compositor,
    c2: Compositor,
    d1: FrameDelta,
    d2: FrameDelta,
    r1: Seq<Rgba>,
    r2: Seq<Rgba>,
)
    requires
        apply_rel(c0, c1, d1, r1),
        apply_rel(c1, c2, d2, r2),
        d1.disposal == DisposalMethod::Background,
        forall|x: int, y: int| 0 <= x < c0.width && 0 <= y < c0.height ==> !d2.paints(x, y),
    ensures
        forall|x: int, y: int|
            0 <= x < c0.width && 0 <= y < c0.height ==> pix(r2, c0.width as int, x, y) == (
            if in_rect(d1.left as int, d1.top as int, d1.width as int, d1.height as int, x, y) {
                transparent_pixel()
            } else {
                pix(r1, c0.width as int, x, y)
            }),
{
    assert forall|x: int, y: int|
        0 <= x < c0.width && 0 <= y < c0.height implies pix(r2, c0.width as int, x, y) == (
    if in_rect(d1.left as int, d1.top as int, d1.width as int, d1.height as int, x, y) {
        transparent_pixel()
    } else {
        pix(r1, c0.width as int, x, y)
    }) by {
        assert(pix(r2, c0.width as int, x, y) == c1.disposed_at(x, y));
    }
}

/// Restore-to-previous: after a frame whose disposal is restore-to-previous,
/// the raster of a following frame that paints nothing shows, inside that
/// frame's region, exactly the values the canvas held just before that frame
/// was painted, and everything outside it unchanged.
pub proof fn lemma_restore_to_previous(
    c0: Compositor,
    c1: Compositor,
    c2: Compositor,
    d1: FrameDelta,
    d2: FrameDelta,
    r1: Seq<Rgba>,
    r2: Seq<Rgba>,
)
    requires
        apply_rel(c0, c1, d1, r1),
        apply_rel(c1, c2, d2, r2),
        d1.disposal == DisposalMethod::Previous,
        forall|x: int, y: int| 0 <= x < c0.width && 0 <= y < c0.height ==> !d2.paints(x, y),
    ensures
        forall|x: int, y: int|
            0 <= x < c0.width && 0 <= y < c0.height ==> pix(r2, c0.width as int, x, y) == (
            if in_rect(d1.left as int, d1.top as int, d1.width as int, d1.height as int, x, y) {
                c0.disposed_at(x, y)
            } else {
                pix(r1, c0.width as int, x, y)
            }),
{
    assert forall|x: int, y: int|
        0 <= x < c0.width && 0 <= y < c0.height implies pix(r2, c0.width as int, x, y) == (
    if in_rect(d1.left as int, d1.top as int, d1.width as int, d1.height as int, x, y) {
        c0.disposed_at(x, y)
    } else {
        pix(r1, c0.width as int, x, y)
    }) by {
        assert(pix(r2, c0.width as int, x, y) == c1.disposed_at(x, y));
    }
}

} // verus!
