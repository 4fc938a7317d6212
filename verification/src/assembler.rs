//! The container assembler: accumulates cursor directory entries in arrival
//! order and serializes a header (frame count, step count, canvas
//! dimensions, display rate) followed by every entry into the RIFF-style
//! animated-cursor container.

use vstd::prelude::*;

use crate::encoder::CursorDirectoryEntry;
use crate::error::ConvError;

verus! {

/// A 16-bit value in little-endian byte order.
pub open spec fn u16_le(v: u16) -> Seq<u8> {
    seq![(v % 256) as u8, (v / 256) as u8]
}

/// A 32-bit value in little-endian byte order.
pub open spec fn u32_le(v: u32) -> Seq<u8> {
    seq![
        (v % 256) as u8,
        ((v / 256) % 256) as u8,
        ((v / 65536) % 256) as u8,
        ((v / 16777216) % 256) as u8,
    ]
}

/// The one-byte dimension field of a cursor directory: 256 is stored as 0.
pub open spec fn dim_byte(v: u16) -> u8 {
    if v > 255 {
        0u8
    } else {
        v as u8
    }
}

/// One self-contained icon/cursor directory structure holding a single
/// image entry: a directory of one cursor image, the dimension and hotspot
/// fields, the payload size, the fixed payload offset of 22, then the
/// payload itself.
pub open spec fn entry_bytes(e: CursorDirectoryEntry) -> Seq<u8> {
    seq![0u8, 0u8, 2u8, 0u8, 1u8, 0u8, dim_byte(e.width), dim_byte(e.height), 0u8, 0u8]
        + u16_le(e.hotspot_x) + u16_le(e.hotspot_y) + u32_le(e.png@.len() as u32) + u32_le(22)
        + e.png@
}

/// The frame's chunk in the frame list: tag, size, directory structure, and
/// a pad byte when the size is odd.
pub open spec fn icon_chunk(e: CursorDirectoryEntry) -> Seq<u8> {
    let d = 22 + e.png@.len();
    seq![0x69u8, 0x63u8, 0x6fu8, 0x6eu8] + u32_le(d as u32) + entry_bytes(e) + (if d % 2 == 1 {
        seq![0u8]
    } else {
        Seq::<u8>::empty()
    })
}

/// The frame-list payload: one chunk per entry, in arrival order.
pub open spec fn frames_bytes(entries: Seq<CursorDirectoryEntry>) -> Seq<u8>
    decreases entries.len(),
{
    if entries.len() == 0 {
        Seq::empty()
    } else {
        frames_bytes(entries.drop_last()) + icon_chunk(entries.last())
    }
}

/// The header chunk payload: its own size, the frame count, the step count
/// (always equal to the frame count: no independent sequencing), canvas
/// width and height, a color depth of 32, one plane, the display rate in
/// ticks of 1/60 second, and the cursor flag.
pub open spec fn header_bytes(num_frames: u32, width: u32, height: u32, frame_rate: u32) -> Seq<
    u8,
> {
    u32_le(36) + u32_le(num_frames) + u32_le(num_frames) + u32_le(width) + u32_le(height) + u32_le(
        32,
    ) + u32_le(1) + u32_le(frame_rate) + u32_le(1)
}

/// Everything before the frame-list payload: the RIFF tag and size, the
/// animated-cursor form tag, the header chunk, and the frame-list chunk's
/// own tag, size and form tag. `fl` is the length of the frame-list payload
/// that follows.
pub open spec fn container_prefix(
    num_frames: u32,
    width: u32,
    height: u32,
    frame_rate: u32,
    fl: int,
) -> Seq<u8> {
    seq![0x52u8, 0x49u8, 0x46u8, 0x46u8] + u32_le((60 + fl) as u32) + seq![
        0x41u8,
        0x43u8,
        0x4fu8,
        0x4eu8,
    ] + seq![0x61u8, 0x6eu8, 0x69u8, 0x68u8] + u32_le(36) + header_bytes(
        num_frames,
        width,
        height,
        frame_rate,
    ) + seq![0x4cu8, 0x49u8, 0x53u8, 0x54u8] + u32_le((4 + fl) as u32) + seq![
        0x66u8,
        0x72u8,
        0x61u8,
        0x6du8,
    ]
}

/// The whole container: the prefix above followed by one chunk per entry.
pub open spec fn ani_bytes(
    num_frames: u32,
    width: u32,
    height: u32,
    frame_rate: u32,
    entries: Seq<CursorDirectoryEntry>,
) -> Seq<u8> {
    container_prefix(num_frames, width, height, frame_rate, frames_bytes(entries).len() as int)
        + frames_bytes(entries)
}

/// Whether the container's 32-bit size fields can hold the serialized
/// entries.
pub open spec fn ani_fits(entries: Seq<CursorDirectoryEntry>) -> bool {
    60 + frames_bytes(entries).len() <= 0xffffffff
}

proof fn lemma_frames_bytes_snoc(entries: Seq<CursorDirectoryEntry>, i: int)
    requires
        0 <= i < entries.len(),
    ensures
        frames_bytes(entries.take(i + 1)) == frames_bytes(entries.take(i)) + icon_chunk(
            entries[i],
        ),
{
    assert(entries.take(i + 1).drop_last() =~= entries.take(i));
    assert(entries.take(i + 1).last() == entries[i]);
}

/// A prefix of the frame list is never longer than the whole.
proof fn lemma_frames_bytes_prefix_len(entries: Seq<CursorDirectoryEntry>, i: int)
    requires
        0 <= i <= entries.len(),
    ensures
        frames_bytes(entries.take(i)).len() <= frames_bytes(entries).len(),
    decreases entries.len() - i,
{
    if i == entries.len() {
        assert(entries.take(i) =~= entries);
    } else {
        lemma_frames_bytes_snoc(entries, i);
        lemma_frames_bytes_prefix_len(entries, i + 1);
    }
}

/// Appends a 16-bit value in little-endian order.
fn push_u16_le(out: &mut Vec<u8>, v: u16)
    ensures
        final(out)@ == old(out)@ + u16_le(v),
{
    out.push((v % 256) as u8);
    out.push((v / 256) as u8);
    proof {
        assert(out@ =~= old(out)@ + u16_le(v));
    }
}

/// Appends a 32-bit value in little-endian order.
fn push_u32_le(out: &mut Vec<u8>, v: u32)
    ensures
        final(out)@ == old(out)@ + u32_le(v),
{
    out.push((v % 256) as u8);
    out.push(((v / 256) % 256) as u8);
    out.push(((v / 65536) % 256) as u8);
    out.push(((v / 16777216) % 256) as u8);
    proof {
        assert(out@ =~= old(out)@ + u32_le(v));
    }
}

/// The one-byte dimension field.
fn dim_byte_exec(v: u16) -> (r: u8)
    ensures
        r == dim_byte(v),
{
    if v > 255 {
        0
    } else {
        v as u8
    }
}

/// Appends one frame's chunk to the frame list.
fn push_icon_chunk(out: &mut Vec<u8>, e: &CursorDirectoryEntry)
    requires
        e.png@.len() <= 0xffffffa5,
    ensures
        final(out)@ == old(out)@ + icon_chunk(*e),
{
    let plen = e.png.len();
    let d: u64 = 22 + plen as u64;
    out.push(0x69);
    out.push(0x63);
    out.push(0x6f);
    out.push(0x6e);
    push_u32_le(out, d as u32);
    let ghost mid = out@;
    // the directory structure
    out.push(0);
    out.push(0);
    out.push(2);
    out.push(0);
    out.push(1);
    out.push(0);
    out.push(dim_byte_exec(e.width));
    out.push(dim_byte_exec(e.height));
    out.push(0);
    out.push(0);
    push_u16_le(out, e.hotspot_x);
    push_u16_le(out, e.hotspot_y);
    push_u32_le(out, plen as u32);
    push_u32_le(out, 22);
    let mut k: usize = 0;
    let ghost head = out@;
    while k < plen
        invariant
            k <= plen,
            plen == e.png@.len(),
            out@ == head + e.png@.take(k as int),
        decreases plen - k,
    {
        out.push(e.png[k]);
        proof {
            assert(out@ =~= head + e.png@.take(k + 1));
        }
        k += 1;
    }
    proof {
        assert(e.png@.take(plen as int) =~= e.png@);
        assert(out@ =~= mid + entry_bytes(*e));
    }
    if d % 2 == 1 {
        out.push(0);
    }
    proof {
        assert(out@ =~= old(out)@ + icon_chunk(*e));
    }
}

/// Serializes everything before the frame-list payload.
#[verifier::rlimit(60)]
fn build_prefix(num_frames: u32, width: u16, height: u16, frame_rate: u32, fl: u64) -> (out: Vec<
    u8,
>)
    requires
        fl <= 0xffffffff - 60,
    ensures
        out@ == container_prefix(num_frames, width as u32, height as u32, frame_rate, fl as int),
{
    let mut out: Vec<u8> = Vec::new();
    out.push(0x52);
    out.push(0x49);
    out.push(0x46);
    out.push(0x46);
    push_u32_le(&mut out, (60 + fl) as u32);
    out.push(0x41);
    out.push(0x43);
    out.push(0x4f);
    out.push(0x4e);
    out.push(0x61);
    out.push(0x6e);
    out.push(0x69);
    out.push(0x68);
    push_u32_le(&mut out, 36);
    push_u32_le(&mut out, 36);
    push_u32_le(&mut out, num_frames);
    push_u32_le(&mut out, num_frames);
    push_u32_le(&mut out, width as u32);
    push_u32_le(&mut out, height as u32);
    push_u32_le(&mut out, 32);
    push_u32_le(&mut out, 1);
    push_u32_le(&mut out, frame_rate);
    push_u32_le(&mut out, 1);
    out.push(0x4c);
    out.push(0x49);
    out.push(0x53);
    out.push(0x54);
    push_u32_le(&mut out, (4 + fl) as u32);
    out.push(0x66);
    out.push(0x72);
    out.push(0x61);
    out.push(0x6d);
    proof {
        assert(out@ =~= container_prefix(
            num_frames,
            width as u32,
            height as u32,
            frame_rate,
            fl as int,
        ));
    }
    out
}

/// The container assembler: the ordered entries (insertion order is display
/// order) and the running frame counter.
pub struct Assembler {
    pub entries: Vec<CursorDirectoryEntry>,
    pub count: u32,
}

impl Assembler {
    /// The counter always reports exactly the accumulated entries.
    pub open spec fn wf(&self) -> bool {
        self.count as int == self.entries@.len()
    }

    pub fn new() -> (a: Assembler)
        ensures
            a.wf(),
            a.entries@.len() == 0,
            a.count == 0,
    {
        Assembler { entries: Vec::new(), count: 0 }
    }

    /// Appends one directory entry in arrival order and advances the frame
    /// counter. No reordering, no deduplication.
    pub fn push(&mut self, e: CursorDirectoryEntry)
        requires
            old(self).wf(),
            old(self).count < 0xffffffffu32,
        ensures
            final(self).wf(),
            final(self).entries@ == old(self).entries@.push(e),
            final(self).count == old(self).count + 1,
    {
        self.entries.push(e);
        self.count = self.count + 1;
    }

    /// Serializes the header and every entry into the container's binary
    /// layout: the header reports the running counter as both frame count
    /// and step count. Fails with `FailedAniEncoding` exactly when the
    /// serialized entries overflow the container's 32-bit size fields.
    pub fn finalize(&self, frame_rate: u32, width: u16, height: u16) -> (r: Result<
        Vec<u8>,
        ConvError,
    >)
        requires
            self.wf(),
        ensures
            match r {
                Ok(out) => ani_fits(self.entries@) && out@ == ani_bytes(
                    self.count,
                    width as u32,
                    height as u32,
                    frame_rate,
                    self.entries@,
                ),
                Err(e) => e == ConvError::FailedAniEncoding && !ani_fits(self.entries@),
            },
    {
        let (mut frames, total) = match build_frames(&self.entries) {
            Err(e) => {
                return Err(e);
            },
            Ok(p) => p,
        };
        let mut out = build_prefix(self.count, width, height, frame_rate, total);
        out.append(&mut frames);
        Ok(out)
    }
}

/// Serializes the frame-list payload, or reports that it cannot fit the
/// container's 32-bit size fields.
#[verifier::loop_isolation(false)]
#[verifier::rlimit(60)]
fn build_frames(entries: &Vec<CursorDirectoryEntry>) -> (r: Result<(Vec<u8>, u64), ConvError>)
    ensures
        match r {
            Ok(p) => p.0@ == frames_bytes(entries@) && p.1 == frames_bytes(entries@).len() && p.1
                <= 0xffffffff - 60,
            Err(e) => e == ConvError::FailedAniEncoding && !ani_fits(entries@),
        },
{
    let n = entries.len();
    let mut frames: Vec<u8> = Vec::new();
    let mut total: u64 = 0;
    let mut i: usize = 0;
    while i < n
        invariant
            i <= n,
            total == frames_bytes(entries@.take(i as int)).len(),
            total <= 0xffffffff - 60,
            frames@ == frames_bytes(entries@.take(i as int)),
        decreases n - i,
    {
        let e = &entries[i];
        let plen = e.png.len();
        if plen as u64 > 0xffffffa5u64 {
            proof {
                lemma_frames_bytes_snoc(entries@, i as int);
                lemma_frames_bytes_prefix_len(entries@, i + 1);
            }
            return Err(ConvError::FailedAniEncoding);
        }
        let chunk_len: u64 = 8 + (22 + plen as u64) + ((22 + plen as u64) % 2);
        proof {
            lemma_frames_bytes_snoc(entries@, i as int);
        }
        if total + chunk_len > 0xffffffffu64 - 60 {
            proof {
                lemma_frames_bytes_prefix_len(entries@, i + 1);
            }
            return Err(ConvError::FailedAniEncoding);
        }
        push_icon_chunk(&mut frames, e);
        total = total + chunk_len;
        i += 1;
    }
    proof {
        assert(entries@.take(n as int) =~= entries@);
    }
    Ok((frames, total))
}

/// After N entries are accumulated, the serialized container header reports
/// N as both the frame count and the step count.
#[verifier::rlimit(100)]
pub proof fn lemma_header_counts(
    n: u32,
    width: u32,
    height: u32,
    frame_rate: u32,
    entries: Seq<CursorDirectoryEntry>,
)
    requires
        entries.len() == n,
    ensures
        ani_bytes(n, width, height, frame_rate, entries).subrange(24, 28) == u32_le(n),
        ani_bytes(n, width, height, frame_rate, entries).subrange(28, 32) == u32_le(n),
{
    let b = ani_bytes(n, width, height, frame_rate, entries);
    assert(b.subrange(24, 28) =~= u32_le(n));
    assert(b.subrange(28, 32) =~= u32_le(n));
}

} // verus!
