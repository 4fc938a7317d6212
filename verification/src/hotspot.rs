//! The hotspot validator: parses a `"x:y"` coordinate pair and checks it
//! against the absolute bound (256) and the canvas dimensions.

use vstd::prelude::*;

use crate::error::ConvError;

verus! {

/// The UTF-8 bytes of a piece of text; the parser works on bytes.
pub open spec fn text_bytes(s: Seq<char>) -> Seq<u8> {
    vstd::utf8::encode_utf8(s)
}

/// An ASCII decimal digit.
pub open spec fn is_digit(b: u8) -> bool {
    48 <= b <= 57
}

pub open spec fn all_digits(s: Seq<u8>) -> bool {
    forall|i: int| 0 <= i < s.len() ==> is_digit(#[trigger] s[i])
}

/// Decimal value of a sequence of ASCII digit bytes (most significant first).
pub open spec fn dec_val(digits: Seq<u8>) -> int
    decreases digits.len(),
{
    if digits.len() == 0 {
        0
    } else {
        dec_val(digits.drop_last()) * 10 + (digits.last() as int - 48)
    }
}

/// What `str::parse::<u16>` accepts of one field: an optional leading `+`,
/// then at least one decimal digit, with a value that fits the coordinate
/// range.
pub open spec fn parse_u16_spec(f: Seq<u8>) -> Option<u16> {
    let t = if f.len() > 0 && f[0] == 43 {
        f.drop_first()
    } else {
        f
    };
    if t.len() > 0 && all_digits(t) && dec_val(t) <= 65535 {
        Some(dec_val(t) as u16)
    } else {
        None
    }
}

/// Index of the first separator byte (`:`), or the length if there is none.
pub open spec fn first_colon(s: Seq<u8>) -> int
    decreases s.len(),
{
    if s.len() == 0 {
        0
    } else if s[0] == 58 {
        0
    } else {
        1 + first_colon(s.drop_first())
    }
}

/// Splits on the separator into at most two numeric fields: the text up to
/// the first `:` gives x; the text between the first and second `:` (or the
/// end) gives y; anything after a second `:` is ignored. A single field
/// leaves y at 0.
pub open spec fn parse_hotspot_spec(s: Seq<u8>) -> Option<(u16, u16)> {
    let i = first_colon(s);
    match parse_u16_spec(s.subrange(0, i)) {
        None => None,
        Some(x) => {
            if i == s.len() {
                Some((x, 0u16))
            } else {
                let rest = s.subrange(i + 1, s.len() as int);
                let j = first_colon(rest);
                match parse_u16_spec(rest.subrange(0, j)) {
                    None => None,
                    Some(y) => Some((x, y)),
                }
            }
        },
    }
}

pub open spec fn parse_hotspot_result(s: Seq<u8>) -> Result<(u16, u16), ConvError> {
    match parse_hotspot_spec(s) {
        Some(p) => Ok(p),
        None => Err(ConvError::InvalidHotspotDefinition),
    }
}

/// The full validation rule: a parse failure is `InvalidHotspotDefinition`;
/// a coordinate above 256 is `HotspotOutOfMaxRange`; a coordinate above the
/// corresponding canvas dimension is `HotspotOutOfGifRange`.
pub open spec fn validate_hotspot_spec(s: Seq<u8>, canvas_w: u16, canvas_h: u16) -> Result<
    (u16, u16),
    ConvError,
> {
    match parse_hotspot_spec(s) {
        None => Err(ConvError::InvalidHotspotDefinition),
        Some((x, y)) => {
            if x > 256 || y > 256 {
                Err(ConvError::HotspotOutOfMaxRange(x, y))
            } else if x > canvas_w || y > canvas_h {
                Err(ConvError::HotspotOutOfGifRange(x, y, canvas_w, canvas_h))
            } else {
                Ok((x, y))
            }
        },
    }
}

proof fn lemma_first_colon_is(s: Seq<u8>, i: int)
    requires
        0 <= i <= s.len(),
        forall|j: int| 0 <= j < i ==> s[j] != 58,
        i < s.len() ==> s[i] == 58,
    ensures
        first_colon(s) == i,
    decreases s.len(),
{
    if i == 0 {
        if s.len() > 0 {
            assert(s[0] == 58);
        }
    } else {
        assert(s[0] != 58);
        let t = s.drop_first();
        assert forall|j: int| 0 <= j < i - 1 implies t[j] != 58 by {
            assert(t[j] == s[j + 1]);
        }
        assert(i - 1 < t.len() ==> t[i - 1] == s[i]);
        lemma_first_colon_is(t, i - 1);
    }
}

/// Scans for the first separator byte at or after `start`.
fn find_colon(bytes: &Vec<u8>, start: usize) -> (r: usize)
    requires
        start <= bytes@.len(),
    ensures
        start <= r <= bytes@.len(),
        r - start == first_colon(bytes@.subrange(start as int, bytes@.len() as int)),
        forall|j: int| start <= j < r ==> bytes@[j] != 58,
        r < bytes@.len() ==> bytes@[r as int] == 58,
{
    let n = bytes.len();
    let mut k = start;
    while k < n && bytes[k] != 58u8
        invariant
            start <= k <= n,
            n == bytes@.len(),
            forall|j: int| start <= j < k ==> bytes@[j] != 58,
        decreases n - k,
    {
        k += 1;
    }
    assert(k < n ==> bytes@[k as int] == 58);
    proof {
        let sub = bytes@.subrange(start as int, bytes@.len() as int);
        assert forall|j: int| 0 <= j < k - start implies sub[j] != 58 by {
            assert(sub[j] == bytes@[start + j]);
        }
        assert(k - start < sub.len() ==> sub[k - start] == bytes@[k as int]);
        lemma_first_colon_is(sub, k - start);
    }
    k
}

/// Parses the decimal field `bytes[start..end]`, with the meaning of
/// `str::parse::<u16>`.
#[verifier::loop_isolation(false)]
fn parse_u16_range(bytes: &Vec<u8>, start: usize, end: usize) -> (r: Option<u16>)
    requires
        start <= end <= bytes@.len(),
    ensures
        r == parse_u16_spec(bytes@.subrange(start as int, end as int)),
{
    let ghost f = bytes@.subrange(start as int, end as int);
    let mut i = start;
    if i < end && bytes[i] == 43u8 {
        i += 1;
    }
    let ghost t = if f.len() > 0 && f[0] == 43 {
        f.drop_first()
    } else {
        f
    };
    proof {
        assert(t =~= bytes@.subrange(i as int, end as int));
    }
    if i == end {
        return None;
    }
    let base = i;
    let mut acc: u32 = 0;
    let mut k = i;
    while k < end
        invariant
            base <= k <= end <= bytes@.len(),
            t == bytes@.subrange(base as int, end as int),
            t.len() == end - base,
            forall|j: int| 0 <= j < k - base ==> is_digit(#[trigger] t[j]),
            (acc <= 65535 && acc == dec_val(t.take(k - base))) || (acc == 70000 && dec_val(
                t.take(k - base),
            ) > 65535),
        decreases end - k,
    {
        let b = bytes[k];
        assert(t[k - base] == b);
        if b < 48u8 || b > 57u8 {
            assert(!is_digit(t[k - base]));
            assert(!all_digits(t));
            return None;
        }
        let d: u32 = (b - 48u8) as u32;
        proof {
            let n = k - base;
            assert(t.take(n + 1).drop_last() =~= t.take(n));
            assert(t.take(n + 1).last() == t[n]);
            assert(dec_val(t.take(n + 1)) == dec_val(t.take(n)) * 10 + (t[n] as int - 48));
        }
        if acc > 65535 {
            // the value is already out of range; it stays out of range
        } else {
            acc = acc * 10 + d;
            if acc > 65535 {
                acc = 70000;
            }
        }
        k += 1;
    }
    proof {
        assert(t.take(end - base) =~= t);
    }
    if acc > 65535 {
        None
    } else {
        assert(all_digits(t));
        Some(acc as u16)
    }
}

/// Parses a `"x:y"` hotspot string; any parse failure of a field signals
/// `InvalidHotspotDefinition`. A string without a separator leaves y at 0.
pub fn parse_hotspot(h: &String) -> (r: Result<(u16, u16), ConvError>)
    ensures
        r == parse_hotspot_result(text_bytes(h@)),
{
    let s: &str = h.as_str();
    let bytes: Vec<u8> = vstd::slice::slice_to_vec(s.as_bytes());
    proof {
        assert(bytes@ == text_bytes(h@));
    }
    let n = bytes.len();
    let i = find_colon(&bytes, 0);
    proof {
        assert(bytes@.subrange(0, bytes@.len() as int) =~= bytes@);
    }
    let x = match parse_u16_range(&bytes, 0, i) {
        None => {
            return Err(ConvError::InvalidHotspotDefinition);
        },
        Some(x) => x,
    };
    if i == n {
        return Ok((x, 0));
    }
    let ghost rest = bytes@.subrange(i + 1, bytes@.len() as int);
    let j = find_colon(&bytes, i + 1);
    proof {
        assert(rest =~= bytes@.subrange(i + 1, bytes@.len() as int));
        assert(j - (i + 1) == first_colon(rest));
        assert(bytes@.subrange(i + 1, j as int) =~= rest.subrange(0, j - (i + 1)));
    }
    match parse_u16_range(&bytes, i + 1, j) {
        None => Err(ConvError::InvalidHotspotDefinition),
        Some(y) => Ok((x, y)),
    }
}

/// Validates a hotspot string against the canvas: parses it, then checks the
/// absolute bound of 256 and then the canvas bounds, returning the validated
/// pair or the exact error kind of the first rule broken.
pub fn validate_hotspot(h: &String, canvas_w: u16, canvas_h: u16) -> (r: Result<
    (u16, u16),
    ConvError,
>)
    ensures
        r == validate_hotspot_spec(text_bytes(h@), canvas_w, canvas_h),
{
    let (x, y) = match parse_hotspot(h) {
        Err(e) => {
            return Err(e);
        },
        Ok(p) => p,
    };
    if x > 256 || y > 256 {
        Err(ConvError::HotspotOutOfMaxRange(x, y))
    } else if x > canvas_w || y > canvas_h {
        Err(ConvError::HotspotOutOfGifRange(x, y, canvas_w, canvas_h))
    } else {
        Ok((x, y))
    }
}

/// Every hotspot within both the absolute bound and the canvas validates to
/// itself, unchanged.
pub proof fn lemma_validate_in_range(s: Seq<u8>, x: u16, y: u16, canvas_w: u16, canvas_h: u16)
    requires
        parse_hotspot_spec(s) == Some((x, y)),
        x <= 256,
        y <= 256,
        x <= canvas_w,
        y <= canvas_h,
    ensures
        validate_hotspot_spec(s, canvas_w, canvas_h) == Ok::<(u16, u16), ConvError>((x, y)),
{
}

/// A hotspot with a coordinate above 256 is rejected with
/// `HotspotOutOfMaxRange`, whatever the canvas.
pub proof fn lemma_validate_max_range(s: Seq<u8>, x: u16, y: u16, canvas_w: u16, canvas_h: u16)
    requires
        parse_hotspot_spec(s) == Some((x, y)),
        x > 256 || y > 256,
    ensures
        validate_hotspot_spec(s, canvas_w, canvas_h) == Err::<(u16, u16), ConvError>(
            ConvError::HotspotOutOfMaxRange(x, y),
        ),
{
}

/// A hotspot within the absolute bound but outside the canvas is rejected
/// with `HotspotOutOfGifRange`, carrying the canvas width and height.
pub proof fn lemma_validate_gif_range(s: Seq<u8>, x: u16, y: u16, canvas_w: u16, canvas_h: u16)
    requires
        parse_hotspot_spec(s) == Some((x, y)),
        x <= 256,
        y <= 256,
        x > canvas_w || y > canvas_h,
    ensures
        validate_hotspot_spec(s, canvas_w, canvas_h) == Err::<(u16, u16), ConvError>(
            ConvError::HotspotOutOfGifRange(x, y, canvas_w, canvas_h),
        ),
{
}

} // verus!
