//! Entry points for fuzzing: the readers of untrusted bytes, driven with any
//! bytes at all. What a fuzzer would look for is what they promise.
use vstd::prelude::*;
use vstd::slice::slice_subrange;
use vstd::utf8;

use crate::labels;
use crate::labels::LABEL_LEN_CAP;
use crate::scan;
use crate::scan::{utf8_lossy, ScanView, SseScan, LINE_CAP_BYTES};

verus! {

/// How many bytes of `n` a part of `step` takes.
pub open spec fn part(n: nat, step: nat) -> nat {
    if n < step {
        n
    } else {
        step
    }
}

/// What is known once bytes have arrived in parts of `step`.
pub open spec fn fed_in_parts(v: ScanView, bytes: Seq<u8>, step: nat) -> ScanView
    decreases bytes.len(),
{
    if bytes.len() == 0 || step == 0 {
        v
    } else {
        let k = part(bytes.len(), step) as int;
        fed_in_parts(scan::text_fed(v, scan::lossy(bytes.take(k))), bytes.skip(k), step)
    }
}

/// The size of the parts, taken from the bytes themselves.
pub open spec fn step_of(bytes: Seq<u8>) -> nat {
    if bytes.len() == 0 {
        3
    } else {
        (bytes[0] % 17 + 1) as nat
    }
}

/// Scans bytes twice, at once and in parts, as the network might deliver them.
/// Neither scan keeps more than the longest line that is kept.
pub fn sse_scan(data: &[u8]) -> (r: (SseScan, SseScan))
    ensures
        r.0@ == scan::text_fed(scan::nothing_seen(), scan::lossy(data@)),
        r.1@ == fed_in_parts(scan::nothing_seen(), data@, step_of(data@)),
        utf8::encode_utf8(r.0@.buf).len() <= LINE_CAP_BYTES,
        utf8::encode_utf8(r.1@.buf).len() <= LINE_CAP_BYTES,
{
    let n: usize = data.len();
    let mut whole = SseScan::default();
    whole.feed(data);
    let step: usize = if n == 0 {
        3
    } else {
        (data[0] % 17) as usize + 1
    };
    let mut parts = SseScan::default();
    let mut i: usize = 0;
    assert(data@.skip(0) =~= data@);
    proof {
        scan::empty_is_short();
    }
    while i < n
        invariant
            n == data.len(),
            i <= n,
            0 < step == step_of(data@),
            parts.events + parts.buf@.len() <= i,
            utf8::encode_utf8(parts@.buf).len() <= LINE_CAP_BYTES,
            fed_in_parts(scan::nothing_seen(), data@, step as nat) == fed_in_parts(
                parts@,
                data@.skip(i as int),
                step as nat,
            ),
        decreases n - i,
    {
        let k: usize = if n - i < step {
            n - i
        } else {
            step
        };
        let chunk = slice_subrange(data, i, i + k);
        let ghost rest = data@.skip(i as int);
        assert(chunk@ =~= rest.take(k as int));
        assert(rest.skip(k as int) =~= data@.skip(i + k));
        parts.feed(chunk);
        i = i + k;
    }
    (whole, parts)
}

/// Makes a label of any bytes: never empty, never long, and safe throughout.
pub fn sanitize_label(data: &[u8]) -> (r: String)
    ensures
        r@ == labels::sanitized(scan::lossy(data@)),
        0 < r@.len() <= LABEL_LEN_CAP,
        forall|i: int| 0 <= i < r@.len() ==> labels::safe_char(#[trigger] r@[i]),
{
    let raw = utf8_lossy(data);
    proof {
        labels::labels_are_safe(raw@);
    }
    labels::sanitize_label(raw.as_str())
}

// ---------------------------------------------------------------------------
// Laws
// ---------------------------------------------------------------------------
/// Any bytes are scanned as a stream is: at once, from nothing seen; and in parts of
/// up to seventeen bytes, each part in turn, so that bytes which fit in one part are
/// seen alike.
pub proof fn any_bytes_are_scanned_like_a_stream(
    data: &[u8],
    r: (SseScan, SseScan),
    fresh: SseScan,
    whole: &mut SseScan,
)
    requires
        call_ensures(sse_scan, (data,), r),
        call_ensures(SseScan::default, (), fresh),
        *old(whole) == fresh,
        call_ensures(SseScan::feed, (whole, data), ()),
    ensures
        r.0@ == final(whole)@,
        0 < data@.len() <= data@[0] as int % 17 + 1 ==> r.1@ == r.0@,
        data@.len() == 0 ==> r.1@ == fresh@,
{
    if 0 < data@.len() <= data@[0] as int % 17 + 1 {
        assert(part(data@.len(), step_of(data@)) == data@.len());
        assert(data@.take(data@.len() as int) =~= data@);
        let fed = scan::text_fed(scan::nothing_seen(), scan::lossy(data@));
        assert(fed_in_parts(fed, data@.skip(data@.len() as int), step_of(data@)) == fed);
    }
}

/// A label of any bytes is the label of the text that they are read as.
pub proof fn any_bytes_are_labelled_like_a_name(
    data: &[u8],
    r: String,
    raw: &str,
    label: String,
)
    requires
        call_ensures(sanitize_label, (data,), r),
        raw@ == scan::lossy(data@),
        call_ensures(labels::sanitize_label, (raw,), label),
    ensures
        r@ == label@,
        0 < r@.len() <= 64,
{
}

/// Bytes in parts are read part by part: one part of the given size, or what is left
/// where that is less, and then the rest in the same way.
pub proof fn parts_are_read_in_turn(
    first: &mut SseScan,
    bytes: &[u8],
    head: &[u8],
    step: nat,
    k: int,
    data: &[u8],
    r: (SseScan, SseScan),
    fresh: SseScan,
)
    requires
        call_ensures(SseScan::feed, (first, head), ()),
        head@ == bytes@.take(k),
        0 < k <= bytes@.len(),
        k == step || (k == bytes@.len() && k < step),
        call_ensures(sse_scan, (data,), r),
        call_ensures(SseScan::default, (), fresh),
    ensures
        fed_in_parts(old(first)@, bytes@, step) == fed_in_parts(
            final(first)@,
            bytes@.skip(k),
            step,
        ),
        fed_in_parts(old(first)@, Seq::empty(), step) == old(first)@,
        data@.len() > 0 ==> r.1@ == fed_in_parts(
            fresh@,
            data@,
            (data@[0] as int % 17 + 1) as nat,
        ),
{
}

} // verus!
