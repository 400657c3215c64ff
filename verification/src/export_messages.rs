//! Recovering message text from an archived attributed string when the
//! archive cannot be decoded: the longest run of printable ASCII that is
//! not a name of the archive format.

use vstd::prelude::*;

use crate::text::ascii_string;

verus! {

/// Whether a byte is printable ASCII (space to tilde).
pub open spec fn printable(b: u8) -> bool {
    32 <= b && b < 127
}

/// Whether a run is archive structure rather than text: it starts with `NS`
/// or `__k`, or is `streamtyped`.
pub open spec fn format_name(run: Seq<u8>) -> bool {
    ||| (run.len() >= 2 && run[0] == 78u8 && run[1] == 83u8)
    ||| (run.len() >= 3 && run[0] == 95u8 && run[1] == 95u8 && run[2] == 107u8)
    ||| run == seq![115u8, 116u8, 114u8, 101u8, 97u8, 109u8, 116u8, 121u8, 112u8, 101u8, 100u8]
}

/// The best run so far and the current run after scanning `bytes`: a
/// printable byte extends the current run; any other byte ends it, and it
/// becomes the best run when it is longer and not a format name.
pub open spec fn scan_runs(bytes: Seq<u8>) -> (Seq<u8>, Seq<u8>)
    decreases bytes.len(),
{
    if bytes.len() == 0 {
        (Seq::empty(), Seq::empty())
    } else {
        let (best, cur) = scan_runs(bytes.drop_last());
        let b = bytes.last();
        if printable(b) {
            (best, cur.push(b))
        } else if cur.len() > best.len() && !format_name(cur) {
            (cur, Seq::empty())
        } else {
            (best, Seq::empty())
        }
    }
}

/// The longest run: the best one, or the final run when it is longer.
pub open spec fn longest_run(bytes: Seq<u8>) -> Seq<u8> {
    let (best, cur) = scan_runs(bytes);
    if cur.len() > best.len() {
        cur
    } else {
        best
    }
}

/// `s` without its leading bytes equal to `c`.
pub open spec fn strip_leading(s: Seq<u8>, c: u8) -> Seq<u8>
    decreases s.len(),
{
    if s.len() > 0 && s[0] == c {
        strip_leading(s.drop_first(), c)
    } else {
        s
    }
}

/// `s` without its trailing bytes equal to `c`.
pub open spec fn strip_trailing(s: Seq<u8>, c: u8) -> Seq<u8>
    decreases s.len(),
{
    if s.len() > 0 && s.last() == c {
        strip_trailing(s.drop_last(), c)
    } else {
        s
    }
}

/// The recovered text: the longest run, without leading `+` signs when it
/// is longer than two bytes, and without surrounding spaces.
pub open spec fn text_fallback(bytes: Seq<u8>) -> Seq<u8> {
    let run = longest_run(bytes);
    let unsigned = if run.len() > 2 {
        strip_leading(run, 43u8)
    } else {
        run
    };
    strip_trailing(strip_leading(unsigned, 32u8), 32u8)
}

/// Every byte of a run is printable.
proof fn lemma_runs_printable(bytes: Seq<u8>)
    ensures
        forall|i: int| 0 <= i < scan_runs(bytes).0.len() ==> printable(#[trigger] scan_runs(bytes).0[i]),
        forall|i: int| 0 <= i < scan_runs(bytes).1.len() ==> printable(#[trigger] scan_runs(bytes).1[i]),
    decreases bytes.len(),
{
    if bytes.len() > 0 {
        lemma_runs_printable(bytes.drop_last());
        let p = scan_runs(bytes.drop_last());
        let b = bytes.last();
        if printable(b) {
            assert forall|i: int| 0 <= i < p.1.push(b).len() implies printable(
                #[trigger] p.1.push(b)[i],
            ) by {
                if i < p.1.len() {
                    assert(p.1.push(b)[i] == p.1[i]);
                }
            }
        }
    }
}

/// The current run is the end of the bytes scanned, and the best run lies
/// at the returned position of them.
proof fn lemma_runs_in_bytes(bytes: Seq<u8>) -> (p: int)
    ensures
        scan_runs(bytes).1.len() <= bytes.len(),
        scan_runs(bytes).1 == bytes.subrange(bytes.len() - scan_runs(bytes).1.len(), bytes.len() as int),
        0 <= p,
        p + scan_runs(bytes).0.len() <= bytes.len(),
        bytes.subrange(p, p + scan_runs(bytes).0.len()) == scan_runs(bytes).0,
    decreases bytes.len(),
{
    if bytes.len() == 0 {
        assert(bytes.subrange(0, 0) =~= Seq::<u8>::empty());
        0
    } else {
        let init = bytes.drop_last();
        let q = lemma_runs_in_bytes(init);
        let (best, cur) = scan_runs(init);
        let b = bytes.last();
        let n = bytes.len() as int;
        assert(bytes.subrange(q, q + best.len()) =~= init.subrange(q, q + best.len()));
        if printable(b) {
            assert(cur.push(b) =~= bytes.subrange(n - cur.len() - 1, n)) by {
                assert(cur =~= init.subrange(init.len() - cur.len(), init.len() as int));
            }
            q
        } else if cur.len() > best.len() && !format_name(cur) {
            assert(bytes.subrange(n, n) =~= Seq::<u8>::empty());
            let p = init.len() - cur.len();
            assert(bytes.subrange(p, p + cur.len()) =~= init.subrange(p, p + cur.len()));
            p
        } else {
            assert(bytes.subrange(n, n) =~= Seq::<u8>::empty());
            q
        }
    }
}

/// Without a printable byte there is no run.
proof fn lemma_no_printable_no_runs(bytes: Seq<u8>)
    requires
        forall|i: int| 0 <= i < bytes.len() ==> !printable(#[trigger] bytes[i]),
    ensures
        scan_runs(bytes).0.len() == 0,
        scan_runs(bytes).1.len() == 0,
    decreases bytes.len(),
{
    if bytes.len() > 0 {
        let init = bytes.drop_last();
        assert forall|i: int| 0 <= i < init.len() implies !printable(#[trigger] init[i]) by {
            assert(init[i] == bytes[i]);
        }
        lemma_no_printable_no_runs(init);
        assert(!printable(bytes[bytes.len() - 1]));
    }
}

/// Stripping leading `c` leaves a suffix that does not start with `c`.
proof fn lemma_strip_leading(s: Seq<u8>, c: u8)
    ensures
        strip_leading(s, c).len() <= s.len(),
        strip_leading(s, c) == s.subrange(s.len() - strip_leading(s, c).len(), s.len() as int),
        strip_leading(s, c).len() > 0 ==> strip_leading(s, c)[0] != c,
    decreases s.len(),
{
    if s.len() > 0 && s[0] == c {
        lemma_strip_leading(s.drop_first(), c);
        let t = strip_leading(s.drop_first(), c);
        assert(s.subrange(s.len() - t.len(), s.len() as int) =~= s.drop_first().subrange(
            s.drop_first().len() - t.len(),
            s.drop_first().len() as int,
        ));
    } else {
        assert(s.subrange(0, s.len() as int) =~= s);
    }
}

/// Stripping trailing `c` leaves a prefix that does not end with `c`.
proof fn lemma_strip_trailing(s: Seq<u8>, c: u8)
    ensures
        strip_trailing(s, c).len() <= s.len(),
        strip_trailing(s, c) == s.subrange(0, strip_trailing(s, c).len() as int),
        strip_trailing(s, c).len() > 0 ==> strip_trailing(s, c).last() != c,
    decreases s.len(),
{
    if s.len() > 0 && s.last() == c {
        lemma_strip_trailing(s.drop_last(), c);
        let t = strip_trailing(s.drop_last(), c);
        assert(s.subrange(0, t.len() as int) =~= s.drop_last().subrange(0, t.len() as int));
    } else {
        assert(s.subrange(0, s.len() as int) =~= s);
    }
}

/// The recovered text is printable ASCII, neither starts nor ends with a
/// space, is a contiguous part of the input, and is empty when the input
/// has no printable byte.
pub proof fn lemma_text_fallback_shape(bytes: Seq<u8>)
    ensures
        forall|i: int| 0 <= i < text_fallback(bytes).len() ==> printable(#[trigger] text_fallback(bytes)[i]),
        text_fallback(bytes).len() > 0 ==> text_fallback(bytes)[0] != 32u8 && text_fallback(bytes).last()
            != 32u8,
        exists|i: int|
            0 <= i && i + text_fallback(bytes).len() <= bytes.len() && #[trigger] bytes.subrange(
                i,
                i + text_fallback(bytes).len(),
            ) == text_fallback(bytes),
        (forall|i: int| 0 <= i < bytes.len() ==> !printable(#[trigger] bytes[i])) ==> text_fallback(
            bytes,
        ).len() == 0,
{
    let (best, cur) = scan_runs(bytes);
    let p = lemma_runs_in_bytes(bytes);
    lemma_runs_printable(bytes);
    let run = longest_run(bytes);
    // Where the run lies in the bytes.
    let r: int = if cur.len() > best.len() {
        bytes.len() - cur.len()
    } else {
        p
    };
    assert(bytes.subrange(r, r + run.len()) == run);
    assert(forall|i: int| 0 <= i < run.len() ==> printable(#[trigger] run[i]));
    let unsigned = if run.len() > 2 {
        strip_leading(run, 43u8)
    } else {
        run
    };
    lemma_strip_leading(run, 43u8);
    let a: int = run.len() - unsigned.len();
    assert(unsigned == run.subrange(a, run.len() as int)) by {
        if run.len() <= 2 {
            assert(run.subrange(0, run.len() as int) =~= run);
        }
    }
    let lead = strip_leading(unsigned, 32u8);
    lemma_strip_leading(unsigned, 32u8);
    let b: int = unsigned.len() - lead.len();
    let t = strip_trailing(lead, 32u8);
    lemma_strip_trailing(lead, 32u8);
    assert(t == text_fallback(bytes));
    let start = r + a + b;
    assert(bytes.subrange(start, start + t.len()) =~= t) by {
        assert forall|k: int| 0 <= k < t.len() implies bytes.subrange(start, start + t.len())[k] == t[k] by {
            assert(t[k] == lead[k]);
            assert(lead[k] == unsigned[b + k]);
            assert(unsigned[b + k] == run[a + b + k]);
            assert(run[a + b + k] == bytes.subrange(r, r + run.len())[a + b + k]);
        }
    }
    assert forall|k: int| 0 <= k < t.len() implies printable(#[trigger] t[k]) by {
        assert(t[k] == run[a + b + k]);
    }
    if t.len() > 0 {
        assert(t[0] == lead[0]);
    }
    if forall|i: int| 0 <= i < bytes.len() ==> !printable(#[trigger] bytes[i]) {
        lemma_no_printable_no_runs(bytes);
        assert(run.len() == 0);
    }
}

/// Whether `run` is a format name.
fn is_format_name(run: &Vec<u8>) -> (r: bool)
    ensures
        r == format_name(run@),
{
    let n = run.len();
    if n >= 2 && run[0] == 78u8 && run[1] == 83u8 {
        return true;
    }
    if n >= 3 && run[0] == 95u8 && run[1] == 95u8 && run[2] == 107u8 {
        return true;
    }
    let st: Vec<u8> = vec![115u8, 116u8, 114u8, 101u8, 97u8, 109u8, 116u8, 121u8, 112u8, 101u8, 100u8];
    if n != st.len() {
        assert(st@.len() == 11);
        return false;
    }
    let mut i: usize = 0;
    while i < n
        invariant
            i <= n,
            n == run@.len(),
            n == st@.len(),
            st@ == seq![115u8, 116u8, 114u8, 101u8, 97u8, 109u8, 116u8, 121u8, 112u8, 101u8, 100u8],
            !(n >= 2 && run@[0] == 78u8 && run@[1] == 83u8),
            !(n >= 3 && run@[0] == 95u8 && run@[1] == 95u8 && run@[2] == 107u8),
            forall|k: int| 0 <= k < i ==> run@[k] == st@[k],
        decreases n - i,
    {
        if run[i] != st[i] {
            assert(run@[i as int] != st@[i as int]);
            assert(run@ != st@);
            return false;
        }
        i = i + 1;
    }
    assert(run@ =~= st@);
    true
}

/// Extract the likely message text from an archived attributed string.
pub fn extract_text_fallback(attributed_body: &[u8]) -> (s: String)
    ensures
        s@ == text_fallback(attributed_body@).map_values(|b: u8| b as char),
{
    let mut best: Vec<u8> = Vec::new();
    let mut cur: Vec<u8> = Vec::new();
    let mut i: usize = 0;
    while i < attributed_body.len()
        invariant
            i <= attributed_body@.len(),
            (best@, cur@) == scan_runs(attributed_body@.take(i as int)),
        decreases attributed_body@.len() - i,
    {
        let b = attributed_body[i];
        proof {
            assert(attributed_body@.take(i + 1).drop_last() =~= attributed_body@.take(i as int));
        }
        if 32 <= b && b < 127 {
            cur.push(b);
        } else {
            if cur.len() > best.len() && !is_format_name(&cur) {
                best = cur;
            }
            cur = Vec::new();
        }
        i = i + 1;
    }
    assert(attributed_body@.take(attributed_body@.len() as int) =~= attributed_body@);
    proof {
        lemma_runs_printable(attributed_body@);
    }
    let ghost sr = scan_runs(attributed_body@);
    let run = if cur.len() > best.len() {
        cur
    } else {
        best
    };
    assert(run@ == longest_run(attributed_body@));
    assert(forall|q: int| 0 <= q < run@.len() ==> printable(#[trigger] run@[q])) by {
        assert(run@ == sr.0 || run@ == sr.1);
    }
    assert(run@.skip(0) =~= run@);
    let n = run.len();
    let mut lo: usize = 0;
    if n > 2 {
        while lo < n && run[lo] == 43u8
            invariant
                lo <= n,
                n == run@.len(),
                strip_leading(run@.skip(lo as int), 43u8) == strip_leading(run@, 43u8),
            decreases n - lo,
        {
            assert(run@.skip(lo as int).drop_first() =~= run@.skip(lo + 1));
            lo = lo + 1;
        }
        assert(strip_leading(run@.skip(lo as int), 43u8) == run@.skip(lo as int));
    } else {
        assert(run@.skip(0) =~= run@);
    }
    let ghost unsigned = run@.skip(lo as int);
    while lo < n && run[lo] == 32u8
        invariant
            lo <= n,
            n == run@.len(),
            strip_leading(run@.skip(lo as int), 32u8) == strip_leading(unsigned, 32u8),
        decreases n - lo,
    {
        assert(run@.skip(lo as int).drop_first() =~= run@.skip(lo + 1));
        lo = lo + 1;
    }
    assert(strip_leading(run@.skip(lo as int), 32u8) == run@.skip(lo as int));
    let mut hi: usize = n;
    while hi > lo && run[hi - 1] == 32u8
        invariant
            lo <= hi <= n,
            n == run@.len(),
            strip_trailing(run@.subrange(lo as int, hi as int), 32u8) == strip_trailing(
                run@.skip(lo as int),
                32u8,
            ),
        decreases hi,
    {
        assert(run@.subrange(lo as int, hi as int).drop_last() =~= run@.subrange(
            lo as int,
            hi - 1,
        ));
        hi = hi - 1;
    }
    assert(run@.subrange(lo as int, n as int) =~= run@.skip(lo as int));
    assert(strip_trailing(run@.subrange(lo as int, hi as int), 32u8) == run@.subrange(
        lo as int,
        hi as int,
    ));
    let mut out: Vec<u8> = Vec::new();
    let mut k: usize = lo;
    while k < hi
        invariant
            lo <= k <= hi <= n,
            n == run@.len(),
            out@ == run@.subrange(lo as int, k as int),
            forall|q: int| 0 <= q < n ==> printable(#[trigger] run@[q]),
        decreases hi - k,
    {
        out.push(run[k]);
        assert(out@ =~= run@.subrange(lo as int, k + 1));
        k = k + 1;
    }
    ascii_string(out)
}

/// Seconds from the Unix epoch to 2001-01-01, where Cocoa time starts.
pub const COCOA_EPOCH_OFFSET: i64 = 978307200;

/// The RFC 3339 text of a UTC time given as seconds and nanoseconds from
/// the Unix epoch, as `chrono` writes it; `None` when `chrono` has no such
/// time.
pub uninterp spec fn utc_rfc3339(secs: i64, nanos: u32) -> Option<Seq<char>>;

/// The RFC 3339 text of a UTC time.
///
/// Calls `chrono::DateTime::<Utc>::from_timestamp` and writes the result
/// with `to_rfc3339`. The text is named, not spelled out; `None` stands for
/// the times that `chrono` refuses.
#[verifier::external_body]
fn rfc3339_from_timestamp(secs: i64, nanos: u32) -> (r: Option<String>)
    ensures
        match r {
            Some(s) => utc_rfc3339(secs, nanos) == Some(s@),
            None => utc_rfc3339(secs, nanos) is None,
        },
{
    chrono::DateTime::<chrono::Utc>::from_timestamp(secs, nanos).map(|dt| dt.to_rfc3339())
}

/// Division rounding toward zero.
pub open spec fn div_toward_zero(a: int, b: int) -> int {
    if a >= 0 {
        a / b
    } else {
        -((-a) / b)
    }
}

/// The Unix time of a Cocoa timestamp (nanoseconds since 2001): whole
/// seconds shifted to the Unix epoch, and the remaining nanoseconds (the
/// remainder of a division toward zero, taken modulo 2^32).
pub open spec fn cocoa_unix(timestamp: i64) -> (i64, u32) {
    let q = div_toward_zero(timestamp as int, 1_000_000_000);
    ((COCOA_EPOCH_OFFSET + q) as i64, (timestamp - 1_000_000_000 * q) as u32)
}

/// The Unix seconds and nanoseconds of a Cocoa timestamp.
pub fn cocoa_unix_time(timestamp: i64) -> (r: (i64, u32))
    ensures
        r == cocoa_unix(timestamp),
{
    let seconds_since_2001 = timestamp / 1_000_000_000;
    let rem = timestamp % 1_000_000_000;
    assert(seconds_since_2001 == div_toward_zero(timestamp as int, 1_000_000_000));
    assert(rem == timestamp - 1_000_000_000 * seconds_since_2001);
    (COCOA_EPOCH_OFFSET + seconds_since_2001, #[verifier::truncate] (rem as u32))
}

/// The date of a Cocoa timestamp as RFC 3339 text; empty for timestamp 0
/// and for times that `chrono` refuses.
pub fn cocoa_timestamp_to_datetime(timestamp: i64) -> (s: String)
    ensures
        timestamp == 0 ==> s@ == Seq::<char>::empty(),
        timestamp != 0 ==> s@ == (match utc_rfc3339(cocoa_unix(timestamp).0, cocoa_unix(timestamp).1) {
            Some(t) => t,
            None => Seq::<char>::empty(),
        }),
{
    if timestamp == 0 {
        return String::new();
    }
    let (secs, nanos) = cocoa_unix_time(timestamp);
    match rfc3339_from_timestamp(secs, nanos) {
        Some(text) => text,
        None => String::new(),
    }
}

} // verus!
