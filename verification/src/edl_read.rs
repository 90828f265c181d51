//! Reading an edit decision list: the lexical layer (lines, words,
//! timecodes) and the import that builds a sequence from the event lines.

use vstd::prelude::*;
use vstd::string::{StrSliceExecFns, StringExecFns};
use crate::media::{
    all_digits, digits_value, is_ws, char_is_ws, parse_u32, trimmed, trim_start, lemma_digits_prefix_le,
    lemma_trim_start, lemma_trim_end,
};
use crate::crash::{starts_with, chars_match_at};
use crate::exchange::{
    AssetInfo, AssetKind, is_v4_uid, ExportConfig, ExportError, Fps, ItemKind, Sequence, SequenceItem,
    SequenceTrack, TimecodeFormat,
};
use crate::text::{chars_of, lowercase, to_lower};

verus! {

// ---------------------------------------------------------------------------
// Numbers
// ---------------------------------------------------------------------------

/// The value of the decimal digits `d` when there is at least one, all are
/// digits and the value is at most `limit`.
pub open spec fn bounded_digits(d: Seq<char>, limit: int) -> Option<int> {
    if d.len() > 0 && all_digits(d) && digits_value(d) <= limit {
        Some(digits_value(d))
    } else {
        None
    }
}

/// `i64`'s `from_str`: an optional sign, then at least one decimal digit,
/// the value fitting in `i64`.
pub open spec fn parse_i64(s: Seq<char>) -> Option<i64> {
    if s.len() > 0 && s[0] == '-' {
        match bounded_digits(s.drop_first(), 0x8000_0000_0000_0000) {
            Some(v) => Some((-v) as i64),
            None => None,
        }
    } else {
        let d = if s.len() > 0 && s[0] == '+' {
            s.drop_first()
        } else {
            s
        };
        match bounded_digits(d, i64::MAX as int) {
            Some(v) => Some(v as i64),
            None => None,
        }
    }
}

/// The digits `v[lo..hi]` read with [`bounded_digits`].
pub(crate) fn digits_at(v: &Vec<char>, lo: usize, hi: usize, limit: u64) -> (r: Option<u64>)
    requires
        lo <= hi <= v@.len(),
        limit >= 9,
    ensures
        r is Some <==> bounded_digits(v@.subrange(lo as int, hi as int), limit as int) is Some,
        r matches Some(y) ==> y <= limit && y as int == digits_value(v@.subrange(lo as int, hi as int)),
{
    let ghost d = v@.subrange(lo as int, hi as int);
    if lo == hi {
        return None;
    }
    let mut val: u64 = 0;
    let mut i = lo;
    assert(d.subrange(0, 0) =~= Seq::<char>::empty());
    while i < hi
        invariant
            lo <= i <= hi <= v@.len(),
            lo < hi,
            limit >= 9,
            d == v@.subrange(lo as int, hi as int),
            val <= limit,
            val == digits_value(d.subrange(0, i - lo)),
            all_digits(d.subrange(0, i - lo)),
        decreases hi - i,
    {
        let c = v[i];
        let ghost k = i - lo;
        assert(d[k] == c);
        assert(d.subrange(0, k + 1).drop_last() =~= d.subrange(0, k));
        if c < '0' || c > '9' {
            assert(!all_digits(d));
            return None;
        }
        let digit = (c as u32 - '0' as u32) as u64;
        assert(all_digits(d.subrange(0, k + 1))) by {
            assert forall|j: int| 0 <= j < k + 1 implies '0' <= #[trigger] d.subrange(0, k + 1)[j] <= '9' by {
                if j < k {
                    assert(d.subrange(0, k + 1)[j] == d.subrange(0, k)[j]);
                }
            }
        }
        if val > (limit - digit) / 10 {
            proof {
                assert(val * 10 + digit > limit) by (nonlinear_arith)
                    requires
                        val > (limit - digit) / 10,
                        digit <= 9,
                        limit >= 9,
                ;
                if all_digits(d) {
                    lemma_digits_prefix_le(d, k + 1);
                }
            }
            return None;
        }
        proof {
            assert(val * 10 + digit <= limit) by (nonlinear_arith)
                requires
                    val <= (limit - digit) / 10,
                    digit <= 9,
                    limit >= 9,
            ;
        }
        val = val * 10 + digit;
        i = i + 1;
    }
    assert(d.subrange(0, i - lo) =~= d);
    Some(val)
}

/// `i64`'s `from_str` on the characters `v[lo..hi]`.
pub(crate) fn i64_at(v: &Vec<char>, lo: usize, hi: usize) -> (r: Option<i64>)
    requires
        lo <= hi <= v@.len(),
    ensures
        r == parse_i64(v@.subrange(lo as int, hi as int)),
{
    let ghost s = v@.subrange(lo as int, hi as int);
    if lo < hi && v[lo] == '-' {
        assert(s.drop_first() =~= v@.subrange(lo + 1, hi as int));
        match digits_at(v, lo + 1, hi, 0x8000_0000_0000_0000) {
            Some(x) => {
                if x == 0x8000_0000_0000_0000 {
                    Some(i64::MIN)
                } else {
                    Some(-(x as i64))
                }
            },
            None => None,
        }
    } else {
        let start = if lo < hi && v[lo] == '+' {
            lo + 1
        } else {
            lo
        };
        assert(v@.subrange(start as int, hi as int) =~= (if s.len() > 0 && s[0] == '+' {
            s.drop_first()
        } else {
            s
        }));
        match digits_at(v, start, hi, 0x7fff_ffff_ffff_ffff) {
            Some(x) => Some(x as i64),
            None => None,
        }
    }
}

// ---------------------------------------------------------------------------
// Timecodes
// ---------------------------------------------------------------------------

/// The separators of timecode fields.
pub open spec fn is_tc_sep(c: char) -> bool {
    c == ':' || c == ';'
}

/// The number of characters before the first separator (the whole length
/// when there is none).
pub open spec fn field_len(s: Seq<char>) -> nat
    decreases s.len(),
{
    if s.len() == 0 || is_tc_sep(s[0]) {
        0
    } else {
        1 + field_len(s.drop_first())
    }
}

/// The fields of a timecode, as `str::split` on ':' and ';' gives them
/// (empty ones included).
pub open spec fn tc_fields(s: Seq<char>) -> Seq<Seq<char>>
    decreases s.len(),
{
    let k = field_len(s);
    if k < s.len() {
        seq![s.take(k as int)] + tc_fields(s.skip((k + 1) as int))
    } else {
        seq![s]
    }
}

/// The frame count of a timecode at 30 frames per second: a signed frame
/// count for `Frames`, else `hh:mm:ss:ff` (either separator) counted as
/// whole seconds times 30 plus the frames.
pub open spec fn tc_frames(tc: Seq<char>, fmt: crate::exchange::TimecodeFormat) -> Option<int> {
    match fmt {
        crate::exchange::TimecodeFormat::Frames => match parse_i64(tc) {
            Some(v) => Some(v as int),
            None => None,
        },
        _ => match tc_parts(tc) {
            Some((h, m, sec, fr)) => Some((h * 3600 + m * 60 + sec) * 30 + fr),
            None => None,
        },
    }
}

/// Hours, minutes, seconds and frames of an `hh:mm:ss:ff` timecode (either
/// separator): exactly four fields, each a `u32`.
pub open spec fn tc_parts(tc: Seq<char>) -> Option<(u32, u32, u32, u32)> {
    let f = tc_fields(tc);
    if f.len() == 4 {
        match (parse_u32(f[0]), parse_u32(f[1]), parse_u32(f[2]), parse_u32(f[3])) {
            (Some(h), Some(m), Some(sec), Some(fr)) => Some((h, m, sec, fr)),
            _ => None,
        }
    } else {
        None
    }
}

proof fn lemma_field_len(s: Seq<char>, k: int)
    requires
        0 <= k <= s.len(),
        forall|j: int| 0 <= j < k ==> !is_tc_sep(s[j]),
        k < s.len() ==> is_tc_sep(s[k]),
    ensures
        field_len(s) == k,
    decreases k,
{
    if k > 0 {
        let t = s.drop_first();
        assert forall|j: int| 0 <= j < k - 1 implies !is_tc_sep(t[j]) by {
            assert(t[j] == s[j + 1]);
        }
        if k - 1 < t.len() {
            assert(t[k - 1] == s[k]);
        }
        lemma_field_len(t, k - 1);
    }
}

/// The first separator at or after `from` in `v[..hi]`, or `hi`.
fn next_sep(v: &Vec<char>, from: usize, hi: usize) -> (p: usize)
    requires
        from <= hi <= v@.len(),
    ensures
        from <= p <= hi,
        forall|j: int| from <= j < p ==> !is_tc_sep(v@[j]),
        p < hi ==> is_tc_sep(v@[p as int]),
{
    let mut p = from;
    while p < hi && v[p] != ':' && v[p] != ';'
        invariant
            from <= p <= hi <= v@.len(),
            forall|j: int| from <= j < p ==> !is_tc_sep(v@[j]),
        decreases hi - p,
    {
        p = p + 1;
    }
    p
}

/// The field starting at `from` in `v[..hi]` and what follows it.
proof fn lemma_fields_at(v: Seq<char>, from: int, p: int, hi: int)
    requires
        0 <= from <= p <= hi <= v.len(),
        forall|j: int| from <= j < p ==> !is_tc_sep(v[j]),
        p < hi ==> is_tc_sep(v[p]),
    ensures
        p < hi ==> tc_fields(v.subrange(from, hi)) == seq![v.subrange(from, p)] + tc_fields(
            v.subrange(p + 1, hi),
        ),
        p == hi ==> tc_fields(v.subrange(from, hi)) == seq![v.subrange(from, hi)],
{
    let s = v.subrange(from, hi);
    assert forall|j: int| 0 <= j < p - from implies !is_tc_sep(s[j]) by {
        assert(s[j] == v[from + j]);
    }
    if p < hi {
        assert(s[p - from] == v[p]);
    }
    lemma_field_len(s, p - from);
    if p < hi {
        assert(s.take(p - from) =~= v.subrange(from, p));
        assert(s.skip(p - from + 1) =~= v.subrange(p + 1, hi));
    }
}

/// The frame count of the timecode `v[lo..hi]` at 30 frames per second
/// (see [`tc_frames`]).
pub(crate) fn frames_at(v: &Vec<char>, lo: usize, hi: usize, fmt: crate::exchange::TimecodeFormat) -> (r: Option<i64>)
    requires
        lo <= hi <= v@.len(),
    ensures
        match tc_frames(v@.subrange(lo as int, hi as int), fmt) {
            Some(x) => r == Some(x as i64) && i64::MIN <= x <= i64::MAX,
            None => r is None,
        },
{
    match fmt {
        crate::exchange::TimecodeFormat::Frames => {
            return i64_at(v, lo, hi);
        },
        _ => {},
    }
    match parts_at(v, lo, hi) {
        Some((h, m, sec, fr)) => {
            let total: u64 = (h as u64) * 3600 + (m as u64) * 60 + (sec as u64);
            assert(total * 30 + fr <= i64::MAX) by (nonlinear_arith)
                requires
                    total == (h as u64) * 3600 + (m as u64) * 60 + (sec as u64),
                    h <= u32::MAX,
                    m <= u32::MAX,
                    sec <= u32::MAX,
                    fr <= u32::MAX,
            ;
            Some((total * 30 + fr as u64) as i64)
        },
        None => None,
    }
}

/// The fields of the timecode `v[lo..hi]` (see [`tc_parts`]).
pub(crate) fn parts_at(v: &Vec<char>, lo: usize, hi: usize) -> (r: Option<(u32, u32, u32, u32)>)
    requires
        lo <= hi <= v@.len(),
    ensures
        r == tc_parts(v@.subrange(lo as int, hi as int)),
{
    let ghost s = v@.subrange(lo as int, hi as int);
    let p1 = next_sep(v, lo, hi);
    proof {
        lemma_fields_at(v@, lo as int, p1 as int, hi as int);
    }
    if p1 == hi {
        assert(tc_fields(s).len() == 1);
        return None;
    }
    let p2 = next_sep(v, p1 + 1, hi);
    proof {
        lemma_fields_at(v@, p1 + 1, p2 as int, hi as int);
    }
    if p2 == hi {
        assert(tc_fields(s).len() == 2);
        return None;
    }
    let p3 = next_sep(v, p2 + 1, hi);
    proof {
        lemma_fields_at(v@, p2 + 1, p3 as int, hi as int);
    }
    if p3 == hi {
        assert(tc_fields(s).len() == 3);
        return None;
    }
    let p4 = next_sep(v, p3 + 1, hi);
    proof {
        lemma_fields_at(v@, p3 + 1, p4 as int, hi as int);
    }
    if p4 < hi {
        proof {
            let rest = tc_fields(v@.subrange(p4 + 1, hi as int));
            assert(rest.len() >= 1) by {
                reveal_with_fuel(tc_fields, 1);
            }
            assert(tc_fields(s).len() >= 5);
        }
        return None;
    }
    let ghost f = tc_fields(s);
    assert(f.len() == 4);
    assert(f[0] == v@.subrange(lo as int, p1 as int));
    assert(f[1] == v@.subrange(p1 + 1, p2 as int));
    assert(f[2] == v@.subrange(p2 + 1, p3 as int));
    assert(f[3] == v@.subrange(p3 + 1, hi as int));
    let h = digits_field(v, lo, p1);
    let m = digits_field(v, p1 + 1, p2);
    let sec = digits_field(v, p2 + 1, p3);
    let fr = digits_field(v, p3 + 1, hi);
    match (h, m, sec, fr) {
        (Some(h), Some(m), Some(sec), Some(fr)) => Some((h, m, sec, fr)),
        _ => None,
    }
}

/// The fields of an `hh:mm:ss:ff` timecode (see [`tc_parts`]).
pub fn timecode_fields(tc: &str) -> (r: Option<(u32, u32, u32, u32)>)
    ensures
        r == tc_parts(tc@),
{
    let v = chars_of(tc);
    assert(v@.subrange(0, v@.len() as int) =~= tc@);
    parts_at(&v, 0, v.len())
}

/// A frame count written as a signed whole number (see [`parse_i64`]).
pub fn frame_count(tc: &str) -> (r: Option<i64>)
    ensures
        r == parse_i64(tc@),
{
    let v = chars_of(tc);
    assert(v@.subrange(0, v@.len() as int) =~= tc@);
    i64_at(&v, 0, v.len())
}

/// `u32`'s `from_str` on the characters `v[lo..hi]`.
fn digits_field(v: &Vec<char>, lo: usize, hi: usize) -> (r: Option<u32>)
    requires
        lo <= hi <= v@.len(),
    ensures
        r == parse_u32(v@.subrange(lo as int, hi as int)),
{
    let ghost s = v@.subrange(lo as int, hi as int);
    let start = if lo < hi && v[lo] == '+' {
        lo + 1
    } else {
        lo
    };
    assert(v@.subrange(start as int, hi as int) =~= (if s.len() > 0 && s[0] == '+' {
        s.drop_first()
    } else {
        s
    }));
    match digits_at(v, start, hi, 0xffff_ffff) {
        Some(x) => Some(x as u32),
        None => None,
    }
}

// ---------------------------------------------------------------------------
// Words and lines
// ---------------------------------------------------------------------------

/// The length of the run of non-white-space characters `s` starts with.
pub open spec fn word_len(s: Seq<char>) -> nat
    decreases s.len(),
{
    if s.len() == 0 || is_ws(s[0]) {
        0
    } else {
        1 + word_len(s.drop_first())
    }
}

pub proof fn lemma_word_len_bound(s: Seq<char>)
    ensures
        word_len(s) <= s.len(),
        s.len() > 0 && !is_ws(s[0]) ==> word_len(s) >= 1,
    decreases s.len(),
{
    if s.len() > 0 && !is_ws(s[0]) {
        lemma_word_len_bound(s.drop_first());
    }
}

/// The words of `s`, as `str::split_whitespace` gives them.
pub open spec fn words(s: Seq<char>) -> Seq<Seq<char>>
    decreases s.len(),
{
    if s.len() == 0 {
        Seq::empty()
    } else if is_ws(s[0]) {
        words(s.drop_first())
    } else {
        proof {
            lemma_word_len_bound(s);
        }
        seq![s.take(word_len(s) as int)] + words(s.skip(word_len(s) as int))
    }
}

/// The texts of `spans` in `v`.
pub open spec fn span_texts(v: Seq<char>, spans: Seq<(usize, usize)>) -> Seq<Seq<char>> {
    spans.map_values(|sp: (usize, usize)| v.subrange(sp.0 as int, sp.1 as int))
}

proof fn lemma_word_len(s: Seq<char>, k: int)
    requires
        0 <= k <= s.len(),
        forall|j: int| 0 <= j < k ==> !is_ws(s[j]),
        k < s.len() ==> is_ws(s[k]),
    ensures
        word_len(s) == k,
    decreases k,
{
    if k > 0 {
        let t = s.drop_first();
        assert forall|j: int| 0 <= j < k - 1 implies !is_ws(t[j]) by {
            assert(t[j] == s[j + 1]);
        }
        if k - 1 < t.len() {
            assert(t[k - 1] == s[k]);
        }
        lemma_word_len(t, k - 1);
    }
}

/// The spans of the words of `v[a..b]`.
pub(crate) fn word_spans(v: &Vec<char>, a: usize, b: usize) -> (r: Vec<(usize, usize)>)
    requires
        a <= b <= v@.len(),
    ensures
        span_texts(v@, r@) == words(v@.subrange(a as int, b as int)),
        forall|k: int| 0 <= k < r@.len() ==> a <= (#[trigger] r@[k]).0 < r@[k].1 <= b,
{
    let mut r: Vec<(usize, usize)> = Vec::new();
    let mut i = a;
    while i < b
        invariant
            a <= i <= b <= v@.len(),
            words(v@.subrange(a as int, b as int)) == span_texts(v@, r@) + words(v@.subrange(i as int, b as int)),
            forall|k: int| 0 <= k < r@.len() ==> a <= (#[trigger] r@[k]).0 < r@[k].1 <= b,
        decreases b - i,
    {
        let ghost s = v@.subrange(i as int, b as int);
        assert(s[0] == v@[i as int]);
        if char_is_ws(v[i]) {
            assert(s.drop_first() =~= v@.subrange(i + 1, b as int));
            i = i + 1;
        } else {
            let mut j = i + 1;
            while j < b && !char_is_ws(v[j])
                invariant
                    i < j <= b <= v@.len(),
                    forall|q: int| i <= q < j ==> !is_ws(v@[q]),
                decreases b - j,
            {
                j = j + 1;
            }
            proof {
                assert forall|q: int| 0 <= q < j - i implies !is_ws(s[q]) by {
                    assert(s[q] == v@[i + q]);
                }
                if j < b {
                    assert(s[j - i] == v@[j as int]);
                }
                lemma_word_len(s, j - i);
                assert(s.take(j - i) =~= v@.subrange(i as int, j as int));
                assert(s.skip(j - i) =~= v@.subrange(j as int, b as int));
            }
            let ghost before = span_texts(v@, r@);
            r.push((i, j));
            assert(span_texts(v@, r@) =~= before.push(v@.subrange(i as int, j as int)));
            i = j;
        }
    }
    assert(v@.subrange(b as int, b as int) =~= Seq::<char>::empty());
    r
}

/// The bounds of `v[lo..hi]` without its leading and trailing white space.
fn trim_range(v: &Vec<char>, lo: usize, hi: usize) -> (r: (usize, usize))
    requires
        lo <= hi <= v@.len(),
    ensures
        lo <= r.0 <= r.1 <= hi,
        v@.subrange(r.0 as int, r.1 as int) == trimmed(v@.subrange(lo as int, hi as int)),
{
    let ghost s = v@.subrange(lo as int, hi as int);
    let mut a = lo;
    while a < hi && char_is_ws(v[a])
        invariant
            lo <= a <= hi <= v@.len(),
            forall|j: int| lo <= j < a ==> is_ws(v@[j]),
        decreases hi - a,
    {
        a = a + 1;
    }
    let mut b = hi;
    while b > a && char_is_ws(v[b - 1])
        invariant
            lo <= a <= b <= hi <= v@.len(),
            forall|j: int| b <= j < hi ==> is_ws(v@[j]),
        decreases b,
    {
        b = b - 1;
    }
    proof {
        let k = a - lo;
        assert forall|j: int| 0 <= j < k implies is_ws(s[j]) by {
            assert(s[j] == v@[lo + j]);
        }
        if k < s.len() {
            assert(s[k] == v@[a as int]);
        }
        lemma_trim_start(s, k);
        let u = s.subrange(k, s.len() as int);
        assert(u =~= v@.subrange(a as int, hi as int));
        assert forall|j: int| b - a <= j < u.len() implies is_ws(u[j]) by {
            assert(u[j] == v@[a + j]);
        }
        if b > a {
            assert(u[b - a - 1] == v@[b - 1]);
        }
        if b == a && a < hi {
            assert(!is_ws(v@[a as int]));
        }
        lemma_trim_end(u, b - a);
        assert(u.subrange(0, b - a) =~= v@.subrange(a as int, b as int));
    }
    (a, b)
}

// ---------------------------------------------------------------------------
// Event lines
// ---------------------------------------------------------------------------

/// A line (already trimmed) that describes an event: not blank, not a
/// header line, with at least eight words.
pub open spec fn is_event_line(t: Seq<char>) -> bool {
    &&& t.len() > 0
    &&& !starts_with(t, "TITLE:"@)
    &&& !starts_with(t, "FCM:"@)
    &&& words(t).len() >= 8
}

/// The words of a line when it describes an event.
pub open spec fn line_rows(line: Seq<char>) -> Seq<Seq<Seq<char>>> {
    let t = trimmed(line);
    if is_event_line(t) {
        seq![words(t)]
    } else {
        Seq::empty()
    }
}

/// The number of characters before the first line feed (the whole length
/// when there is none).
pub open spec fn line_len(s: Seq<char>) -> nat
    decreases s.len(),
{
    if s.len() == 0 || s[0] == '\n' {
        0
    } else {
        1 + line_len(s.drop_first())
    }
}

proof fn lemma_line_len(s: Seq<char>, k: int)
    requires
        0 <= k <= s.len(),
        forall|j: int| 0 <= j < k ==> s[j] != '\n',
        k < s.len() ==> s[k] == '\n',
    ensures
        line_len(s) == k,
    decreases k,
{
    if k > 0 {
        let t = s.drop_first();
        assert forall|j: int| 0 <= j < k - 1 implies t[j] != '\n' by {
            assert(t[j] == s[j + 1]);
        }
        if k - 1 < t.len() {
            assert(t[k - 1] == s[k]);
        }
        lemma_line_len(t, k - 1);
    }
}

/// The event rows of a list: the words of each event line, lines split at
/// line feeds.  (A carriage return before a line feed is white space, so
/// trimming removes it as `str::lines` does.)
pub open spec fn edl_rows(s: Seq<char>) -> Seq<Seq<Seq<char>>>
    decreases s.len(),
{
    if s.len() == 0 {
        Seq::empty()
    } else {
        let k = line_len(s);
        if k < s.len() {
            line_rows(s.take(k as int)) + edl_rows(s.skip((k + 1) as int))
        } else {
            line_rows(s)
        }
    }
}

/// The spans of the words of the line `v[lo..hi]` when it is an event line.
fn event_words(v: &Vec<char>, lo: usize, hi: usize) -> (r: Option<Vec<(usize, usize)>>)
    requires
        lo <= hi <= v@.len(),
    ensures
        r is Some <==> is_event_line(trimmed(v@.subrange(lo as int, hi as int))),
        r matches Some(sp) ==> span_texts(v@, sp@) == words(trimmed(v@.subrange(lo as int, hi as int)))
            && forall|k: int| 0 <= k < sp@.len() ==> lo <= (#[trigger] sp@[k]).0 < sp@[k].1 <= hi,
{
    let (a, b) = trim_range(v, lo, hi);
    let ghost t = v@.subrange(a as int, b as int);
    if a == b {
        return None;
    }
    let title = chars_of("TITLE:");
    let fcm = chars_of("FCM:");
    proof {
        reveal_strlit("TITLE:");
        reveal_strlit("FCM:");
    }
    if b - a >= 6 && chars_match_at(v, a, &title) {
        assert(t.subrange(0, 6) =~= v@.subrange(a as int, a + 6));
        return None;
    }
    if b - a >= 4 && chars_match_at(v, a, &fcm) {
        assert(t.subrange(0, 4) =~= v@.subrange(a as int, a + 4));
        return None;
    }
    proof {
        if b - a >= 6 {
            assert(t.subrange(0, 6) =~= v@.subrange(a as int, a + 6));
        }
        if b - a >= 4 {
            assert(t.subrange(0, 4) =~= v@.subrange(a as int, a + 4));
        }
    }
    let spans = word_spans(v, a, b);
    if spans.len() < 8 {
        return None;
    }
    Some(spans)
}

// ---------------------------------------------------------------------------
// Import
// ---------------------------------------------------------------------------

/// The frame rate an imported list is read at.
pub open spec fn list_fps() -> Fps {
    Fps { num: 30, den: 1 }
}

/// `w` begins with the character `c`.
pub open spec fn begins(w: Seq<char>, c: char) -> bool {
    w.len() > 0 && w[0] == c
}

/// The media path of an event: its reel name in lower case, as a `.mov`.
pub open spec fn row_src(row: Seq<Seq<char>>) -> Seq<char> {
    lowercase(row[1]) + ".mov"@
}

/// The record-in frame of an event.
pub open spec fn row_in(row: Seq<Seq<char>>, fmt: TimecodeFormat) -> int {
    tc_frames(row[6], fmt)->0
}

/// The record-out frame of an event.
pub open spec fn row_out(row: Seq<Seq<char>>, fmt: TimecodeFormat) -> int {
    tc_frames(row[7], fmt)->0
}

/// The first record timecode that cannot be read, in reading order.
pub open spec fn first_bad(rows: Seq<Seq<Seq<char>>>, fmt: TimecodeFormat) -> Option<Seq<char>>
    decreases rows.len(),
{
    if rows.len() == 0 {
        None
    } else if tc_frames(rows[0][6], fmt) is None {
        Some(rows[0][6])
    } else if tc_frames(rows[0][7], fmt) is None {
        Some(rows[0][7])
    } else {
        first_bad(rows.drop_first(), fmt)
    }
}

/// The length of every event read before the first unreadable timecode
/// fits in `i64`.
pub open spec fn rows_fit(rows: Seq<Seq<Seq<char>>>, fmt: TimecodeFormat) -> bool
    decreases rows.len(),
{
    if rows.len() == 0 {
        true
    } else if tc_frames(rows[0][6], fmt) is Some && tc_frames(rows[0][7], fmt) is Some {
        &&& i64::MIN <= row_out(rows[0], fmt) - row_in(rows[0], fmt) <= i64::MAX
        &&& rows_fit(rows.drop_first(), fmt)
    } else {
        true
    }
}

/// The events on a video reel (`v`) or on the others (`!v`).
pub open spec fn rows_on(rows: Seq<Seq<Seq<char>>>, v: bool) -> Seq<Seq<Seq<char>>>
    decreases rows.len(),
{
    if rows.len() == 0 {
        Seq::empty()
    } else if begins(rows.last()[2], 'V') == v {
        rows_on(rows.drop_last(), v).push(rows.last())
    } else {
        rows_on(rows.drop_last(), v)
    }
}

/// The latest record-out frame (0 for no events).
pub open spec fn last_end(rows: Seq<Seq<Seq<char>>>, fmt: TimecodeFormat) -> int
    decreases rows.len(),
{
    if rows.len() == 0 {
        0
    } else if rows.len() == 1 {
        row_out(rows[0], fmt)
    } else {
        let m = last_end(rows.drop_last(), fmt);
        let e = row_out(rows.last(), fmt);
        if m >= e {
            m
        } else {
            e
        }
    }
}

/// The timeline item of an event, under a fresh random identifier.
pub open spec fn row_item(it: SequenceItem, row: Seq<Seq<char>>, fmt: TimecodeFormat) -> bool {
    &&& is_v4_uid(it.id@)
    &&& it.from == row_in(row, fmt)
    &&& it.duration_in_frames == row_out(row, fmt) - row_in(row, fmt)
    &&& if begins(row[2], 'V') {
        it.kind matches ItemKind::Video { src } && src@ == row_src(row)
    } else {
        it.kind matches ItemKind::Audio { src } && src@ == row_src(row)
    }
}

/// `items` are the items of the events `rows`.
pub open spec fn row_items(items: Seq<SequenceItem>, rows: Seq<Seq<Seq<char>>>, fmt: TimecodeFormat) -> bool {
    &&& items.len() == rows.len()
    &&& forall|k: int| 0 <= k < rows.len() ==> row_item(#[trigger] items[k], rows[k], fmt)
}

/// The asset record of an event: 1080p at 30 fps, stereo 48 kHz audio for
/// an "A" reel.
pub open spec fn row_info(info: AssetInfo, row: Seq<Seq<char>>, fmt: TimecodeFormat, config: ExportConfig) -> bool {
    let audio = begins(row[2], 'A');
    &&& is_v4_uid(info.id@)
    &&& info.path@ == row_src(row)
    &&& info.relative_path is None
    &&& info.kind == (if begins(row[2], 'V') {
        AssetKind::Video
    } else {
        AssetKind::Audio
    })
    &&& info.width == Some(1920u32)
    &&& info.height == Some(1080u32)
    &&& info.duration_frames == Some((row_out(row, fmt) - row_in(row, fmt)) as i64)
    &&& info.fps == Some(list_fps())
    &&& info.audio_channels == (if audio {
        Some(2u32)
    } else {
        None
    })
    &&& info.sample_rate == (if audio {
        Some(48000u32)
    } else {
        None
    })
    &&& info.timecode is None
    &&& info.color_space == Some(config.color_space)
    &&& info.file_size is None
    &&& info.hash is None
}

/// `s` and `infos` are what the events `rows` import as: an "Imported EDL"
/// 1080p30 sequence with a "V1" track of the video-reel events and an "A1"
/// track of the others (each only when not empty), as long as the latest
/// record-out, and one asset record per event.
pub open spec fn list_imported(
    s: Sequence,
    infos: Seq<AssetInfo>,
    rows: Seq<Seq<Seq<char>>>,
    fmt: TimecodeFormat,
    config: ExportConfig,
) -> bool {
    let v = rows_on(rows, true);
    let a = rows_on(rows, false);
    &&& s.name@ == "Imported EDL"@
    &&& s.width == 1920
    &&& s.height == 1080
    &&& s.fps == list_fps()
    &&& s.duration_in_frames == last_end(rows, fmt)
    &&& infos.len() == rows.len()
    &&& forall|k: int| 0 <= k < rows.len() ==> row_info(#[trigger] infos[k], rows[k], fmt, config)
    &&& s.tracks@.len() == (if v.len() > 0 { 1int } else { 0 }) + (if a.len() > 0 { 1int } else { 0 })
    &&& v.len() > 0 ==> s.tracks@[0].name@ == "V1"@ && row_items(s.tracks@[0].items@, v, fmt)
    &&& a.len() > 0 ==> s.tracks@.last().name@ == "A1"@ && row_items(s.tracks@.last().items@, a, fmt)
}

/// The text of the word `w` of `content`.
fn word_text(content: &str, v: &Vec<char>, w: (usize, usize)) -> (r: String)
    requires
        v@ == content@,
        w.0 <= w.1 <= v@.len(),
    ensures
        r@ == v@.subrange(w.0 as int, w.1 as int),
{
    String::from_str(content.substring_char(w.0, w.1))
}

/// The item and asset record of one event, or the record timecode that
/// cannot be read.
fn read_row(
    content: &str,
    v: &Vec<char>,
    spans: &Vec<(usize, usize)>,
    fmt: TimecodeFormat,
    config: &ExportConfig,
) -> (r: Result<(SequenceItem, AssetInfo), ExportError>)
    requires
        v@ == content@,
        spans@.len() >= 8,
        forall|k: int| 0 <= k < spans@.len() ==> (#[trigger] spans@[k]).0 < spans@[k].1 <= v@.len(),
        ({
            let row = span_texts(v@, spans@);
            tc_frames(row[6], fmt) is Some && tc_frames(row[7], fmt) is Some ==> i64::MIN <= row_out(row, fmt)
                - row_in(row, fmt) <= i64::MAX
        }),
    ensures
        ({
            let row = span_texts(v@, spans@);
            match r {
                Ok((it, info)) => tc_frames(row[6], fmt) is Some && tc_frames(row[7], fmt) is Some && row_item(
                    it,
                    row,
                    fmt,
                ) && row_info(info, row, fmt, *config),
                Err(e) => e matches ExportError::InvalidTimecode(m) && (if tc_frames(row[6], fmt) is None {
                    m@ == row[6]
                } else {
                    tc_frames(row[7], fmt) is None && m@ == row[7]
                }),
            }
        }),
{
    let ghost row = span_texts(v@, spans@);
    let w1 = spans[1];
    let w2 = spans[2];
    let w6 = spans[6];
    let w7 = spans[7];
    assert(row[6] == v@.subrange(w6.0 as int, w6.1 as int));
    assert(row[7] == v@.subrange(w7.0 as int, w7.1 as int));
    assert(row[1] == v@.subrange(w1.0 as int, w1.1 as int));
    assert(row[2] == v@.subrange(w2.0 as int, w2.1 as int));
    let from = match frames_at(v, w6.0, w6.1, fmt) {
        Some(f) => f,
        None => {
            return Err(ExportError::InvalidTimecode(word_text(content, v, w6)));
        },
    };
    let to = match frames_at(v, w7.0, w7.1, fmt) {
        Some(f) => f,
        None => {
            return Err(ExportError::InvalidTimecode(word_text(content, v, w7)));
        },
    };
    let duration = to - from;
    let name = word_text(content, v, w1);
    let src = to_lower(name.as_str()).concat(".mov");
    let is_video = v[w2.0] == 'V';
    let is_audio = v[w2.0] == 'A';
    assert(row[2][0] == v@[w2.0 as int]);
    let kind = if is_video {
        ItemKind::Video { src: src.clone() }
    } else {
        ItemKind::Audio { src: src.clone() }
    };
    let item = SequenceItem { id: crate::exchange::random_uid(), from, duration_in_frames: duration, kind };
    let info = AssetInfo {
        id: crate::exchange::random_uid(),
        path: src,
        relative_path: None,
        kind: if is_video {
            AssetKind::Video
        } else {
            AssetKind::Audio
        },
        width: Some(1920),
        height: Some(1080),
        duration_frames: Some(duration),
        fps: Some(Fps::new(30, 1)),
        audio_channels: if is_audio {
            Some(2)
        } else {
            None
        },
        sample_rate: if is_audio {
            Some(48000)
        } else {
            None
        },
        timecode: None,
        color_space: Some(config.color_space),
        file_size: None,
        hash: None,
    };
    Ok((item, info))
}

proof fn lemma_rows_on_push(rows: Seq<Seq<Seq<char>>>, r: Seq<Seq<char>>, v: bool)
    ensures
        rows_on(rows.push(r), v) == if begins(r[2], 'V') == v {
            rows_on(rows, v).push(r)
        } else {
            rows_on(rows, v)
        },
{
    assert(rows.push(r).drop_last() =~= rows);
}

proof fn lemma_last_end_push(rows: Seq<Seq<Seq<char>>>, r: Seq<Seq<char>>, fmt: TimecodeFormat)
    ensures
        last_end(rows.push(r), fmt) == if rows.len() == 0 {
            row_out(r, fmt)
        } else if last_end(rows, fmt) >= row_out(r, fmt) {
            last_end(rows, fmt)
        } else {
            row_out(r, fmt)
        },
{
    assert(rows.push(r).drop_last() =~= rows);
}

/// The rows left to read at `pos`, split into the line there and the rest.
proof fn lemma_rows_at(v: Seq<char>, pos: int, e: int)
    requires
        0 <= pos < e <= v.len() || 0 <= pos == e < v.len(),
        forall|j: int| pos <= j < e ==> v[j] != '\n',
        e < v.len() ==> v[e] == '\n',
    ensures
        e < v.len() ==> edl_rows(v.skip(pos)) == line_rows(v.subrange(pos, e)) + edl_rows(v.skip(e + 1)),
        e == v.len() ==> edl_rows(v.skip(pos)) == line_rows(v.subrange(pos, e)),
{
    let s = v.skip(pos);
    assert forall|j: int| 0 <= j < e - pos implies s[j] != '\n' by {
        assert(s[j] == v[pos + j]);
    }
    if e < v.len() {
        assert(s[e - pos] == v[e]);
    }
    lemma_line_len(s, e - pos);
    assert(s.take(e - pos) =~= v.subrange(pos, e));
    if e < v.len() {
        assert(s.skip(e - pos + 1) =~= v.skip(e + 1));
    } else {
        assert(s =~= v.subrange(pos, e));
    }
}

/// Import an edit decision list: every event line becomes an item of a
/// "V1" track (video reels) or an "A1" track (the others) and an asset
/// record, read at 30 frames per second.  The first record timecode that
/// cannot be read is the error.
pub fn parse_edl(content: &str, config: &ExportConfig) -> (r: Result<(Sequence, Vec<AssetInfo>), ExportError>)
    requires
        rows_fit(edl_rows(content@), config.timecode_format),
    ensures
        match r {
            Ok((s, infos)) => first_bad(edl_rows(content@), config.timecode_format) is None && list_imported(
                s,
                infos@,
                edl_rows(content@),
                config.timecode_format,
                *config,
            ),
            Err(e) => first_bad(edl_rows(content@), config.timecode_format) matches Some(t) && e matches ExportError::InvalidTimecode(m) && m@ == t,
        },
{
    let fmt = config.timecode_format;
    let v = chars_of(content);
    let n = v.len();
    let ghost all = edl_rows(v@);
    let ghost mut done: Seq<Seq<Seq<char>>> = Seq::empty();
    let mut infos: Vec<AssetInfo> = Vec::new();
    let mut video: Vec<SequenceItem> = Vec::new();
    let mut audio: Vec<SequenceItem> = Vec::new();
    let mut latest: i64 = 0;
    let mut pos: usize = 0;
    assert(v@.skip(0) =~= v@);
    while pos < n
        invariant
            v@ == content@,
            n == v@.len(),
            fmt == config.timecode_format,
            all == edl_rows(v@),
            0 <= pos <= n,
            all == done + edl_rows(v@.skip(pos as int)),
            first_bad(all, fmt) == first_bad(edl_rows(v@.skip(pos as int)), fmt),
            rows_fit(edl_rows(v@.skip(pos as int)), fmt),
            infos@.len() == done.len(),
            forall|k: int| 0 <= k < done.len() ==> row_info(#[trigger] infos@[k], done[k], fmt, *config),
            row_items(video@, rows_on(done, true), fmt),
            row_items(audio@, rows_on(done, false), fmt),
            done.len() > 0 ==> latest == last_end(done, fmt),
        decreases n - pos,
    {
        let mut e = pos;
        while e < n && v[e] != '\n'
            invariant
                pos <= e <= n,
                n == v@.len(),
                forall|j: int| pos <= j < e ==> v@[j] != '\n',
            decreases n - e,
        {
            e = e + 1;
        }
        proof {
            lemma_rows_at(v@, pos as int, e as int);
        }
        let ghost rest = edl_rows(v@.skip(pos as int));
        let ghost after = if e < n {
            edl_rows(v@.skip(e + 1))
        } else {
            Seq::empty()
        };
        let ghost line = v@.subrange(pos as int, e as int);
        assert(rest == line_rows(line) + after);
        match event_words(&v, pos, e) {
            Some(spans) => {
                let ghost row = span_texts(v@, spans@);
                assert(rest[0] == row);
                assert(rest.drop_first() =~= after);
                match read_row(content, &v, &spans, fmt, config) {
                    Ok((item, info)) => {
                        let end = item.from + item.duration_in_frames;
                        proof {
                            lemma_rows_on_push(done, row, true);
                            lemma_rows_on_push(done, row, false);
                            lemma_last_end_push(done, row, fmt);
                        }
                        if infos.len() == 0 || end > latest {
                            latest = end;
                        }
                        let is_video = match &item.kind {
                            ItemKind::Video { .. } => true,
                            _ => false,
                        };
                        if is_video {
                            video.push(item);
                        } else {
                            audio.push(item);
                        }
                        infos.push(info);
                        proof {
                            done = done.push(row);
                        }
                        assert(all =~= done + after);
                    },
                    Err(err) => {
                        return Err(err);
                    },
                }
            },
            None => {
                assert(rest =~= after);
            },
        }
        if e < n {
            pos = e + 1;
        } else {
            pos = n;
            assert(v@.skip(n as int) =~= Seq::<char>::empty());
        }
    }
    assert(v@.skip(n as int) =~= Seq::<char>::empty());
    assert(all =~= done);
    let mut sequence = Sequence::new("Imported EDL", 1920, 1080, Fps::new(30, 1), 0);
    let has_video = video.len() > 0;
    let has_audio = audio.len() > 0;
    if has_video {
        sequence.add_track(SequenceTrack { name: String::from_str("V1"), items: video });
    }
    if has_audio {
        sequence.add_track(SequenceTrack { name: String::from_str("A1"), items: audio });
    }
    if infos.len() > 0 {
        sequence.duration_in_frames = latest;
    }
    proof {
        reveal_strlit("Imported EDL");
    }
    Ok((sequence, infos))
}

/// Whether the events of `content` can be imported without a length
/// leaving `i64` (see [`rows_fit`]).
pub fn check_rows_fit(content: &str, fmt: TimecodeFormat) -> (b: bool)
    ensures
        b == rows_fit(edl_rows(content@), fmt),
{
    let v = chars_of(content);
    let n = v.len();
    let mut pos: usize = 0;
    assert(v@.skip(0) =~= v@);
    while pos < n
        invariant
            v@ == content@,
            n == v@.len(),
            0 <= pos <= n,
            rows_fit(edl_rows(v@), fmt) == rows_fit(edl_rows(v@.skip(pos as int)), fmt),
        decreases n - pos,
    {
        let mut e = pos;
        while e < n && v[e] != '\n'
            invariant
                pos <= e <= n,
                n == v@.len(),
                forall|j: int| pos <= j < e ==> v@[j] != '\n',
            decreases n - e,
        {
            e = e + 1;
        }
        proof {
            lemma_rows_at(v@, pos as int, e as int);
        }
        let ghost rest = edl_rows(v@.skip(pos as int));
        let ghost after = if e < n {
            edl_rows(v@.skip(e + 1))
        } else {
            Seq::empty()
        };
        let ghost line = v@.subrange(pos as int, e as int);
        assert(rest == line_rows(line) + after);
        match event_words(&v, pos, e) {
            Some(spans) => {
                let ghost row = span_texts(v@, spans@);
                assert(rest[0] == row);
                assert(rest.drop_first() =~= after);
                let w6 = spans[6];
                let w7 = spans[7];
                assert(row[6] == v@.subrange(w6.0 as int, w6.1 as int));
                assert(row[7] == v@.subrange(w7.0 as int, w7.1 as int));
                match (frames_at(&v, w6.0, w6.1, fmt), frames_at(&v, w7.0, w7.1, fmt)) {
                    (Some(from), Some(to)) => {
                        match to.checked_sub(from) {
                            None => {
                                return false;
                            },
                            Some(_) => {},
                        }
                    },
                    _ => {
                        return true;
                    },
                }
            },
            None => {
                assert(rest =~= after);
            },
        }
        if e < n {
            pos = e + 1;
        } else {
            pos = n;
            assert(v@.skip(n as int) =~= Seq::<char>::empty());
        }
    }
    assert(v@.skip(n as int) =~= Seq::<char>::empty());
    true
}

} // verus!
