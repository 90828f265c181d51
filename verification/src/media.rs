//! Media probing vocabulary: what kind of media a file holds, errors of the
//! probe, export presets and the frame-rate text that probes report.

use vstd::prelude::*;
use vstd::string::{StrSliceExecFns, StringExecFns};
use crate::text::chars_of;

verus! {

/// Errors of a media probe.
#[derive(Debug, Clone)]
pub enum ProbeError {
    /// The probing tool is not on the search path.
    FfprobeMissing,
    FfprobeFailed(String),
    Parse(String),
}

/// The broad kind of a media file.
#[derive(Debug, Clone, Copy, PartialEq, Eq, Structural)]
pub enum MediaKind {
    Video,
    Image,
    Audio,
}

/// YUV layouts of decoded planes.
#[derive(Debug, Clone, Copy, PartialEq, Eq, Hash, Structural)]
pub enum YuvPixFmt {
    Nv12,
    P010,
}

/// A decoded frame as YUV planes.
#[derive(Debug, Clone)]
pub struct YuvFrame {
    pub fmt: YuvPixFmt,
    pub y: Vec<u8>,
    pub uv: Vec<u8>,
    pub width: u32,
    pub height: u32,
}

/// Errors of a YUV decode.
#[derive(Debug, Clone)]
pub enum DecodeError {
    NotAvailable,
    Failed(String),
}

/// Settings of a video export.
#[derive(Debug, Clone)]
pub struct ExportPreset {
    pub name: String,
    pub codec: String,
    pub container: String,
    /// Video bitrate in kbit/s.
    pub video_bitrate: Option<u32>,
    /// Audio bitrate in kbit/s.
    pub audio_bitrate: Option<u32>,
    pub width: Option<u32>,
    pub height: Option<u32>,
    pub fps: Option<(u32, u32)>,
    pub additional_args: Vec<String>,
}

/// The encoder arguments of the H.264 presets: `-preset medium`.
fn medium_args() -> (v: Vec<String>)
    ensures
        v@.len() == 2 && v@[0]@ == "-preset"@ && v@[1]@ == "medium"@,
{
    let mut v: Vec<String> = Vec::new();
    v.push(String::from_str("-preset"));
    v.push(String::from_str("medium"));
    v
}

impl ExportPreset {
    /// H.264 in MP4 at 1920x1080, 30 fps, 8000 kbit/s video, 320 kbit/s audio.
    pub fn h264_1080p() -> (p: Self)
        ensures
            p.name@ == "H.264 1080p"@ && p.codec@ == "libx264"@ && p.container@ == "mp4"@,
            p.video_bitrate == Some(8000u32) && p.audio_bitrate == Some(320u32),
            p.width == Some(1920u32) && p.height == Some(1080u32) && p.fps == Some((30u32, 1u32)),
            p.additional_args@.len() == 2 && p.additional_args@[0]@ == "-preset"@
                && p.additional_args@[1]@ == "medium"@,
    {
        ExportPreset {
            name: String::from_str("H.264 1080p"),
            codec: String::from_str("libx264"),
            container: String::from_str("mp4"),
            video_bitrate: Some(8000),
            audio_bitrate: Some(320),
            width: Some(1920),
            height: Some(1080),
            fps: Some((30, 1)),
            additional_args: medium_args(),
        }
    }

    /// H.264 in MP4 at 1280x720, 30 fps, 4000 kbit/s video, 320 kbit/s audio.
    pub fn h264_720p() -> (p: Self)
        ensures
            p.name@ == "H.264 720p"@ && p.codec@ == "libx264"@ && p.container@ == "mp4"@,
            p.video_bitrate == Some(4000u32) && p.audio_bitrate == Some(320u32),
            p.width == Some(1280u32) && p.height == Some(720u32) && p.fps == Some((30u32, 1u32)),
            p.additional_args@.len() == 2 && p.additional_args@[0]@ == "-preset"@
                && p.additional_args@[1]@ == "medium"@,
    {
        ExportPreset {
            name: String::from_str("H.264 720p"),
            codec: String::from_str("libx264"),
            container: String::from_str("mp4"),
            video_bitrate: Some(4000),
            audio_bitrate: Some(320),
            width: Some(1280),
            height: Some(720),
            fps: Some((30, 1)),
            additional_args: medium_args(),
        }
    }

    /// AV1 (SVT) in MP4 at 1920x1080, 30 fps, 5000 kbit/s video, 320 kbit/s
    /// audio, constant quality 28.
    pub fn av1_1080p() -> (p: Self)
        ensures
            p.name@ == "AV1 1080p"@ && p.codec@ == "libsvtav1"@ && p.container@ == "mp4"@,
            p.video_bitrate == Some(5000u32) && p.audio_bitrate == Some(320u32),
            p.width == Some(1920u32) && p.height == Some(1080u32) && p.fps == Some((30u32, 1u32)),
            p.additional_args@.len() == 2 && p.additional_args@[0]@ == "-crf"@ && p.additional_args@[1]@ == "28"@,
    {
        let mut args: Vec<String> = Vec::new();
        args.push(String::from_str("-crf"));
        args.push(String::from_str("28"));
        ExportPreset {
            name: String::from_str("AV1 1080p"),
            codec: String::from_str("libsvtav1"),
            container: String::from_str("mp4"),
            video_bitrate: Some(5000),
            audio_bitrate: Some(320),
            width: Some(1920),
            height: Some(1080),
            fps: Some((30, 1)),
            additional_args: args,
        }
    }
}

/// White space as `char::is_whitespace` defines it (the Unicode White_Space
/// property).
pub open spec fn is_ws(c: char) -> bool {
    ||| '\t' <= c <= '\r'
    ||| c == ' ' || c == '\u{85}' || c == '\u{a0}' || c == '\u{1680}'
    ||| '\u{2000}' <= c <= '\u{200a}'
    ||| c == '\u{2028}' || c == '\u{2029}' || c == '\u{202f}' || c == '\u{205f}' || c == '\u{3000}'
}

/// Executable [`is_ws`].
pub fn char_is_ws(c: char) -> (b: bool)
    ensures
        b == is_ws(c),
{
    ('\t' <= c && c <= '\r') || c == ' ' || c == '\u{85}' || c == '\u{a0}' || c == '\u{1680}' || ('\u{2000}' <= c
        && c <= '\u{200a}') || c == '\u{2028}' || c == '\u{2029}' || c == '\u{202f}' || c == '\u{205f}' || c
        == '\u{3000}'
}

/// `s` without leading white space.
pub open spec fn trim_start(s: Seq<char>) -> Seq<char>
    decreases s.len(),
{
    if s.len() > 0 && is_ws(s[0]) {
        trim_start(s.drop_first())
    } else {
        s
    }
}

/// `s` without trailing white space.
pub open spec fn trim_end(s: Seq<char>) -> Seq<char>
    decreases s.len(),
{
    if s.len() > 0 && is_ws(s.last()) {
        trim_end(s.drop_last())
    } else {
        s
    }
}

/// `s` without leading and trailing white space.
pub open spec fn trimmed(s: Seq<char>) -> Seq<char> {
    trim_end(trim_start(s))
}

/// The value of a string of decimal digits.
pub open spec fn digits_value(d: Seq<char>) -> int
    decreases d.len(),
{
    if d.len() == 0 {
        0
    } else {
        digits_value(d.drop_last()) * 10 + (d.last() as int - '0' as int)
    }
}

/// Every character of `d` is a decimal digit.
pub open spec fn all_digits(d: Seq<char>) -> bool {
    forall|i: int| 0 <= i < d.len() ==> '0' <= #[trigger] d[i] <= '9'
}

/// `u32`'s `from_str`: an optional `+` then at least one decimal digit,
/// the value fitting in `u32`.
pub open spec fn parse_u32(s: Seq<char>) -> Option<u32> {
    let d = if s.len() > 0 && s[0] == '+' {
        s.drop_first()
    } else {
        s
    };
    if d.len() > 0 && all_digits(d) && digits_value(d) <= u32::MAX {
        Some(digits_value(d) as u32)
    } else {
        None
    }
}

/// Position of the first `c` in `s`.
pub open spec fn char_pos(s: Seq<char>, c: char) -> Option<int> {
    if exists|i: int| 0 <= i < s.len() && s[i] == c && forall|j: int| 0 <= j < i ==> s[j] != c {
        Some(choose|i: int| 0 <= i < s.len() && s[i] == c && forall|j: int| 0 <= j < i ==> s[j] != c)
    } else {
        None
    }
}

/// A frame rate written as `num/den` or as a whole number, surrounded by
/// any white space; "0/0", "0" and blank text stand for no rate, as does a
/// zero denominator.
pub open spec fn rate_of(s: Seq<char>) -> Option<(u32, u32)> {
    let t = trimmed(s);
    if t == "0/0"@ || t == "0"@ || t.len() == 0 {
        None
    } else {
        match char_pos(t, '/') {
            Some(p) => match (parse_u32(t.subrange(0, p)), parse_u32(t.subrange(p + 1, t.len() as int))) {
                (Some(n), Some(d)) => if d == 0 {
                    None
                } else {
                    Some((n, d))
                },
                _ => None,
            },
            None => match parse_u32(t) {
                Some(v) => Some((v, 1)),
                None => None,
            },
        }
    }
}


pub(crate) proof fn lemma_trim_start(s: Seq<char>, a: int)
    requires
        0 <= a <= s.len(),
        forall|j: int| 0 <= j < a ==> is_ws(s[j]),
        a < s.len() ==> !is_ws(s[a]),
    ensures
        trim_start(s) == s.subrange(a, s.len() as int),
    decreases a,
{
    if a == 0 {
        assert(s.subrange(0, s.len() as int) =~= s);
    } else {
        assert(is_ws(s[0]));
        let t = s.drop_first();
        assert forall|j: int| 0 <= j < a - 1 implies is_ws(t[j]) by {
            assert(t[j] == s[j + 1]);
        }
        if a - 1 < t.len() {
            assert(t[a - 1] == s[a]);
        }
        lemma_trim_start(t, a - 1);
        assert(t.subrange(a - 1, t.len() as int) =~= s.subrange(a, s.len() as int));
    }
}

pub(crate) proof fn lemma_trim_end(s: Seq<char>, b: int)
    requires
        0 <= b <= s.len(),
        forall|j: int| b <= j < s.len() ==> is_ws(s[j]),
        b > 0 ==> !is_ws(s[b - 1]),
    ensures
        trim_end(s) == s.subrange(0, b),
    decreases s.len() - b,
{
    if b == s.len() {
        assert(s.subrange(0, b) =~= s);
    } else {
        assert(is_ws(s.last()));
        let t = s.drop_last();
        assert forall|j: int| b <= j < t.len() implies is_ws(t[j]) by {
            assert(t[j] == s[j]);
        }
        if b > 0 {
            assert(t[b - 1] == s[b - 1]);
        }
        lemma_trim_end(t, b);
        assert(t.subrange(0, b) =~= s.subrange(0, b));
    }
}

pub(crate) proof fn lemma_digits_nonneg(d: Seq<char>)
    requires
        all_digits(d),
    ensures
        digits_value(d) >= 0,
    decreases d.len(),
{
    if d.len() > 0 {
        assert(all_digits(d.drop_last())) by {
            assert forall|i: int| 0 <= i < d.drop_last().len() implies '0' <= #[trigger] d.drop_last()[i] <= '9' by {
                assert(d.drop_last()[i] == d[i]);
            }
        }
        lemma_digits_nonneg(d.drop_last());
        assert('0' <= d[d.len() - 1] <= '9');
    }
}

pub(crate) proof fn lemma_digits_prefix_le(d: Seq<char>, k: int)
    requires
        all_digits(d),
        0 <= k <= d.len(),
    ensures
        digits_value(d.subrange(0, k)) <= digits_value(d),
    decreases d.len(),
{
    if k == d.len() {
        assert(d.subrange(0, k) =~= d);
    } else {
        let t = d.drop_last();
        assert(all_digits(t)) by {
            assert forall|i: int| 0 <= i < t.len() implies '0' <= #[trigger] t[i] <= '9' by {
                assert(t[i] == d[i]);
            }
        }
        lemma_digits_prefix_le(t, k);
        assert(t.subrange(0, k) =~= d.subrange(0, k));
        lemma_digits_nonneg(t);
        assert('0' <= d[d.len() - 1] <= '9');
    }
}

/// `u32`'s `from_str` on the characters `v[lo..hi]`.
fn parse_u32_at(v: &Vec<char>, lo: usize, hi: usize) -> (r: Option<u32>)
    requires
        lo <= hi <= v@.len(),
    ensures
        r == parse_u32(v@.subrange(lo as int, hi as int)),
{
    let ghost s = v@.subrange(lo as int, hi as int);
    let mut start = lo;
    if start < hi && v[start] == '+' {
        start = start + 1;
    }
    let ghost d = v@.subrange(start as int, hi as int);
    assert(d =~= (if s.len() > 0 && s[0] == '+' { s.drop_first() } else { s }));
    if start == hi {
        return None;
    }
    let mut val: u64 = 0;
    let mut i = start;
    assert(d.subrange(0, 0) =~= Seq::<char>::empty());
    while i < hi
        invariant
            lo <= start <= i <= hi <= v@.len(),
            d == v@.subrange(start as int, hi as int),
            s == v@.subrange(lo as int, hi as int),
            d == (if s.len() > 0 && s[0] == '+' {
                s.drop_first()
            } else {
                s
            }),
            start < hi,
            val <= u32::MAX,
            val == digits_value(d.subrange(0, i - start)),
            all_digits(d.subrange(0, i - start)),
        decreases hi - i,
    {
        let c = v[i];
        let ghost k = i - start;
        assert(d[k] == c);
        assert(d.subrange(0, k + 1).drop_last() =~= d.subrange(0, k));
        if c < '0' || c > '9' {
            assert(!all_digits(d));
            return None;
        }
        let digit = (c as u32 - '0' as u32) as u64;
        val = val * 10 + digit;
        assert(all_digits(d.subrange(0, k + 1))) by {
            assert forall|j: int| 0 <= j < k + 1 implies '0' <= #[trigger] d.subrange(0, k + 1)[j] <= '9' by {
                if j < k {
                    assert(d.subrange(0, k + 1)[j] == d.subrange(0, k)[j]);
                }
            }
        }
        if val > 0xFFFF_FFFF {
            proof {
                if all_digits(d) {
                    lemma_digits_prefix_le(d, k + 1);
                }
            }
            return None;
        }
        i = i + 1;
    }
    assert(d.subrange(0, i - start) =~= d);
    Some(val as u32)
}

/// Parse a frame rate written as `num/den` or as a whole number (see
/// [`rate_of`]).
#[verifier::rlimit(40)]
pub fn parse_rate(s: &str) -> (r: Option<(u32, u32)>)
    ensures
        r == rate_of(s@),
{
    let v = chars_of(s);
    let n = v.len();
    let mut a: usize = 0;
    while a < n && char_is_ws(v[a])
        invariant
            n == v@.len(),
            0 <= a <= n,
            forall|j: int| 0 <= j < a ==> is_ws(v@[j]),
        decreases n - a,
    {
        a = a + 1;
    }
    let mut b: usize = n;
    while b > a && char_is_ws(v[b - 1])
        invariant
            n == v@.len(),
            a <= b <= n,
            forall|j: int| b <= j < n ==> is_ws(v@[j]),
        decreases b,
    {
        b = b - 1;
    }
    let ghost t = v@.subrange(a as int, b as int);
    proof {
        lemma_trim_start(v@, a as int);
        let u = v@.subrange(a as int, n as int);
        assert forall|j: int| b - a <= j < u.len() implies is_ws(u[j]) by {
            assert(u[j] == v@[a + j]);
        }
        if b > a {
            assert(u[b - a - 1] == v@[b - 1]);
        } else if a < n {
            assert(u.len() > 0 ==> u[0] == v@[a as int]);
        }
        if b == a && a < n {
            assert(!is_ws(v@[a as int]));
            assert(u[0] == v@[a as int]);
            assert(false);
        }
        lemma_trim_end(u, b - a);
        assert(u.subrange(0, b - a) =~= t);
        assert(trimmed(s@) == t);
        reveal_strlit("0/0");
        reveal_strlit("0");
    }
    let len = b - a;
    if len == 0 {
        return None;
    }
    if len == 3 && v[a] == '0' && v[a + 1] == '/' && v[a + 2] == '0' {
        assert(t =~= "0/0"@);
        return None;
    }
    if len == 1 && v[a] == '0' {
        assert(t =~= "0"@);
        return None;
    }
    proof {
        if t == "0/0"@ {
            assert(t[0] == '0' && t[1] == '/' && t[2] == '0');
        }
        if t == "0"@ {
            assert(t[0] == '0');
        }
    }
    let mut p = a;
    while p < b && v[p] != '/'
        invariant
            a <= p <= b <= v@.len(),
            forall|j: int| a <= j < p ==> v@[j] != '/',
        decreases b - p,
    {
        p = p + 1;
    }
    if p < b {
        proof {
            let q = (p - a) as int;
            assert(t[q] == '/');
            assert forall|j: int| 0 <= j < q implies t[j] != '/' by {
                assert(t[j] == v@[a + j]);
            }
            let c = char_pos(t, '/')->0;
            if c < q {
                assert(t[c] != '/');
            }
            if q < c {
                assert(t[q] != '/');
            }
            assert(t.subrange(0, q) =~= v@.subrange(a as int, p as int));
            assert(t.subrange(q + 1, t.len() as int) =~= v@.subrange(p + 1, b as int));
        }
        let num = parse_u32_at(&v, a, p);
        let den = parse_u32_at(&v, p + 1, b);
        match (num, den) {
            (Some(nv), Some(dv)) => {
                if dv == 0 {
                    None
                } else {
                    Some((nv, dv))
                }
            },
            _ => None,
        }
    } else {
        proof {
            assert forall|i: int| 0 <= i < t.len() && t[i] == '/' implies false by {
                assert(t[i] == v@[a + i]);
            }
        }
        match parse_u32_at(&v, a, b) {
            Some(val) => Some((val, 1)),
            None => None,
        }
    }
}

/// The bounds of `v` without its leading and trailing white space.
pub fn trimmed_bounds(v: &Vec<char>) -> (r: (usize, usize))
    ensures
        r.0 <= r.1 <= v@.len(),
        v@.subrange(r.0 as int, r.1 as int) == trimmed(v@),
{
    let n = v.len();
    let mut a: usize = 0;
    while a < n && char_is_ws(v[a])
        invariant
            n == v@.len(),
            0 <= a <= n,
            forall|j: int| 0 <= j < a ==> is_ws(v@[j]),
        decreases n - a,
    {
        a = a + 1;
    }
    let mut b: usize = n;
    while b > a && char_is_ws(v[b - 1])
        invariant
            n == v@.len(),
            a <= b <= n,
            forall|j: int| b <= j < n ==> is_ws(v@[j]),
        decreases b,
    {
        b = b - 1;
    }
    proof {
        lemma_trim_start(v@, a as int);
        let u = v@.subrange(a as int, n as int);
        assert forall|j: int| b - a <= j < u.len() implies is_ws(u[j]) by {
            assert(u[j] == v@[a + j]);
        }
        if b > a {
            assert(u[b - a - 1] == v@[b - 1]);
        }
        if b == a && a < n {
            assert(!is_ws(v@[a as int]));
            assert(u[0] == v@[a as int]);
            assert(false);
        }
        lemma_trim_end(u, b - a);
        assert(u.subrange(0, b - a) =~= v@.subrange(a as int, b as int));
    }
    (a, b)
}

} // verus!
