//! Clip — the atomic unit on a track — with its blend mode, mask, fade,
//! transition, speed and generator settings.

use vstd::prelude::*;
use crate::effect::{EffectInstance, ParamValue};
use crate::ids::{AssetId, ClipId};
use crate::keyframe::Keyframe;
use crate::num::{F32Bits, F64Bits, scaled_round, scaled_round_exec};
use crate::time::{Rational, TimeRange};
use crate::transform::Transform;
use crate::media::{trimmed, trimmed_bounds};
use crate::text::chars_of;
use vstd::string::StrSliceExecFns;

verus! {

#[derive(Debug, Clone, Copy, PartialEq, Eq, Structural)]
pub enum BlendMode {
    Normal,
    Darken,
    Multiply,
    ColorBurn,
    Lighten,
    Screen,
    PlusLighter,
    ColorDodge,
    Overlay,
    SoftLight,
    HardLight,
    Difference,
    Exclusion,
    Hue,
    Saturation,
    Color,
    Luminosity,
}

impl Default for BlendMode {
    fn default() -> (r: Self)
        ensures
            r == BlendMode::Normal,
    {
        BlendMode::Normal
    }
}

/// How a clip's source media is conformed to the canvas.
#[derive(Debug, Clone, Copy, PartialEq, Eq, Structural)]
pub enum SpatialConform {
    /// Fit within canvas, preserving aspect ratio.
    Fit,
    /// Fill canvas, cropping excess.
    Fill,
    /// No scaling: source dimensions as-is.
    Unscaled,
}

#[derive(Debug, Clone, Copy, PartialEq, Eq, Structural)]
pub enum MaskKind {
    Rectangle,
    Ellipse,
    Freehand,
}

/// A mask applied to a clip (position, size, feather).
#[derive(Debug, Clone, Copy, PartialEq, Eq, Structural)]
pub struct ClipMask {
    pub kind: MaskKind,
    pub x: F32Bits,
    pub y: F32Bits,
    pub width: F32Bits,
    pub height: F32Bits,
    /// Feather radius in pixels.
    pub feather: F32Bits,
    pub invert: bool,
}

#[derive(Debug, Clone, Copy, PartialEq, Eq, Structural)]
pub enum FadeCurve {
    Linear,
    Ease,
    EaseIn,
    EaseOut,
}

impl Default for FadeCurve {
    fn default() -> (r: Self)
        ensures
            r == FadeCurve::Linear,
    {
        FadeCurve::Linear
    }
}

/// Fade-in / fade-out durations in frames.
#[derive(Debug, Clone, Copy, PartialEq, Eq, Structural)]
pub struct Fade {
    pub in_frames: i64,
    pub out_frames: i64,
    pub curve: FadeCurve,
}

/// The kind of video transition between clips.
#[derive(Debug, Clone, Copy, PartialEq, Eq, Structural)]
pub enum TransitionKind {
    CrossDissolve,
    Dissolve,
    Wipe,
    Slide,
}

/// A transition applied at the start of a clip: the outgoing clip's tail and
/// the incoming clip's head overlap for `duration_frames`.
#[derive(Debug, Clone, Copy, PartialEq, Eq, Structural)]
pub struct Transition {
    pub kind: TransitionKind,
    pub duration_frames: i64,
    pub reversed: bool,
    pub curve: FadeCurve,
}

/// A control point on a speed-ramp curve (time → speed multiplier).
#[derive(Debug, Clone, Copy, PartialEq, Eq, Structural)]
pub struct SpeedCurvePoint {
    /// Time in frames from the start of the clip.
    pub frame: i64,
    pub speed: F64Bits,
}

/// A generated clip (no media asset needed).
#[derive(Debug, Clone)]
pub enum Generator {
    /// Solid color fill (RGBA, 0.0–1.0 per channel).
    Solid { color: [F32Bits; 4] },
    /// Text overlay.
    Text { content: String, font_size: F32Bits, color: [F32Bits; 4] },
    /// Scrolling credits.
    Credits { content: String, font_size: F32Bits, color: [F32Bits; 4], scroll_speed: F32Bits },
    /// Placeholder for future generators.
    Custom,
}

/// The number of bytes `c` takes in UTF-8 (`char::len_utf8`).
pub open spec fn utf8_len(c: char) -> int {
    if (c as u32) < 0x80 {
        1
    } else if (c as u32) < 0x800 {
        2
    } else if (c as u32) < 0x1_0000 {
        3
    } else {
        4
    }
}

/// How many characters from the start of `s` fit in `n` bytes of UTF-8.
pub open spec fn fit_count(s: Seq<char>, n: int) -> nat
    decreases s.len(),
{
    if s.len() == 0 || utf8_len(s[0]) > n {
        0
    } else {
        1 + fit_count(s.drop_first(), n - utf8_len(s[0]))
    }
}

/// The longest start of `s` that takes at most `n` bytes of UTF-8: `s`
/// itself when it is that short, else its first `n` bytes, cut back to the
/// start of a character when byte `n` falls inside one.
pub open spec fn byte_prefix(s: Seq<char>, n: int) -> Seq<char> {
    s.take(fit_count(s, n) as int)
}

/// Where the first line of `s` ends: the position of its first line feed,
/// or the length of `s`.
pub open spec fn line_end(s: Seq<char>) -> int
    decreases s.len(),
{
    if s.len() == 0 || s[0] == '\n' {
        0
    } else {
        1 + line_end(s.drop_first())
    }
}

/// The first line of `s` as `str::lines` gives it: up to the first line
/// feed, without the carriage return before it; none for empty text.
pub open spec fn first_line(s: Seq<char>) -> Option<Seq<char>> {
    if s.len() == 0 {
        None
    } else {
        let k = line_end(s);
        if k < s.len() && k > 0 && s[k - 1] == '\r' {
            Some(s.take(k - 1))
        } else {
            Some(s.take(k))
        }
    }
}

/// A generator's display label: "Color" for a solid, the trimmed text of
/// a text overlay and the first line of credits (or "Credits" when there
/// is none), each cut to its first 20 bytes, and "Generator" otherwise.
pub open spec fn generator_label(g: Generator) -> Seq<char> {
    match g {
        Generator::Solid { .. } => "Color"@,
        Generator::Text { content, .. } => byte_prefix(trimmed(content@), 20),
        Generator::Credits { content, .. } => match first_line(content@) {
            Some(l) => byte_prefix(l, 20),
            None => "Credits"@,
        },
        Generator::Custom => "Generator"@,
    }
}

/// Executable [`utf8_len`].
fn char_utf8_len(c: char) -> (l: u64)
    ensures
        l == utf8_len(c),
{
    if (c as u32) < 0x80 {
        1
    } else if (c as u32) < 0x800 {
        2
    } else if (c as u32) < 0x1_0000 {
        3
    } else {
        4
    }
}

/// How many characters of `v` from `from` on, up to `to`, fit in `n` bytes
/// of UTF-8 (see [`fit_count`]).
fn fitting_chars(v: &Vec<char>, from: usize, to: usize, n: u64) -> (k: usize)
    requires
        from <= to <= v@.len(),
    ensures
        k == fit_count(v@.subrange(from as int, to as int), n as int),
        k <= to - from,
{
    let mut i: usize = from;
    let mut budget: u64 = n;
    while i < to
        invariant
            from <= i <= to <= v@.len(),
            fit_count(v@.subrange(from as int, to as int), n as int) == (i - from) + fit_count(
                v@.subrange(i as int, to as int),
                budget as int,
            ),
        decreases to - i,
    {
        let c = v[i];
        let l = char_utf8_len(c);
        let ghost s = v@.subrange(i as int, to as int);
        assert(s[0] == c);
        assert(s.drop_first() =~= v@.subrange(i + 1, to as int));
        if l > budget {
            return i - from;
        }
        budget = budget - l;
        i = i + 1;
    }
    i - from
}

/// The first line feed of `s` is at `j` (or there is none and `j` is the
/// length).
proof fn lemma_line_end(s: Seq<char>, j: int)
    requires
        0 <= j <= s.len(),
        forall|m: int| 0 <= m < j ==> s[m] != '\n',
        j < s.len() ==> s[j] == '\n',
    ensures
        line_end(s) == j,
    decreases j,
{
    if j > 0 {
        let t = s.drop_first();
        assert forall|m: int| 0 <= m < j - 1 implies t[m] != '\n' by {
            assert(t[m] == s[m + 1]);
        }
        if j < s.len() {
            assert(t[j - 1] == s[j]);
        }
        lemma_line_end(t, j - 1);
    }
}

impl Generator {
    /// Whether this generator needs an asset (never).
    pub fn needs_asset(&self) -> (b: bool)
        ensures
            !b,
    {
        false
    }

    /// The label shown for the generator (see [`generator_label`]).
    pub fn label(&self) -> (r: &str)
        ensures
            r@ == generator_label(*self),
    {
        match self {
            Generator::Solid { .. } => "Color",
            Generator::Text { content, .. } => {
                let v = chars_of(content.as_str());
                let (a, b) = trimmed_bounds(&v);
                let k = fitting_chars(&v, a, b, 20);
                proof {
                    let t = v@.subrange(a as int, b as int);
                    assert(t.take(k as int) =~= v@.subrange(a as int, a + k));
                }
                content.as_str().substring_char(a, a + k)
            },
            Generator::Credits { content, .. } => {
                let v = chars_of(content.as_str());
                let n = v.len();
                if n == 0 {
                    return "Credits";
                }
                let mut j: usize = 0;
                while j < n && v[j] != '\n'
                    invariant
                        n == v@.len(),
                        0 <= j <= n,
                        forall|m: int| 0 <= m < j ==> v@[m] != '\n',
                    decreases n - j,
                {
                    j = j + 1;
                }
                proof {
                    lemma_line_end(v@, j as int);
                }
                let e: usize = if j < n && j > 0 && v[j - 1] == '\r' {
                    j - 1
                } else {
                    j
                };
                let k = fitting_chars(&v, 0, e, 20);
                proof {
                    let l = v@.take(e as int);
                    assert(v@.subrange(0, e as int) =~= l);
                    assert(l.take(k as int) =~= v@.subrange(0, k as int));
                }
                content.as_str().substring_char(0, k)
            },
            Generator::Custom => "Generator",
        }
    }
}

/// A single clip on a track.
///
/// `speed` is the playback speed as an exact ratio (1/1 = normal speed,
/// 2/1 = twice as fast).
#[derive(Debug, Clone)]
pub struct Clip {
    pub id: ClipId,
    /// Human-readable label (defaults to the file name stem).
    pub label: String,
    /// The backing asset.
    pub asset_id: AssetId,
    /// Frame on the timeline where this clip starts.
    pub timeline_in: i64,
    /// Frame within the source where playback starts.
    pub source_in: i64,
    /// Number of source frames to play (before speed adjustment).
    pub source_duration: i64,
    pub transform: Transform,
    pub blend_mode: BlendMode,
    pub mask: Option<ClipMask>,
    pub fade: Option<Fade>,
    /// Transition at the start of this clip.
    pub transition: Option<Transition>,
    pub speed: Rational,
    /// Speed-ramp curve (overrides `speed` when set).
    pub speed_curve: Vec<SpeedCurvePoint>,
    pub reverse: bool,
    /// Hold this source frame (relative to `source_in`) for the whole clip.
    pub freeze_frame: Option<i64>,
    pub frame_blending: bool,
    pub spatial_conform: Option<SpatialConform>,
    /// Gain adjustment in dB.
    pub gain_db: Option<F32Bits>,
    /// Gain automation points (local frame, gain dB).
    pub volume_keyframes: Option<Vec<(i64, F64Bits)>>,
    pub mute_audio: bool,
    pub filters: Vec<EffectInstance>,
    pub keyframes: Vec<Keyframe>,
    /// Clips sharing a link group are edited as one unit.
    pub link_group_id: Option<u64>,
    /// If set, this clip renders a generator instead of media.
    pub generator: Option<Generator>,
}

/// Timeline length of `source_duration` source frames played at `speed`:
/// `source_duration / speed`, rounded half away from zero and clamped to `i64`.
pub open spec fn clip_len(source_duration: int, speed: Rational) -> int {
    scaled_round(source_duration, speed.den as int, speed.num as int)
}

/// Source offset reached after `offset` timeline frames at `speed`:
/// `offset * speed`, rounded half away from zero and clamped to `i64`.
pub open spec fn source_offset(offset: int, speed: Rational) -> int {
    scaled_round(offset, speed.num as int, speed.den as int)
}

impl Clip {
    /// Timeline duration of the clip.
    pub open spec fn dur(self) -> int {
        clip_len(self.source_duration as int, self.speed)
    }

    /// Timeline end frame (exclusive).
    pub open spec fn end(self) -> int {
        self.timeline_in + self.dur()
    }

    /// Whether the clip's timeline end can be computed without overflow.
    pub open spec fn end_fits(self) -> bool {
        i64::MIN <= self.end() <= i64::MAX
    }

    /// Duration of this clip on the timeline, accounting for speed.
    pub fn duration(&self) -> (d: i64)
        ensures
            d == self.dur(),
    {
        scaled_round_exec(self.source_duration, self.speed.den, self.speed.num)
    }

    /// The range this clip occupies on the timeline.
    pub fn timeline_range(&self) -> (r: TimeRange)
        requires
            self.end_fits(),
            self.dur() >= 0,
        ensures
            r.start == self.timeline_in,
            r.end == self.end(),
    {
        let d = self.duration();
        TimeRange::new(self.timeline_in, self.timeline_in + d)
    }

    /// The range within the source media.
    pub fn source_range(&self) -> (r: TimeRange)
        requires
            self.source_duration >= 0,
            self.source_in + self.source_duration <= i64::MAX,
        ensures
            r.start == self.source_in,
            r.end == self.source_in + self.source_duration,
    {
        TimeRange::new(self.source_in, self.source_in + self.source_duration)
    }

    /// Whether this clip covers `frame` on the timeline.
    pub fn covers(&self, frame: i64) -> (b: bool)
        requires
            self.end_fits(),
            self.dur() >= 0,
        ensures
            b == (self.timeline_in <= frame < self.end()),
    {
        self.timeline_range().contains(frame)
    }

    /// Map a timeline frame to a source frame (accounting for `source_in`
    /// and speed); `None` when the clip does not cover the frame.
    pub fn timeline_to_source(&self, timeline_frame: i64) -> (r: Option<i64>)
        requires
            self.end_fits(),
            self.dur() >= 0,
            self.timeline_in <= timeline_frame < self.end() ==> i64::MIN <= self.source_in
                + source_offset(timeline_frame - self.timeline_in, self.speed) <= i64::MAX,
        ensures
            r is Some <==> self.timeline_in <= timeline_frame < self.end(),
            r matches Some(s) ==> s == self.source_in + source_offset(
                timeline_frame - self.timeline_in,
                self.speed,
            ),
    {
        if !self.covers(timeline_frame) {
            return None;
        }
        let offset = timeline_frame - self.timeline_in;
        let so = scaled_round_exec(offset, self.speed.num, self.speed.den);
        Some(self.source_in + so)
    }
}

/// A semantic region on the timeline, labelled by an AI agent.
#[derive(Debug, Clone)]
pub struct SemanticClip {
    pub id: u64,
    pub label: String,
    pub semantic_type: String,
    pub start_frame: i64,
    pub duration_frames: i64,
    /// Structured metadata attached by the agent.
    pub prompt_schema: Option<ParamValue>,
}

} // verus!
