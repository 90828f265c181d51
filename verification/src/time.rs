//! Rational frame rates and half-open frame ranges.

use vstd::prelude::*;

verus! {

/// A rational number `num / den`, used for frame rates and playback speeds.
///
/// `Rational { num: 24, den: 1 }` is 24 fps; `Rational { num: 30000, den: 1001 }`
/// is NTSC 29.97 fps.
#[derive(Debug, Clone, Copy, PartialEq, Eq, Hash, Structural)]
pub struct Rational {
    pub num: i64,
    pub den: i64,
}

impl Rational {
    pub fn new(num: i64, den: i64) -> (r: Self)
        ensures
            r.num == num,
            r.den == den,
    {
        Rational { num, den }
    }

    /// 24 fps.
    pub fn fps_24() -> (r: Self)
        ensures
            r.num == 24 && r.den == 1,
    {
        Rational { num: 24, den: 1 }
    }

    /// 25 fps.
    pub fn fps_25() -> (r: Self)
        ensures
            r.num == 25 && r.den == 1,
    {
        Rational { num: 25, den: 1 }
    }

    /// 30 fps.
    pub fn fps_30() -> (r: Self)
        ensures
            r.num == 30 && r.den == 1,
    {
        Rational { num: 30, den: 1 }
    }

    /// 60 fps.
    pub fn fps_60() -> (r: Self)
        ensures
            r.num == 60 && r.den == 1,
    {
        Rational { num: 60, den: 1 }
    }

    /// NTSC 29.97 fps (30000/1001).
    pub fn ntsc() -> (r: Self)
        ensures
            r.num == 30000 && r.den == 1001,
    {
        Rational { num: 30000, den: 1001 }
    }

    /// The value as a pair that fits two `u32`s, if it does.
    pub fn to_u32_pair(&self) -> (r: Option<(u32, u32)>)
        ensures
            r is Some <==> (0 <= self.num <= u32::MAX && 0 <= self.den <= u32::MAX),
            r matches Some(p) ==> p.0 == self.num && p.1 == self.den,
    {
        if 0 <= self.num && self.num <= 4294967295 && 0 <= self.den && self.den <= 4294967295 {
            Some((self.num as u32, self.den as u32))
        } else {
            None
        }
    }
}

/// A half-open range of frames `[start, end)`.
#[derive(Debug, Clone, Copy, PartialEq, Eq, Structural)]
pub struct TimeRange {
    pub start: i64,
    pub end: i64,
}

impl TimeRange {
    /// Whether `frame` lies in the range.
    pub open spec fn has(self, frame: int) -> bool {
        self.start <= frame < self.end
    }

    pub fn new(start: i64, end: i64) -> (r: Self)
        requires
            start <= end,
        ensures
            r.start == start,
            r.end == end,
    {
        TimeRange { start, end }
    }

    pub fn duration(&self) -> (d: i64)
        requires
            i64::MIN <= self.end - self.start <= i64::MAX,
        ensures
            d == self.end - self.start,
    {
        self.end - self.start
    }

    pub fn is_empty(&self) -> (b: bool)
        ensures
            b == (self.end <= self.start),
            b <==> !(exists|f: int| self.has(f)),
    {
        if self.end <= self.start {
            true
        } else {
            assert(self.has(self.start as int));
            false
        }
    }

    pub fn contains(&self, frame: i64) -> (b: bool)
        ensures
            b == self.has(frame as int),
    {
        frame >= self.start && frame < self.end
    }

    pub fn overlaps(&self, other: &TimeRange) -> (b: bool)
        ensures
            b == (self.start < other.end && other.start < self.end),
    {
        self.start < other.end && other.start < self.end
    }

    pub fn intersection(&self, other: &TimeRange) -> (r: Option<TimeRange>)
        ensures
            r matches Some(i) ==> i.start == (if self.start >= other.start { self.start } else { other.start })
                && i.end == (if self.end <= other.end { self.end } else { other.end })
                && i.start < i.end,
            r is None <==> (if self.start >= other.start { self.start } else { other.start })
                >= (if self.end <= other.end { self.end } else { other.end }),
    {
        let start = if self.start >= other.start { self.start } else { other.start };
        let end = if self.end <= other.end { self.end } else { other.end };
        if start < end {
            Some(TimeRange::new(start, end))
        } else {
            None
        }
    }

    /// Shift this range by `offset` frames.
    pub fn offset(&self, offset: i64) -> (r: TimeRange)
        requires
            self.start <= self.end,
            i64::MIN <= self.start + offset,
            self.end + offset <= i64::MAX,
        ensures
            r.start == self.start + offset,
            r.end == self.end + offset,
    {
        TimeRange::new(self.start + offset, self.end + offset)
    }
}

/// Two ranges overlap exactly when their intersection is non-empty, and every
/// frame of the intersection lies in both ranges.
pub proof fn lemma_intersection_is_common_part(a: TimeRange, b: TimeRange, f: int)
    ensures
        (a.start < b.end && b.start < a.end && a.start < a.end && b.start < b.end) <==> (exists|g: int|
            a.has(g) && b.has(g)),
        (a.has(f) && b.has(f)) <==> ({
            let s = if a.start >= b.start { a.start } else { b.start };
            let e = if a.end <= b.end { a.end } else { b.end };
            s <= f < e
        }),
{
    if a.start < b.end && b.start < a.end && a.start < a.end && b.start < b.end {
        let g: int = if a.start >= b.start { a.start as int } else { b.start as int };
        assert(a.has(g) && b.has(g));
    }
}

/// Overlap is symmetric.
pub proof fn lemma_overlap_symmetric(a: TimeRange, b: TimeRange)
    ensures
        (a.start < b.end && b.start < a.end) == (b.start < a.end && a.start < b.end),
{
}

/// Shifting a range keeps its duration and shifts membership with it.
pub proof fn lemma_offset_shifts(r: TimeRange, offset: int, f: int)
    ensures
        (r.end + offset) - (r.start + offset) == r.end - r.start,
        r.has(f) <==> (r.start + offset <= f + offset < r.end + offset),
{
}

} // verus!
