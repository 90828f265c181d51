//! CMX-style edit decision lists: written from the video items of a
//! sequence, read back line by line.
//!
//! Timecode text is made by a function the caller hands in (`timecode`),
//! applied to a frame count, the sequence's rate and the configured format;
//! the writer fixes which frame count each column is made from.

use vstd::prelude::*;
use vstd::string::StringExecFns;
use crate::exchange::{
    file_stem, path_stem, to_upper, uppercase, AssetInfo, ExportConfig, Fps, ItemKind, Sequence,
    SequenceItem, SequenceTrack, TimecodeFormat,
};
use crate::fcpxml::src_of;
use crate::text::{decimal, decimal_string};

verus! {

// ---------------------------------------------------------------------------
// Writing
// ---------------------------------------------------------------------------

/// The video items of a row, in order.
pub open spec fn video_of(items: Seq<SequenceItem>) -> Seq<SequenceItem>
    decreases items.len(),
{
    if items.len() == 0 {
        Seq::empty()
    } else if items.last().kind is Video {
        video_of(items.drop_last()).push(items.last())
    } else {
        video_of(items.drop_last())
    }
}

/// Every video item of the sequence, track by track, each with whether it
/// sits on the first track.
pub open spec fn edl_entries(tracks: Seq<SequenceTrack>) -> Seq<(SequenceItem, bool)>
    decreases tracks.len(),
{
    if tracks.len() == 0 {
        Seq::empty()
    } else {
        edl_entries(tracks.drop_last()) + video_of(tracks.last().items@).map_values(
            |it: SequenceItem| (it, tracks.len() == 1),
        )
    }
}

/// The reel name of a media path: its stem in upper case, or "UNKNOWN".
pub open spec fn reel_name(src: Seq<char>) -> Seq<char> {
    uppercase(
        match path_stem(src) {
            Some(s) => s,
            None => "UNKNOWN"@,
        },
    )
}

/// An edit number, zero-padded to three digits.
pub open spec fn edit_number_text(n: nat) -> Seq<char> {
    let d = decimal(n);
    if d.len() >= 3 {
        d
    } else if d.len() == 2 {
        "0"@ + d
    } else {
        "00"@ + d
    }
}

/// An edit number is the number's decimal digits, left-padded with zeros
/// to three characters: its length is three or the digit count, whichever
/// is larger, it ends with the digits, and every character before them is
/// `0`.
pub proof fn lemma_edit_number_is_zero_padded(n: nat)
    ensures
        ({
            let t = edit_number_text(n);
            let d = decimal(n);
            let pad = t.len() - d.len();
            &&& t.len() == if d.len() >= 3 { d.len() } else { 3 }
            &&& t.subrange(pad, t.len() as int) == d
            &&& forall|i: int| 0 <= i < pad ==> #[trigger] t[i] == '0'
        }),
{
    reveal_strlit("0");
    reveal_strlit("00");
    let t = edit_number_text(n);
    let d = decimal(n);
    lemma_decimal_len(n);
    let pad = t.len() - d.len();
    assert(t.subrange(pad, t.len() as int) =~= d);
}

/// The four timecodes of an event: source in, source out, record in, record
/// out.
pub type EventTimecodes = (String, String, String, String);

/// One event line.
pub open spec fn edl_line(n: nat, e: (SequenceItem, bool), tc: EventTimecodes) -> Seq<char> {
    edit_number_text(n) + " "@ + reel_name(src_of(e.0.kind)) + " "@ + (if e.1 {
        "V"@
    } else {
        "A"@
    }) + " C "@ + tc.0@ + " "@ + tc.1@ + " "@ + tc.2@ + " "@ + tc.3@ + "\n"@
}

/// The event lines, numbered from 1.
pub open spec fn edl_lines(es: Seq<(SequenceItem, bool)>, tcs: Seq<EventTimecodes>) -> Seq<char>
    decreases es.len(),
{
    if es.len() == 0 || tcs.len() == 0 {
        Seq::empty()
    } else {
        edl_lines(es.drop_last(), tcs.drop_last()) + edl_line(es.len(), es.last(), tcs.last())
    }
}

/// The two header lines and the blank line after them.
pub open spec fn edl_header(title: Seq<char>) -> Seq<char> {
    "TITLE: "@ + title + "\n"@ + "FCM: NON-DROP FRAME\n\n"@
}

/// `tc` are what `timecode` gives for the event of item `it`: 0 and the
/// duration on the source side, the start and the end on the record side.
pub open spec fn timecodes_for<F: Fn(i64, Fps, TimecodeFormat) -> String>(
    timecode: F,
    it: SequenceItem,
    fps: Fps,
    fmt: TimecodeFormat,
    tc: EventTimecodes,
) -> bool {
    &&& call_ensures(timecode, (0i64, fps, fmt), tc.0)
    &&& call_ensures(timecode, (it.duration_in_frames, fps, fmt), tc.1)
    &&& call_ensures(timecode, (it.from, fps, fmt), tc.2)
    &&& call_ensures(timecode, ((it.from + it.duration_in_frames) as i64, fps, fmt), tc.3)
}

/// `text` is the list for `s` with the timecodes `tcs`.
pub open spec fn edl_text_with<F: Fn(i64, Fps, TimecodeFormat) -> String>(
    text: Seq<char>,
    s: Sequence,
    fmt: TimecodeFormat,
    timecode: F,
    tcs: Seq<EventTimecodes>,
) -> bool {
    let es = edl_entries(s.tracks@);
    &&& tcs.len() == es.len()
    &&& forall|k: int| 0 <= k < es.len() ==> timecodes_for(timecode, es[k].0, s.fps, fmt, #[trigger] tcs[k])
    &&& text == edl_header(s.name@) + edl_lines(es, tcs)
}

/// `text` is the list for `s`: a title line, the frame-count line, and one
/// event per video item.
pub open spec fn edl_text<F: Fn(i64, Fps, TimecodeFormat) -> String>(
    text: Seq<char>,
    s: Sequence,
    fmt: TimecodeFormat,
    timecode: F,
) -> bool {
    exists|tcs: Seq<EventTimecodes>| #[trigger] edl_text_with(text, s, fmt, timecode, tcs)
}

/// The end of every video item fits in `i64`, and the events can be
/// numbered in `i32`.
pub open spec fn edl_fits(s: Sequence) -> bool {
    &&& edl_entries(s.tracks@).len() < i32::MAX
    &&& forall|t: int, i: int|
        0 <= t < s.tracks@.len() && 0 <= i < s.tracks@[t].items@.len() && (#[trigger] s.tracks@[t].items@[i]).kind
            is Video ==> i64::MIN <= s.tracks@[t].items@[i].from + s.tracks@[t].items@[i].duration_in_frames
            <= i64::MAX
}

proof fn lemma_decimal_len(n: nat)
    ensures
        decimal(n).len() >= 1,
        n < 10 ==> decimal(n).len() == 1,
        10 <= n < 100 ==> decimal(n).len() == 2,
        n >= 100 ==> decimal(n).len() >= 3,
    decreases n,
{
    if n >= 10 {
        lemma_decimal_len(n / 10);
    }
}

fn edit_number(n: u64) -> (r: String)
    ensures
        r@ == edit_number_text(n as nat),
{
    proof {
        lemma_decimal_len(n as nat);
    }
    let d = decimal_string(n);
    if n < 10 {
        String::from_str("00").concat(d.as_str())
    } else if n < 100 {
        String::from_str("0").concat(d.as_str())
    } else {
        d
    }
}

fn reel(src: &String) -> (r: String)
    ensures
        r@ == reel_name(src@),
{
    let stem = match file_stem(src.as_str()) {
        Some(s) => s,
        None => String::from_str("UNKNOWN"),
    };
    to_upper(stem.as_str())
}

/// The text of one event line.
fn event_line(n: u64, item: &SequenceItem, first: bool, tc: &EventTimecodes) -> (r: String)
    requires
        item.kind is Video,
    ensures
        r@ == edl_line(n as nat, (*item, first), *tc),
{
    let src = match &item.kind {
        ItemKind::Video { src } => src,
        _ => {
            return String::new();
        },
    };
    let mut line = edit_number(n);
    line.append(" ");
    let name = reel(src);
    line.append(name.as_str());
    line.append(" ");
    if first {
        line.append("V");
    } else {
        line.append("A");
    }
    line.append(" C ");
    line.append(tc.0.as_str());
    line.append(" ");
    line.append(tc.1.as_str());
    line.append(" ");
    line.append(tc.2.as_str());
    line.append(" ");
    line.append(tc.3.as_str());
    line.append("\n");
    line
}

proof fn lemma_video_of_step(items: Seq<SequenceItem>, j: int)
    requires
        0 <= j < items.len(),
    ensures
        video_of(items.take(j + 1)) == if items[j].kind is Video {
            video_of(items.take(j)).push(items[j])
        } else {
            video_of(items.take(j))
        },
{
    assert(items.take(j + 1).drop_last() =~= items.take(j));
}

proof fn lemma_entries_step(tracks: Seq<SequenceTrack>, t: int)
    requires
        0 <= t < tracks.len(),
    ensures
        edl_entries(tracks.take(t + 1)) == edl_entries(tracks.take(t)) + video_of(tracks[t].items@).map_values(
            |it: SequenceItem| (it, t == 0),
        ),
{
    assert(tracks.take(t + 1).drop_last() =~= tracks.take(t));
}

proof fn lemma_entries_prefix(tracks: Seq<SequenceTrack>, t: int)
    requires
        0 <= t <= tracks.len(),
    ensures
        edl_entries(tracks.take(t)).len() <= edl_entries(tracks).len(),
        forall|k: int| 0 <= k < edl_entries(tracks.take(t)).len() ==> #[trigger] edl_entries(tracks.take(t))[k]
            == edl_entries(tracks)[k],
    decreases tracks.len() - t,
{
    if t == tracks.len() {
        assert(tracks.take(t) =~= tracks);
    } else {
        lemma_entries_prefix(tracks, t + 1);
        lemma_entries_step(tracks, t);
        let a = edl_entries(tracks.take(t));
        let b = edl_entries(tracks.take(t + 1));
        assert forall|k: int| 0 <= k < a.len() implies #[trigger] a[k] == edl_entries(tracks)[k] by {
            assert(a[k] == b[k]);
        }
    }
}

proof fn lemma_lines_push(es: Seq<(SequenceItem, bool)>, tcs: Seq<EventTimecodes>, e: (SequenceItem, bool), tc: EventTimecodes)
    requires
        es.len() == tcs.len(),
    ensures
        edl_lines(es.push(e), tcs.push(tc)) == edl_lines(es, tcs) + edl_line(es.len() + 1, e, tc),
{
    assert(es.push(e).drop_last() =~= es);
    assert(tcs.push(tc).drop_last() =~= tcs);
}

proof fn lemma_video_of_len(items: Seq<SequenceItem>, j: int)
    requires
        0 <= j <= items.len(),
    ensures
        video_of(items.take(j)).len() <= video_of(items).len(),
    decreases items.len() - j,
{
    if j == items.len() {
        assert(items.take(j) =~= items);
    } else {
        lemma_video_of_len(items, j + 1);
        lemma_video_of_step(items, j);
    }
}

/// Write the edit decision list of `sequence`: a title line, the frame-count
/// line, a blank line, then one event per video item, numbered from 1,
/// on reel "V" for the first track and "A" for the others.
pub fn generate_edl<F: Fn(i64, Fps, TimecodeFormat) -> String>(
    sequence: &Sequence,
    _assets: &Vec<AssetInfo>,
    config: &ExportConfig,
    timecode: &F,
) -> (r: String)
    requires
        forall|a: i64, f: Fps, m: TimecodeFormat| call_requires(*timecode, (a, f, m)),
        edl_fits(*sequence),
    ensures
        edl_text(r@, *sequence, config.timecode_format, *timecode),
{
    let fps = sequence.fps;
    let fmt = config.timecode_format;
    let mut text = String::from_str("TITLE: ");
    text.append(sequence.name.as_str());
    text.append("\n");
    text.append("FCM: NON-DROP FRAME\n\n");
    let ghost header = text@;
    assert(header =~= edl_header(sequence.name@));
    let ghost mut tcs: Seq<EventTimecodes> = Seq::empty();
    let ghost all = edl_entries(sequence.tracks@);
    let tracks = &sequence.tracks;
    let nt = tracks.len();
    let mut count: u64 = 0;
    let mut t: usize = 0;
    while t < nt
        invariant
            nt == tracks@.len(),
            *tracks == sequence.tracks,
            fps == sequence.fps,
            fmt == config.timecode_format,
            edl_fits(*sequence),
            all == edl_entries(sequence.tracks@),
            forall|a: i64, f: Fps, m: TimecodeFormat| call_requires(*timecode, (a, f, m)),
            0 <= t <= nt,
            header == edl_header(sequence.name@),
            count == tcs.len(),
            tcs.len() == edl_entries(tracks@.take(t as int)).len(),
            forall|k: int|
                0 <= k < tcs.len() ==> timecodes_for(
                    *timecode,
                    edl_entries(tracks@.take(t as int))[k].0,
                    fps,
                    fmt,
                    #[trigger] tcs[k],
                ),
            text@ == header + edl_lines(edl_entries(tracks@.take(t as int)), tcs),
        decreases nt - t,
    {
        let items = &tracks[t].items;
        let ni = items.len();
        let first = t == 0;
        let ghost before = edl_entries(tracks@.take(t as int));
        proof {
            lemma_entries_prefix(tracks@, t + 1);
            lemma_entries_step(tracks@, t as int);
        }
        let mut j: usize = 0;
        while j < ni
            invariant
                nt == tracks@.len(),
                0 <= t < nt,
                *items == tracks@[t as int].items,
                ni == items@.len(),
                first == (t == 0),
                *tracks == sequence.tracks,
                fps == sequence.fps,
                fmt == config.timecode_format,
                edl_fits(*sequence),
                all == edl_entries(sequence.tracks@),
                before == edl_entries(tracks@.take(t as int)),
                edl_entries(tracks@.take(t + 1)).len() <= all.len(),
                edl_entries(tracks@.take(t + 1)) == before + video_of(items@).map_values(
                    |it: SequenceItem| (it, t == 0),
                ),
                forall|a: i64, f: Fps, m: TimecodeFormat| call_requires(*timecode, (a, f, m)),
                0 <= j <= ni,
                header == edl_header(sequence.name@),
                count == tcs.len(),
                tcs.len() == before.len() + video_of(items@.take(j as int)).len(),
                forall|k: int|
                    0 <= k < tcs.len() ==> timecodes_for(
                        *timecode,
                        (before + video_of(items@.take(j as int)).map_values(
                            |it: SequenceItem| (it, t == 0),
                        ))[k].0,
                        fps,
                        fmt,
                        #[trigger] tcs[k],
                    ),
                text@ == header + edl_lines(
                    before + video_of(items@.take(j as int)).map_values(|it: SequenceItem| (it, t == 0)),
                    tcs,
                ),
            decreases ni - j,
        {
            let item = &items[j];
            let ghost es = before + video_of(items@.take(j as int)).map_values(|it: SequenceItem| (it, t == 0));
            proof {
                lemma_video_of_step(items@, j as int);
            }
            let ghost es2 = before + video_of(items@.take(j + 1)).map_values(|it: SequenceItem| (it, t == 0));
            let is_video = match &item.kind {
                ItemKind::Video { .. } => true,
                _ => false,
            };
            if is_video {
                assert(sequence.tracks@[t as int].items@[j as int] == *item);
                assert(i64::MIN <= item.from + item.duration_in_frames <= i64::MAX);
                assert(es2 =~= es.push((*item, first)));
                proof {
                    lemma_video_of_len(items@, j + 1);
                    assert(video_of(items@).map_values(|it: SequenceItem| (it, t == 0)).len() == video_of(
                        items@,
                    ).len());
                }
                assert(count < i32::MAX);
                count = count + 1;
                let tc: EventTimecodes = (
                    timecode(0, fps, fmt),
                    timecode(item.duration_in_frames, fps, fmt),
                    timecode(item.from, fps, fmt),
                    timecode(item.from + item.duration_in_frames, fps, fmt),
                );
                let line = event_line(count, item, first, &tc);
                proof {
                    lemma_lines_push(es, tcs, (*item, first), tc);
                    tcs = tcs.push(tc);
                }
                text.append(line.as_str());
            } else {
                assert(es2 =~= es);
            }
            j = j + 1;
        }
        proof {
            assert(items@.take(ni as int) =~= items@);
        }
        t = t + 1;
    }
    assert(tracks@.take(nt as int) =~= tracks@);
    assert(edl_text_with(text@, *sequence, fmt, *timecode, tcs));
    text
}

/// Whether `s` can be listed (see [`edl_fits`]).
pub fn check_edl_fits(s: &Sequence) -> (b: bool)
    ensures
        b == edl_fits(*s),
{
    let tracks = &s.tracks;
    let nt = tracks.len();
    let mut count: u64 = 0;
    let mut t: usize = 0;
    while t < nt
        invariant
            nt == tracks@.len(),
            *tracks == s.tracks,
            0 <= t <= nt,
            count == edl_entries(tracks@.take(t as int)).len(),
            count < i32::MAX,
            forall|u: int, i: int|
                0 <= u < t && 0 <= i < s.tracks@[u].items@.len() && (#[trigger] s.tracks@[u].items@[i]).kind
                    is Video ==> i64::MIN <= s.tracks@[u].items@[i].from + s.tracks@[u].items@[i].duration_in_frames
                    <= i64::MAX,
        decreases nt - t,
    {
        let items = &tracks[t].items;
        let ni = items.len();
        proof {
            lemma_entries_step(tracks@, t as int);
            lemma_entries_prefix(tracks@, t + 1);
        }
        let mut i: usize = 0;
        while i < ni
            invariant
                nt == tracks@.len(),
                *tracks == s.tracks,
                0 <= t < nt,
                *items == tracks@[t as int].items,
                ni == items@.len(),
                0 <= i <= ni,
                count == edl_entries(tracks@.take(t as int)).len() + video_of(items@.take(i as int)).len(),
                count < i32::MAX,
                edl_entries(tracks@.take(t + 1)) == edl_entries(tracks@.take(t as int)) + video_of(items@).map_values(
                    |it: SequenceItem| (it, t == 0),
                ),
                edl_entries(tracks@.take(t + 1)).len() <= edl_entries(tracks@).len(),
                forall|u: int, k: int|
                    0 <= u < t && 0 <= k < s.tracks@[u].items@.len() && (#[trigger] s.tracks@[u].items@[k]).kind
                        is Video ==> i64::MIN <= s.tracks@[u].items@[k].from + s.tracks@[u].items@[k].duration_in_frames
                        <= i64::MAX,
                forall|k: int|
                    0 <= k < i && (#[trigger] items@[k]).kind is Video ==> i64::MIN <= items@[k].from
                        + items@[k].duration_in_frames <= i64::MAX,
            decreases ni - i,
        {
            let it = &items[i];
            proof {
                lemma_video_of_step(items@, i as int);
                lemma_video_of_len(items@, i + 1);
            }
            let is_video = match &it.kind {
                ItemKind::Video { .. } => true,
                _ => false,
            };
            if is_video {
                assert(s.tracks@[t as int].items@[i as int] == *it);
                if it.from.checked_add(it.duration_in_frames).is_none() {
                    return false;
                }
                if count + 1 >= 0x7fff_ffff {
                    proof {
                        assert(video_of(items@).map_values(|it: SequenceItem| (it, t == 0)).len() == video_of(
                            items@,
                        ).len());
                    }
                    return false;
                }
                count = count + 1;
            }
            i = i + 1;
        }
        assert(items@.take(ni as int) =~= items@);
        assert forall|u: int, k: int|
            0 <= u < t + 1 && 0 <= k < s.tracks@[u].items@.len() && (#[trigger] s.tracks@[u].items@[k]).kind
                is Video implies i64::MIN <= s.tracks@[u].items@[k].from + s.tracks@[u].items@[k].duration_in_frames
                <= i64::MAX by {
            if u == t {
                assert(s.tracks@[u].items@[k] == items@[k]);
            }
        }
        t = t + 1;
    }
    assert(tracks@.take(nt as int) =~= tracks@);
    true
}

} // verus!
