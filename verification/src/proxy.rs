//! Progress of a background proxy transcode: the transcoder reports
//! `key=value` lines on its output, and `progress=end` marks the end.

use vstd::prelude::*;
use crate::crash::{starts_with, text_starts_with};
use crate::media::{trimmed, trimmed_bounds};
use crate::text::chars_of;

verus! {

/// The text of a line of bytes, invalid UTF-8 replaced as
/// `String::from_utf8_lossy` does.
pub uninterp spec fn lossy_text(bytes: Seq<u8>) -> Seq<char>;

/// `String::from_utf8_lossy`: the bytes read as UTF-8, each invalid
/// sequence replaced by U+FFFD.  Its result is named [`lossy_text`]; nothing
/// more is claimed of it.
#[verifier::external_body]
fn utf8_lossy(bytes: &[u8]) -> (r: String)
    ensures
        r@ == lossy_text(bytes@),
{
    String::from_utf8_lossy(bytes).to_string()
}

/// A progress line that reports the end: `progress=` followed by `end`,
/// white space around it allowed.
pub open spec fn is_progress_end(line: Seq<char>) -> bool {
    starts_with(line, "progress="@) && trimmed(line.skip(9)) == "end"@
}

/// Whether the text `line` reports the end of the transcode (see
/// [`is_progress_end`]).
pub fn progress_line_ends(line: &str) -> (b: bool)
    ensures
        b == is_progress_end(line@),
{
    proof {
        reveal_strlit("progress=");
        reveal_strlit("end");
    }
    if !text_starts_with(line, "progress=") {
        return false;
    }
    let v = chars_of(line);
    let mut rest: Vec<char> = Vec::new();
    let mut i: usize = 9;
    while i < v.len()
        invariant
            9 <= v@.len(),
            9 <= i <= v@.len(),
            rest@ == v@.subrange(9, i as int),
        decreases v@.len() - i,
    {
        rest.push(v[i]);
        assert(rest@ =~= v@.subrange(9, i + 1));
        i = i + 1;
    }
    assert(rest@ =~= line@.skip(9));
    let (a, b) = trimmed_bounds(&rest);
    let r = b - a == 3 && rest[a] == 'e' && rest[a + 1] == 'n' && rest[a + 2] == 'd';
    proof {
        let t = rest@.subrange(a as int, b as int);
        if r {
            assert(t =~= "end"@);
        }
        if t == "end"@ {
            assert(t[0] == 'e' && t[1] == 'n' && t[2] == 'd');
        }
        assert("end"@ =~= seq!['e', 'n', 'd']);
        if b - a == 3 {
            assert(t[0] == rest@[a as int] && t[1] == rest@[a + 1] && t[2] == rest@[a + 2]);
        }
        assert(r == (t == "end"@));
        assert(trimmed(line@.skip(9)) == t);
        assert(starts_with(line@, "progress="@));
    }
    r
}

/// Position of the first newline byte of `s`.
pub open spec fn newline_pos(s: Seq<u8>) -> Option<int> {
    if exists|i: int| 0 <= i < s.len() && s[i] == 10u8 {
        Some(choose|i: int| 0 <= i < s.len() && s[i] == 10u8 && forall|j: int| 0 <= j < i ==> s[j] != 10u8)
    } else {
        None
    }
}

/// The complete lines of `s` (each without its newline), in order.
#[verifier::opaque]
pub open spec fn complete_lines(s: Seq<u8>) -> Seq<Seq<u8>>
    decreases s.len(),
{
    match newline_pos(s) {
        Some(p) => if 0 <= p < s.len() {
            seq![s.subrange(0, p)] + complete_lines(s.skip(p + 1))
        } else {
            Seq::empty()
        },
        None => Seq::empty(),
    }
}

/// What is left of `s` once its complete lines are taken: the bytes after
/// its last newline.
#[verifier::opaque]
pub open spec fn partial_tail(s: Seq<u8>) -> Seq<u8>
    decreases s.len(),
{
    match newline_pos(s) {
        Some(p) => if 0 <= p < s.len() {
            partial_tail(s.skip(p + 1))
        } else {
            s
        },
        None => s,
    }
}

/// Some line of `lines` reports the end of the transcode.
pub open spec fn any_end(lines: Seq<Seq<u8>>) -> bool {
    exists|i: int| 0 <= i < lines.len() && is_progress_end(lossy_text(#[trigger] lines[i]))
}

/// Some complete line of `s` reports the end of the transcode.
pub open spec fn reports_end(s: Seq<u8>) -> bool {
    any_end(complete_lines(s))
}

proof fn lemma_any_end_push(lines: Seq<Seq<u8>>, l: Seq<u8>)
    ensures
        any_end(lines.push(l)) == (any_end(lines) || is_progress_end(lossy_text(l))),
{
    let ls = lines.push(l);
    if any_end(lines) {
        let i = choose|i: int| 0 <= i < lines.len() && is_progress_end(lossy_text(#[trigger] lines[i]));
        assert(ls[i] == lines[i]);
    }
    if is_progress_end(lossy_text(l)) {
        assert(ls[lines.len() as int] == l);
    }
    if any_end(ls) {
        let i = choose|i: int| 0 <= i < ls.len() && is_progress_end(lossy_text(#[trigger] ls[i]));
        if i < lines.len() {
            assert(ls[i] == lines[i]);
        }
    }
}

proof fn lemma_take_line(before: Seq<u8>, p: int, done: Seq<Seq<u8>>, orig: Seq<u8>)
    requires
        newline_pos(before) == Some(p),
        0 <= p < before.len(),
        done + complete_lines(before) == complete_lines(orig),
        partial_tail(before) == partial_tail(orig),
    ensures
        done.push(before.subrange(0, p)) + complete_lines(before.skip(p + 1)) == complete_lines(orig),
        partial_tail(before.skip(p + 1)) == partial_tail(orig),
{
    let l = before.subrange(0, p);
    let rest = complete_lines(before.skip(p + 1));
    assert(complete_lines(before) == seq![l] + rest) by {
        reveal(complete_lines);
    }
    assert(partial_tail(before) == partial_tail(before.skip(p + 1))) by {
        reveal(partial_tail);
    }
    assert(done.push(l) + rest =~= done + (seq![l] + rest));
}

/// Position of the first newline of `buf`.
fn find_newline(buf: &Vec<u8>) -> (r: Option<usize>)
    ensures
        r matches Some(p) ==> newline_pos(buf@) == Some(p as int) && p < buf@.len(),
        r is None ==> newline_pos(buf@) is None,
{
    let mut i: usize = 0;
    while i < buf.len()
        invariant
            0 <= i <= buf@.len(),
            forall|j: int| 0 <= j < i ==> buf@[j] != 10u8,
        decreases buf@.len() - i,
    {
        if buf[i] == 10u8 {
            proof {
                let w = newline_pos(buf@)->0;
                if w < i {
                    assert(buf@[w] != 10u8);
                }
                if i < w {
                    assert(buf@[i as int] != 10u8);
                }
            }
            return Some(i);
        }
        i = i + 1;
    }
    None
}

/// The bytes of `buf` before position `p`, and those after it.
fn split_around(buf: &Vec<u8>, p: usize) -> (r: (Vec<u8>, Vec<u8>))
    requires
        p < buf@.len(),
    ensures
        r.0@ == buf@.subrange(0, p as int),
        r.1@ == buf@.skip(p + 1),
{
    let n = buf.len();
    let mut line: Vec<u8> = Vec::new();
    let mut k: usize = 0;
    while k < p
        invariant
            p < n,
            n == buf@.len(),
            0 <= k <= p,
            line@ == buf@.subrange(0, k as int),
        decreases p - k,
    {
        line.push(buf[k]);
        assert(line@ =~= buf@.subrange(0, k + 1));
        k = k + 1;
    }
    let mut rest: Vec<u8> = Vec::new();
    let mut m: usize = p + 1;
    while m < n
        invariant
            p < n,
            n == buf@.len(),
            p + 1 <= m <= n,
            rest@ == buf@.subrange(p + 1, m as int),
        decreases n - m,
    {
        rest.push(buf[m]);
        assert(rest@ =~= buf@.subrange(p + 1, m + 1));
        m = m + 1;
    }
    assert(rest@ =~= buf@.skip(p + 1));
    (line, rest)
}

/// Whether the line of bytes `line` reports the end of the transcode.
fn line_reports_end(line: &Vec<u8>) -> (b: bool)
    ensures
        b == is_progress_end(lossy_text(line@)),
{
    let text = utf8_lossy(line.as_slice());
    progress_line_ends(text.as_str())
}

/// Take the complete lines out of `buf`, leaving the partial last line;
/// returns whether one of them reported the end of the transcode.
pub fn drain_progress_lines(buf: &mut Vec<u8>) -> (ended: bool)
    ensures
        final(buf)@ == partial_tail(old(buf)@),
        ended == reports_end(old(buf)@),
{
    let ghost orig = buf@;
    let ghost mut done_lines: Seq<Seq<u8>> = Seq::empty();
    let mut ended = false;
    assert(done_lines + complete_lines(buf@) =~= complete_lines(orig));
    loop
        invariant
            orig == old(buf)@,
            done_lines + complete_lines(buf@) == complete_lines(orig),
            partial_tail(buf@) == partial_tail(orig),
            ended == any_end(done_lines),
        decreases buf@.len(),
    {
        match find_newline(buf) {
            None => {
                proof {
                    reveal(complete_lines);
                    reveal(partial_tail);
                    assert(complete_lines(buf@) == Seq::<Seq<u8>>::empty());
                    assert(partial_tail(buf@) == buf@);
                    assert(done_lines + complete_lines(buf@) =~= done_lines);
                }
                return ended;
            },
            Some(p) => {
                let ghost before = buf@;
                let (line, rest) = split_around(buf, p);
                let hit = line_reports_end(&line);
                ended = ended || hit;
                *buf = rest;
                proof {
                    lemma_take_line(before, p as int, done_lines, orig);
                    lemma_any_end_push(done_lines, before.subrange(0, p as int));
                    done_lines = done_lines.push(before.subrange(0, p as int));
                }
            },
        }
    }
}

} // verus!
