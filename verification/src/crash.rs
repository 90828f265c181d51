//! Crash reports left by a session that ended in a panic.

use vstd::prelude::*;
use vstd::string::StringExecFns;
use crate::text::chars_of;

verus! {

/// What is written down about a crash.
#[derive(Debug, Clone)]
pub struct CrashReport {
    /// Unix seconds when the crash occurred.
    pub timestamp_secs: u64,
    /// Human-readable timestamp.
    pub timestamp_iso: String,
    /// Panic message.
    pub message: String,
    /// Best-effort backtrace (may be empty).
    pub backtrace: String,
    /// Name of the thread that crashed.
    pub thread: String,
    /// Operating system name.
    pub platform: String,
    /// Version of the editor.
    pub version: String,
}

/// The crash reporter; installing it is the process's business.
#[derive(Debug, Clone, Copy)]
pub struct CrashReporter {
    _private: (),
}

impl CrashReporter {
    /// The handle returned once the hooks are in place.
    pub fn installed() -> (r: Self) {
        CrashReporter { _private: () }
    }
}

/// `s` begins with `p`.
pub open spec fn starts_with(s: Seq<char>, p: Seq<char>) -> bool {
    p.len() <= s.len() && s.subrange(0, p.len() as int) == p
}

/// `s` ends with `p`.
pub open spec fn ends_with(s: Seq<char>, p: Seq<char>) -> bool {
    p.len() <= s.len() && s.subrange(s.len() - p.len(), s.len() as int) == p
}

/// Whether `v[at..]` begins with `p`.
pub(crate) fn chars_match_at(v: &Vec<char>, at: usize, p: &Vec<char>) -> (b: bool)
    requires
        at + p@.len() <= v@.len(),
    ensures
        b == (v@.subrange(at as int, at + p@.len()) == p@),
{
    let n = v.len();
    let mut i: usize = 0;
    while i < p.len()
        invariant
            at + p@.len() <= v@.len(),
            n == v@.len(),
            0 <= i <= p@.len(),
            forall|j: int| 0 <= j < i ==> v@[at + j] == p@[j],
        decreases p@.len() - i,
    {
        if v[at + i] != p[i] {
            proof {
                assert(v@.subrange(at as int, at + p@.len())[i as int] != p@[i as int]);
            }
            return false;
        }
        i = i + 1;
    }
    assert(v@.subrange(at as int, at + p@.len()) =~= p@);
    true
}

/// Whether `s` begins with `p`.
pub fn text_starts_with(s: &str, p: &str) -> (b: bool)
    ensures
        b == starts_with(s@, p@),
{
    let v = chars_of(s);
    let w = chars_of(p);
    if w.len() > v.len() {
        return false;
    }
    chars_match_at(&v, 0, &w)
}

/// Whether `s` ends with `p`.
pub fn text_ends_with(s: &str, p: &str) -> (b: bool)
    ensures
        b == ends_with(s@, p@),
{
    let v = chars_of(s);
    let w = chars_of(p);
    if w.len() > v.len() {
        return false;
    }
    chars_match_at(&v, v.len() - w.len(), &w)
}

/// A file of the crash directory that belongs to the reporter.
pub fn is_crash_file(name: &str) -> (b: bool)
    ensures
        b == starts_with(name@, "crash-"@),
{
    text_starts_with(name, "crash-")
}

/// A crash report file: `crash-*.json`.
pub fn is_crash_report_file(name: &str) -> (b: bool)
    ensures
        b == (starts_with(name@, "crash-"@) && ends_with(name@, ".json"@)),
{
    text_starts_with(name, "crash-") && text_ends_with(name, ".json")
}

/// The file name of the report stamped `stamp`.
pub fn crash_file_name(stamp: &str) -> (r: String)
    ensures
        r@ == "crash-"@ + stamp@ + ".json"@,
{
    String::from_str("crash-").concat(stamp).concat(".json")
}

/// Position of the newest report among reports stamped `stamps`: the first
/// of the latest stamps; `None` when there is none.
pub fn newest_report(stamps: &Vec<u64>) -> (r: Option<usize>)
    ensures
        r is None <==> stamps@.len() == 0,
        r matches Some(i) ==> i < stamps@.len() && (forall|j: int| 0 <= j < stamps@.len() ==> stamps@[j] <= stamps@[i as int])
            && (forall|j: int| 0 <= j < i ==> stamps@[j] < stamps@[i as int]),
{
    if stamps.len() == 0 {
        return None;
    }
    let mut best: usize = 0;
    let mut i: usize = 1;
    while i < stamps.len()
        invariant
            0 < i <= stamps@.len(),
            best < i,
            forall|j: int| 0 <= j < i ==> stamps@[j] <= stamps@[best as int],
            forall|j: int| 0 <= j < best ==> stamps@[j] < stamps@[best as int],
        decreases stamps@.len() - i,
    {
        if stamps[i] > stamps[best] {
            best = i;
        }
        i = i + 1;
    }
    Some(best)
}

} // verus!
