//! Effects and filters with their parameter objects.

use vstd::prelude::*;
use crate::ids::{EffectId, PluginId};
use crate::num::{F32Bits, F64Bits};

verus! {

/// The category of a filter / effect.
#[derive(Debug, Clone)]
pub enum EffectKind {
    Brightness,
    Contrast,
    Saturation,
    HueRotate,
    Exposure,
    ColorBalance,
    ColorWheels,
    ColorCurves,
    Lut3D,
    GaussianBlur,
    Sharpen,
    Glow,
    ChromaKey,
    LumaKey,
    Transform,
    Distort,
    Vignette,
    FilmGrain,
    Noise,
    TextOverlay,
    Timecode,
    Eq,
    Compressor,
    Limiter,
    NoiseGate,
    Reverb,
    Delay,
    PitchShift,
    Custom(String),
    /// A user-installed plugin identified by its manifest id.
    Plugin(PluginId),
}

/// One parameter value.  Values produced by the library itself keep their
/// type; any other JSON value is carried as its serialized text.
#[derive(Debug, Clone)]
pub enum ParamValue {
    /// Any JSON value, as JSON text.
    Json(String),
    Int(i64),
    UInt(u64),
    Float(F64Bits),
    Bool(bool),
    Text(String),
    Floats32(Vec<F32Bits>),
    Floats64(Vec<F64Bits>),
}

/// The parameters of an effect: normally a JSON object (an association list
/// with distinct keys), otherwise a single non-object value.
#[derive(Debug, Clone)]
pub enum Params {
    Object(Vec<(String, ParamValue)>),
    Other(ParamValue),
}

/// Position of the first entry whose key is `key`, or the length when none is.
pub open spec fn key_pos(entries: Seq<(String, ParamValue)>, key: Seq<char>) -> int {
    if exists|i: int| 0 <= i < entries.len() && entries[i].0@ == key {
        choose|i: int|
            0 <= i < entries.len() && entries[i].0@ == key && forall|j: int|
                0 <= j < i ==> entries[j].0@ != key
    } else {
        entries.len() as int
    }
}

/// `post` is `pre` with `key` bound to `value`: the entry for `key` is
/// replaced in place, or appended when there was none.
#[verifier::opaque]
pub open spec fn inserted(
    pre: Seq<(String, ParamValue)>,
    post: Seq<(String, ParamValue)>,
    key: Seq<char>,
    value: ParamValue,
) -> bool {
    let p = key_pos(pre, key);
    &&& post.len() == (if p < pre.len() { pre.len() as int } else { pre.len() + 1int })
    &&& post[p].0@ == key
    &&& post[p].1 == value
    &&& forall|j: int| 0 <= j < pre.len() && j != p ==> post[j] == pre[j]
}

proof fn lemma_key_pos_found(entries: Seq<(String, ParamValue)>, key: Seq<char>, i: int)
    requires
        0 <= i < entries.len(),
        entries[i].0@ == key,
        forall|j: int| 0 <= j < i ==> entries[j].0@ != key,
    ensures
        key_pos(entries, key) == i,
{
    let k = key_pos(entries, key);
    assert(0 <= k < entries.len() && entries[k].0@ == key && forall|j: int|
        0 <= j < k ==> entries[j].0@ != key);
    if k < i {
        assert(entries[k].0@ != key);
    }
    if i < k {
        assert(entries[i].0@ != key);
    }
}

/// Bind `key` to `value` in an association list.
pub fn insert_entry(entries: &mut Vec<(String, ParamValue)>, key: &str, value: ParamValue)
    ensures
        inserted(old(entries)@, final(entries)@, key@, value),
{
    reveal(inserted);
    let ghost pre = entries@;
    let mut i: usize = 0;
    let k = key.to_owned();
    while i < entries.len()
        invariant
            0 <= i <= entries.len(),
            entries@ == pre,
            pre == old(entries)@,
            k@ == key@,
            forall|j: int| 0 <= j < i ==> pre[j].0@ != key@,
        decreases entries.len() - i,
    {
        if entries[i].0 == k {
            proof {
                lemma_key_pos_found(pre, key@, i as int);
            }
            entries.set(i, (k, value));
            proof {
                reveal(inserted);
            }
            return;
        }
        i = i + 1;
    }
    assert(key_pos(pre, key@) == pre.len());
    entries.push((k, value));
}

/// An effect instance on a clip or track, with its parameter values.
#[derive(Debug, Clone)]
pub struct EffectInstance {
    pub id: EffectId,
    pub kind: EffectKind,
    /// Whether this effect is currently active.
    pub enabled: bool,
    pub params: Params,
}

impl EffectInstance {
    /// A new enabled effect of `kind` with an empty parameter object.
    pub fn new(kind: EffectKind) -> (e: Self)
        ensures
            e.id.0 != 0,
            e.kind == kind,
            e.enabled,
            e.params matches Params::Object(v) && v.len() == 0,
    {
        EffectInstance { id: EffectId::next(), kind, enabled: true, params: Params::Object(Vec::new()) }
    }

    pub fn id(&self) -> (r: EffectId)
        ensures
            r == self.id,
    {
        self.id
    }

    /// Builder form of parameter setting: binds `key` when the parameters are
    /// an object, and leaves any other parameter value untouched.
    pub fn with_param(self, key: &str, value: ParamValue) -> (e: Self)
        ensures
            e.id == self.id && e.kind == self.kind && e.enabled == self.enabled,
            match self.params {
                Params::Object(pre) => e.params matches Params::Object(post) && inserted(
                    pre@,
                    post@,
                    key@,
                    value,
                ),
                Params::Other(v) => e.params == Params::Other(v),
            },
    {
        let mut e = self;
        match e.params {
            Params::Object(mut entries) => {
                insert_entry(&mut entries, key, value);
                e.params = Params::Object(entries);
                e
            },
            Params::Other(v) => {
                e.params = Params::Other(v);
                e
            },
        }
    }

    /// Set a single parameter: binds `key` in the parameter object, or
    /// replaces a non-object parameter value with the object `{key: value}`.
    pub fn set_param(&mut self, key: &str, value: ParamValue)
        ensures
            final(self).id == old(self).id,
            final(self).kind == old(self).kind,
            final(self).enabled == old(self).enabled,
            match old(self).params {
                Params::Object(pre) => final(self).params matches Params::Object(post) && inserted(
                    pre@,
                    post@,
                    key@,
                    value,
                ),
                Params::Other(_) => final(self).params matches Params::Object(post) && post.len()
                    == 1 && post[0].0@ == key@ && post[0].1 == value,
            },
    {
        let mut p = Params::Object(Vec::new());
        std::mem::swap(&mut p, &mut self.params);
        match p {
            Params::Object(mut entries) => {
                insert_entry(&mut entries, key, value);
                self.params = Params::Object(entries);
            },
            Params::Other(_) => {
                let mut entries: Vec<(String, ParamValue)> = Vec::new();
                entries.push((key.to_owned(), value));
                self.params = Params::Object(entries);
            },
        }
    }
}

} // verus!
