//! Plugin manifests and parameter definitions.

use vstd::prelude::*;
use std::path::PathBuf;
use crate::effect::{ParamValue, Params, inserted};
use crate::ids::PluginId;
use crate::num::{F32Bits, F64Bits};

verus! {

#[verifier::external_type_specification]
#[verifier::external_body]
pub struct ExPathBuf(PathBuf);

/// `PathBuf::clone`: the copy holds the same path.
pub assume_specification[ <PathBuf as Clone>::clone ](p: &PathBuf) -> (r: PathBuf)
    ensures
        r == *p,
;

/// Where the plugin binary lives on disk.
#[derive(Debug, Clone)]
pub enum PluginSource {
    WasmFile(PathBuf),
    OfxBundle(PathBuf),
}

impl PluginSource {
    pub fn path(&self) -> (p: &PathBuf)
        ensures
            match *self {
                PluginSource::WasmFile(q) => *p == q,
                PluginSource::OfxBundle(q) => *p == q,
            },
    {
        match self {
            PluginSource::WasmFile(p) => p,
            PluginSource::OfxBundle(p) => p,
        }
    }

    pub fn is_wasm(&self) -> (b: bool)
        ensures
            b == (*self is WasmFile),
    {
        match self {
            PluginSource::WasmFile(_) => true,
            _ => false,
        }
    }

    pub fn is_ofx(&self) -> (b: bool)
        ensures
            b == (*self is OfxBundle),
    {
        match self {
            PluginSource::OfxBundle(_) => true,
            _ => false,
        }
    }
}

/// High-level grouping used by the plugin browser.
#[derive(Debug, Clone, Copy, PartialEq, Eq, Structural)]
pub enum PluginCategory {
    ColorGrade,
    Keying,
    BlurSharpen,
    Stylize,
    Overlay,
    Audio,
    Other,
}

impl PluginCategory {
    pub fn label(&self) -> (s: &'static str)
        ensures
            s@ == match *self {
                PluginCategory::ColorGrade => "Color Grade"@,
                PluginCategory::Keying => "Keying"@,
                PluginCategory::BlurSharpen => "Blur / Sharpen"@,
                PluginCategory::Stylize => "Stylize"@,
                PluginCategory::Overlay => "Overlay"@,
                PluginCategory::Audio => "Audio"@,
                PluginCategory::Other => "Other"@,
            },
    {
        match self {
            PluginCategory::ColorGrade => "Color Grade",
            PluginCategory::Keying => "Keying",
            PluginCategory::BlurSharpen => "Blur / Sharpen",
            PluginCategory::Stylize => "Stylize",
            PluginCategory::Overlay => "Overlay",
            PluginCategory::Audio => "Audio",
            PluginCategory::Other => "Other",
        }
    }
}

/// The type (and constraints) of a plugin parameter.
#[derive(Debug, Clone)]
pub enum PluginParamKind {
    Float { min: F64Bits, max: F64Bits, default: F64Bits },
    Int { min: i64, max: i64, default: i64 },
    Bool { default: bool },
    Color { default: [F32Bits; 4] },
    Choice { choices: Vec<String>, default: usize },
    FilePath,
    Point { default: [F64Bits; 2] },
}

/// The default value of a parameter kind.
pub open spec fn default_of(kind: PluginParamKind, v: ParamValue) -> bool {
    match kind {
        PluginParamKind::Float { default, .. } => v == ParamValue::Float(default),
        PluginParamKind::Int { default, .. } => v == ParamValue::Int(default),
        PluginParamKind::Bool { default } => v == ParamValue::Bool(default),
        PluginParamKind::Color { default } => v matches ParamValue::Floats32(c) && c@ == default@,
        PluginParamKind::Choice { default, .. } => v == ParamValue::UInt(default as u64),
        PluginParamKind::FilePath => v matches ParamValue::Text(t) && t@.len() == 0,
        PluginParamKind::Point { default } => v matches ParamValue::Floats64(p) && p@ == default@,
    }
}

impl PluginParamKind {
    /// The value a new effect instance starts with for this parameter.
    pub fn default_value(&self) -> (v: ParamValue)
        ensures
            default_of(*self, v),
    {
        match self {
            PluginParamKind::Float { default, .. } => ParamValue::Float(*default),
            PluginParamKind::Int { default, .. } => ParamValue::Int(*default),
            PluginParamKind::Bool { default } => ParamValue::Bool(*default),
            PluginParamKind::Color { default } => {
                let mut c: Vec<F32Bits> = Vec::new();
                c.push(default[0]);
                c.push(default[1]);
                c.push(default[2]);
                c.push(default[3]);
                assert(c@ =~= default@);
                ParamValue::Floats32(c)
            },
            PluginParamKind::Choice { default, .. } => ParamValue::UInt(*default as u64),
            PluginParamKind::FilePath => ParamValue::Text(String::new()),
            PluginParamKind::Point { default } => {
                let mut p: Vec<F64Bits> = Vec::new();
                p.push(default[0]);
                p.push(default[1]);
                assert(p@ =~= default@);
                ParamValue::Floats64(p)
            },
        }
    }
}

/// Declaration of a single parameter exposed by a plugin.
#[derive(Debug, Clone)]
pub struct PluginParamDef {
    /// Stable identifier used as the key in an effect's parameters.
    pub id: String,
    /// Human-readable name.
    pub name: String,
    pub kind: PluginParamKind,
}

impl PluginParamDef {
    pub fn new(id: String, name: String, kind: PluginParamKind) -> (d: Self)
        ensures
            d.id == id && d.name == name && d.kind == kind,
    {
        PluginParamDef { id, name, kind }
    }
}

/// Everything the host needs to know about a plugin before loading it.
#[derive(Debug, Clone)]
pub struct PluginManifest {
    pub id: PluginId,
    pub name: String,
    pub version: String,
    pub author: String,
    pub description: String,
    pub category: PluginCategory,
    pub source: PluginSource,
    pub params: Vec<PluginParamDef>,
    /// Minimum Rook version this plugin requires (semver).
    pub min_rook_version: String,
    /// Number of times this plugin has crashed.
    pub crash_count: u32,
    /// Auto-disabled after too many crashes.
    pub disabled: bool,
}

/// `trace` records the parameter object after each definition of `defs` is
/// bound in order (starting empty), `vals[i]` being the default of `defs[i]`;
/// each binding replaces an earlier one for the same id.
pub open spec fn defaults_trace(
    defs: Seq<PluginParamDef>,
    trace: Seq<Seq<(String, ParamValue)>>,
    vals: Seq<ParamValue>,
) -> bool {
    &&& trace.len() == defs.len() + 1
    &&& vals.len() == defs.len()
    &&& trace[0].len() == 0
    &&& forall|i: int|
        0 <= i < defs.len() ==> default_of(defs[i].kind, #[trigger] vals[i]) && inserted(
            trace[i],
            trace[i + 1],
            defs[i].id@,
            vals[i],
        )
}

/// `entries` is the parameter object obtained by binding every definition
/// of `defs` to its default, in order.
pub open spec fn defaults_built(defs: Seq<PluginParamDef>, entries: Seq<(String, ParamValue)>) -> bool {
    exists|trace: Seq<Seq<(String, ParamValue)>>, vals: Seq<ParamValue>|
        #[trigger] defaults_trace(defs, trace, vals) && trace.last() == entries
}

impl PluginManifest {
    pub fn new(
        name: String,
        author: String,
        description: String,
        category: PluginCategory,
        source: PluginSource,
    ) -> (m: Self)
        ensures
            m.id.0 != 0,
            m.name == name && m.author == author && m.description == description,
            m.category == category && m.source == source,
            m.params@.len() == 0,
            m.version@ == "0.1.0"@,
            m.min_rook_version@ == "0.1.0"@,
            m.crash_count == 0,
            !m.disabled,
    {
        PluginManifest {
            id: PluginId::next(),
            name,
            version: String::from_str("0.1.0"),
            author,
            description,
            category,
            source,
            params: Vec::new(),
            min_rook_version: String::from_str("0.1.0"),
            crash_count: 0,
            disabled: false,
        }
    }

    /// Builder: append a parameter definition.
    pub fn with_param(self, param: PluginParamDef) -> (m: Self)
        ensures
            m.params@ == self.params@.push(param),
            m.id == self.id && m.name == self.name && m.source == self.source,
            m.category == self.category,
    {
        let mut m = self;
        m.params.push(param);
        m
    }

    pub fn is_wasm(&self) -> (b: bool)
        ensures
            b == (self.source is WasmFile),
    {
        self.source.is_wasm()
    }

    pub fn is_ofx(&self) -> (b: bool)
        ensures
            b == (self.source is OfxBundle),
    {
        self.source.is_ofx()
    }

    /// The parameter object for a new instance: each parameter id bound to
    /// its kind's default value.
    pub fn default_params(&self) -> (p: Params)
        ensures
            p matches Params::Object(entries) && defaults_built(self.params@, entries@),
    {
        let mut entries: Vec<(String, ParamValue)> = Vec::new();
        let mut i: usize = 0;
        let ghost mut trace: Seq<Seq<(String, ParamValue)>> = seq![entries@];
        let ghost mut vals: Seq<ParamValue> = Seq::empty();
        while i < self.params.len()
            invariant
                0 <= i <= self.params@.len(),
                defaults_trace(self.params@.take(i as int), trace, vals),
                trace.last() == entries@,
            decreases self.params@.len() - i,
        {
            let v = self.params[i].kind.default_value();
            crate::effect::insert_entry(&mut entries, self.params[i].id.as_str(), v);
            proof {
                let defs = self.params@.take(i + 1);
                let t2 = trace.push(entries@);
                let v2 = vals.push(v);
                assert forall|j: int| 0 <= j < defs.len() implies default_of(defs[j].kind, #[trigger] v2[j])
                    && inserted(t2[j], t2[j + 1], defs[j].id@, v2[j]) by {
                    if j < i {
                        assert(defs[j] == self.params@.take(i as int)[j]);
                    }
                }
                trace = t2;
                vals = v2;
            }
            i = i + 1;
        }
        assert(self.params@.take(i as int) =~= self.params@);
        assert(defaults_trace(self.params@, trace, vals) && trace.last() == entries@);
        Params::Object(entries)
    }
}

} // verus!
