//! The exporter: which writer a format uses, which reader a file is given
//! to, and how asset paths are relinked.

use vstd::prelude::*;
use vstd::string::StringExecFns;
use crate::edl::{edl_fits, edl_text, generate_edl};
use crate::engine::{contains_chars, contains_seq};
use crate::exchange::{
    AssetInfo, ExportConfig, ExportError, ExportFormat, Fps, RelinkResult, RelinkStrategy, Sequence,
    TimecodeFormat,
};
use crate::fcp7::{fcp7_document, generate_fcp7_xml};
use crate::fcpxml::{describes, document_xml, times_fit, FcpXml};
use crate::text::{chars_of, lowercase, to_lower, str_eq};
use crate::xml_out::events_text;

verus! {

/// Writes sequences in the configured format.
pub struct Exporter {
    pub config: ExportConfig,
}

/// The reader a file goes to.
#[derive(Debug, Clone, Copy, PartialEq, Eq, Structural)]
pub enum ImportKind {
    FcpXml,
    Fcp7Xml,
    Edl,
    Json,
    /// XML whose dialect is told by its content.
    Xml,
}

/// The reader for a file extension, compared in lower case.
pub open spec fn kind_for_extension(ext: Option<Seq<char>>) -> Result<ImportKind, Seq<char>> {
    match ext {
        None => Err("Unknown file extension"@),
        Some(e) => {
            let l = lowercase(e);
            if l == "fcpxml"@ {
                Ok(ImportKind::FcpXml)
            } else if l == "xml"@ {
                Ok(ImportKind::Xml)
            } else if l == "edl"@ {
                Ok(ImportKind::Edl)
            } else if l == "json"@ {
                Ok(ImportKind::Json)
            } else {
                Err("Unsupported format: "@ + e)
            }
        },
    }
}

/// The reader for XML content: Final Cut Pro 7 when it mentions `xmeml`,
/// else FCPXML when it mentions `fcpxml`.
pub open spec fn kind_for_xml(content: Seq<char>) -> Result<ImportKind, Seq<char>> {
    if contains_seq(content, "xmeml"@) {
        Ok(ImportKind::Fcp7Xml)
    } else if contains_seq(content, "fcpxml"@) {
        Ok(ImportKind::FcpXml)
    } else {
        Err("Unknown XML format"@)
    }
}

/// `r` is the unsupported-format error with message `m`, or the reader `k`.
pub open spec fn import_result(r: Result<ImportKind, ExportError>, expected: Result<ImportKind, Seq<char>>) -> bool {
    match expected {
        Ok(k) => r == Ok::<ImportKind, ExportError>(k),
        Err(m) => r matches Err(ExportError::UnsupportedFormat(t)) && t@ == m,
    }
}

fn unsupported(m: &str) -> (e: ExportError)
    ensures
        e matches ExportError::UnsupportedFormat(t) && t@ == m@,
{
    ExportError::UnsupportedFormat(String::from_str(m))
}

/// The reader for a file with extension `extension` (none when the file
/// name has no extension or it is not text).
pub fn import_kind_by_extension(extension: Option<&str>) -> (r: Result<ImportKind, ExportError>)
    ensures
        import_result(
            r,
            kind_for_extension(
                match extension {
                    Some(e) => Some(e@),
                    None => None,
                },
            ),
        ),
{
    match extension {
        None => Err(unsupported("Unknown file extension")),
        Some(e) => {
            let l = to_lower(e);
            if str_eq(l.as_str(), "fcpxml") {
                Ok(ImportKind::FcpXml)
            } else if str_eq(l.as_str(), "xml") {
                Ok(ImportKind::Xml)
            } else if str_eq(l.as_str(), "edl") {
                Ok(ImportKind::Edl)
            } else if str_eq(l.as_str(), "json") {
                Ok(ImportKind::Json)
            } else {
                let m = String::from_str("Unsupported format: ").concat(e);
                Err(ExportError::UnsupportedFormat(m))
            }
        },
    }
}

/// The reader for XML content (see [`kind_for_xml`]).
pub fn xml_kind(content: &str) -> (r: Result<ImportKind, ExportError>)
    ensures
        import_result(r, kind_for_xml(content@)),
{
    let text = chars_of(content);
    let xmeml = chars_of("xmeml");
    let fcpxml = chars_of("fcpxml");
    if contains_chars(&text, &xmeml) {
        Ok(ImportKind::Fcp7Xml)
    } else if contains_chars(&text, &fcpxml) {
        Ok(ImportKind::FcpXml)
    } else {
        Err(unsupported("Unknown XML format"))
    }
}

/// The writer a format uses.
pub open spec fn is_fcpxml(f: ExportFormat) -> bool {
    f == ExportFormat::FcpXml1_9 || f == ExportFormat::FcpXml1_10
}

pub open spec fn is_edl(f: ExportFormat) -> bool {
    f == ExportFormat::Edl || f == ExportFormat::AvidEdl
}

/// `r` is the text written for `s` in the configured format: a document
/// that describes `s` for FCPXML (identifiers are random), the skeleton for
/// Final Cut Pro 7, the list for the EDL formats; JSON is left to the
/// caller's serializer (`None`).
pub open spec fn exported<F: Fn(i64, u32) -> String, G: Fn(i64, Fps, TimecodeFormat) -> String>(
    r: Result<Option<String>, anyhow::Error>,
    s: Sequence,
    assets: Seq<AssetInfo>,
    config: ExportConfig,
    seconds: F,
    timecode: G,
) -> bool {
    if is_fcpxml(config.format) {
        r matches Ok(Some(t)) && exists|x: FcpXml|
            #[trigger] describes(x, s, assets, config, seconds) && t@ == events_text(document_xml(x))
    } else if config.format == ExportFormat::Fcp7Xml {
        r matches Ok(Some(t)) && t@ == fcp7_document(s, config)
    } else if is_edl(config.format) {
        r matches Ok(Some(t)) && edl_text(t@, s, config.timecode_format, timecode)
    } else {
        r matches Ok(None)
    }
}

impl Exporter {
    pub fn new(config: ExportConfig) -> (e: Self)
        ensures
            e.config == config,
    {
        Exporter { config }
    }

    /// The text of `sequence` in the configured format (see [`exported`]).
    pub fn export_text<F: Fn(i64, u32) -> String, G: Fn(i64, Fps, TimecodeFormat) -> String>(
        &self,
        sequence: &Sequence,
        assets: &Vec<AssetInfo>,
        seconds: &F,
        timecode: &G,
    ) -> (r: Result<Option<String>, anyhow::Error>)
        requires
            forall|a: i64, b: u32| call_requires(*seconds, (a, b)),
            forall|a: i64, f: Fps, m: TimecodeFormat| call_requires(*timecode, (a, f, m)),
            is_fcpxml(self.config.format) ==> times_fit(*sequence),
            is_edl(self.config.format) ==> edl_fits(*sequence),
        ensures
            exported(r, *sequence, assets@, self.config, *seconds, *timecode),
    {
        match self.config.format {
            ExportFormat::FcpXml1_9 | ExportFormat::FcpXml1_10 => {
                let x = FcpXml::from_sequence(sequence, assets, &self.config, seconds);
                let t = x.to_xml()?;
                assert(describes(x, *sequence, assets@, self.config, *seconds));
                Ok(Some(t))
            },
            ExportFormat::Fcp7Xml => Ok(Some(generate_fcp7_xml(sequence, assets, &self.config))),
            ExportFormat::Edl | ExportFormat::AvidEdl => Ok(
                Some(generate_edl(sequence, assets, &self.config, timecode)),
            ),
            ExportFormat::Json => Ok(None),
        }
    }
}

// ---------------------------------------------------------------------------
// Relinking
// ---------------------------------------------------------------------------

/// Relinking one asset to its relative path: the path becomes the relative
/// one when there is one; otherwise the asset is unchanged and the outcome
/// is a failure.
pub fn relink_relative(asset: &mut AssetInfo) -> (r: RelinkResult)
    ensures
        match old(asset).relative_path {
            Some(p) => r matches RelinkResult::Relinked(q) && q@ == p@ && final(asset).path@ == p@,
            None => r matches RelinkResult::Failed(m) && m@ == "No relative path available"@ && final(asset).path
                == old(asset).path,
        },
        final(asset).relative_path == old(asset).relative_path,
        final(asset).id == old(asset).id,
        final(asset).kind == old(asset).kind,
        final(asset).hash == old(asset).hash,
{
    match &asset.relative_path {
        Some(p) => {
            let q = p.clone();
            asset.path = p.clone();
            RelinkResult::Relinked(q)
        },
        None => RelinkResult::Failed(String::from_str("No relative path available")),
    }
}

/// The path an asset has after an outcome: the new one when relinked.
pub open spec fn path_after(old_path: Seq<char>, r: RelinkResult) -> Seq<char> {
    match r {
        RelinkResult::Relinked(p) => p@,
        _ => old_path,
    }
}

/// Relink every asset by `strategy`: absolute paths and copies stay as
/// they are, relative relinking uses each asset's relative path, and the
/// heuristic search is `search` (which finds a moved file on disk).  The
/// first search error stops the run.
pub fn relink_assets<H: Fn(&AssetInfo) -> Result<RelinkResult, ExportError>>(
    assets: &mut Vec<AssetInfo>,
    strategy: RelinkStrategy,
    search: &H,
) -> (r: Result<Vec<RelinkResult>, ExportError>)
    requires
        forall|a: &AssetInfo| call_requires(*search, (a,)),
    ensures
        final(assets)@.len() == old(assets)@.len(),
        strategy != RelinkStrategy::Heuristic ==> r is Ok,
        r matches Err(e) ==> strategy == RelinkStrategy::Heuristic && exists|k: int|
            0 <= k < old(assets)@.len() && call_ensures(
                *search,
                (&old(assets)@[k],),
                Err::<RelinkResult, ExportError>(e),
            ),
        r matches Ok(results) ==> results@.len() == old(assets)@.len() && forall|k: int|
            0 <= k < results@.len() ==> {
                let before = old(assets)@[k];
                let after = #[trigger] final(assets)@[k];
                &&& after.id == before.id
                &&& after.relative_path == before.relative_path
                &&& match strategy {
                    RelinkStrategy::Absolute | RelinkStrategy::Copy => results@[k] matches RelinkResult::Unchanged
                        && after.path == before.path,
                    RelinkStrategy::Relative => match before.relative_path {
                        Some(p) => results@[k] matches RelinkResult::Relinked(q) && q@ == p@ && after.path@ == p@,
                        None => results@[k] matches RelinkResult::Failed(_) && after.path == before.path,
                    },
                    RelinkStrategy::Heuristic => call_ensures(
                        *search,
                        (&before,),
                        Ok::<RelinkResult, ExportError>(results@[k]),
                    ) && after.path@ == path_after(before.path@, results@[k]),
                }
            },
{
    let n = assets.len();
    let mut results: Vec<RelinkResult> = Vec::new();
    let mut i: usize = 0;
    while i < n
        invariant
            n == assets@.len(),
            n == old(assets)@.len(),
            0 <= i <= n,
            results@.len() == i,
            forall|a: &AssetInfo| call_requires(*search, (a,)),
            forall|k: int| i <= k < n ==> #[trigger] assets@[k] == old(assets)@[k],
            forall|k: int|
                0 <= k < i ==> {
                    let before = old(assets)@[k];
                    let after = #[trigger] assets@[k];
                    &&& after.id == before.id
                    &&& after.relative_path == before.relative_path
                    &&& match strategy {
                        RelinkStrategy::Absolute | RelinkStrategy::Copy => results@[k] matches RelinkResult::Unchanged
                            && after.path == before.path,
                        RelinkStrategy::Relative => match before.relative_path {
                            Some(p) => results@[k] matches RelinkResult::Relinked(q) && q@ == p@ && after.path@
                                == p@,
                            None => results@[k] matches RelinkResult::Failed(_) && after.path == before.path,
                        },
                        RelinkStrategy::Heuristic => call_ensures(
                            *search,
                            (&before,),
                            Ok::<RelinkResult, ExportError>(results@[k]),
                        ) && after.path@ == path_after(before.path@, results@[k]),
                    }
                },
        decreases n - i,
    {
        let result = match strategy {
            RelinkStrategy::Absolute => RelinkResult::Unchanged,
            RelinkStrategy::Copy => RelinkResult::Unchanged,
            RelinkStrategy::Relative => {
                let mut a = assets[i].clone_info();
                let res = relink_relative(&mut a);
                assets.set(i, a);
                res
            },
            RelinkStrategy::Heuristic => {
                match search(&assets[i]) {
                    Ok(res) => {
                        match &res {
                            RelinkResult::Relinked(p) => {
                                let mut a = assets[i].clone_info();
                                a.path = p.clone();
                                assets.set(i, a);
                            },
                            _ => {},
                        }
                        res
                    },
                    Err(e) => {
                        assert(call_ensures(*search, (&old(assets)@[i as int],), Err::<RelinkResult, ExportError>(e)));
                        return Err(e);
                    },
                }
            },
        };
        results.push(result);
        i = i + 1;
    }
    Ok(results)
}

impl AssetInfo {
    /// A field-for-field copy.
    pub fn clone_info(&self) -> (r: Self)
        ensures
            r == *self,
    {
        AssetInfo {
            id: self.id.clone(),
            path: self.path.clone(),
            relative_path: match &self.relative_path {
                Some(p) => Some(p.clone()),
                None => None,
            },
            kind: self.kind,
            width: self.width,
            height: self.height,
            duration_frames: self.duration_frames,
            fps: self.fps,
            audio_channels: self.audio_channels,
            sample_rate: self.sample_rate,
            timecode: match &self.timecode {
                Some(t) => Some(t.clone()),
                None => None,
            },
            color_space: self.color_space,
            file_size: self.file_size,
            hash: match &self.hash {
                Some(h) => Some(h.clone()),
                None => None,
            },
        }
    }
}

} // verus!
