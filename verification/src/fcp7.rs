//! Final Cut Pro 7 XML: a fixed document skeleton filled with the sequence's
//! name, duration, rate and size.

use vstd::prelude::*;
use vstd::string::StringExecFns;
use crate::exchange::{AssetInfo, ExportConfig, Fps, Sequence};
use crate::text::{decimal, decimal_string, signed_decimal, signed_decimal_string};

verus! {

pub const FCP7_HEAD: &'static str = "<?xml version=\"1.0\" encoding=\"UTF-8\"?>\n<!DOCTYPE xmeml>\n<xmeml version=\"5\">\n    <project>\n        <name>";
pub const FCP7_AFTER_PROJECT: &'static str = "</name>\n        <children>\n            <sequence>\n                <name>";
pub const FCP7_AFTER_NAME: &'static str = "</name>\n                <duration>";
pub const FCP7_AFTER_DURATION: &'static str = "</duration>\n                <rate>\n                    <ntsc>FALSE</ntsc>\n                    <timebase>";
pub const FCP7_AFTER_RATE: &'static str = "</timebase>\n                </rate>\n                <timecode>\n                    <rate>\n                        <ntsc>FALSE</ntsc>\n                        <timebase>";
pub const FCP7_AFTER_TIMECODE_RATE: &'static str = "</timebase>\n                    </rate>\n                    <string>01:00:00:00</string>\n                    <frame>108000</frame>\n                    <source>source</source>\n                    <displayformat>NDF</displayformat>\n                </timecode>\n                <media>\n                    <video>\n                        <format>\n                            <samplecharacteristics>\n                                <rate>\n                                    <ntsc>FALSE</ntsc>\n                                    <timebase>";
pub const FCP7_AFTER_FORMAT_RATE: &'static str = "</timebase>\n                                </rate>\n                                <width>";
pub const FCP7_AFTER_WIDTH: &'static str = "</width>\n                                <height>";
pub const FCP7_AFTER_HEIGHT: &'static str = "</height>\n                                <anamorphic>FALSE</anamorphic>\n                                <pixelaspectratio>square</pixelaspectratio>\n                                <fielddominance>none</fielddominance>\n                                <colordepth>8</colordepth>\n                            </samplecharacteristics>\n                        </format>\n                        <track>\n                            <!-- Video clips would go here -->\n                        </track>\n                    </video>\n                    <audio>\n                        <format>\n                            <samplecharacteristics>\n                                <depth>16</depth>\n                                <samplerate>";
pub const FCP7_TAIL: &'static str = "</samplerate>\n                            </samplecharacteristics>\n                        </format>\n                        <track>\n                            <!-- Audio clips would go here -->\n                        </track>\n                    </audio>\n                </media>\n            </sequence>\n        </children>\n    </project>\n</xmeml>";

/// The document written for `s`: the skeleton around the project name, the
/// sequence name, its duration in frames, its rate numerator (three times),
/// its width and height, and the audio sample rate.
pub open spec fn fcp7_document(s: Sequence, config: ExportConfig) -> Seq<char> {
    FCP7_HEAD@ + config.project_name@ + FCP7_AFTER_PROJECT@ + s.name@ + FCP7_AFTER_NAME@ + signed_decimal(
        s.duration_in_frames as int,
    ) + FCP7_AFTER_DURATION@ + decimal(s.fps.num as nat) + FCP7_AFTER_RATE@ + decimal(s.fps.num as nat)
        + FCP7_AFTER_TIMECODE_RATE@ + decimal(s.fps.num as nat) + FCP7_AFTER_FORMAT_RATE@ + decimal(
        s.width as nat,
    ) + FCP7_AFTER_WIDTH@ + decimal(s.height as nat) + FCP7_AFTER_HEIGHT@ + decimal(
        config.audio_sample_rate as nat,
    ) + FCP7_TAIL@
}

/// Write the document for `sequence` (see [`fcp7_document`]).
pub fn generate_fcp7_xml(sequence: &Sequence, _assets: &Vec<AssetInfo>, config: &ExportConfig) -> (r: String)
    ensures
        r@ == fcp7_document(*sequence, *config),
{
    let rate = decimal_string(sequence.fps.num as u64);
    let mut xml = String::from_str(FCP7_HEAD);
    xml.append(config.project_name.as_str());
    xml.append(FCP7_AFTER_PROJECT);
    xml.append(sequence.name.as_str());
    xml.append(FCP7_AFTER_NAME);
    xml.append(signed_decimal_string(sequence.duration_in_frames).as_str());
    xml.append(FCP7_AFTER_DURATION);
    xml.append(rate.as_str());
    xml.append(FCP7_AFTER_RATE);
    xml.append(rate.as_str());
    xml.append(FCP7_AFTER_TIMECODE_RATE);
    xml.append(rate.as_str());
    xml.append(FCP7_AFTER_FORMAT_RATE);
    xml.append(decimal_string(sequence.width as u64).as_str());
    xml.append(FCP7_AFTER_WIDTH);
    xml.append(decimal_string(sequence.height as u64).as_str());
    xml.append(FCP7_AFTER_HEIGHT);
    xml.append(decimal_string(config.audio_sample_rate as u64).as_str());
    xml.append(FCP7_TAIL);
    xml
}

/// A Final Cut Pro 7 document read back.  The reader keeps none of the
/// text: it gives an empty 1080p30 sequence and no assets.
pub fn read_fcp7xml(_content: &str, _config: &ExportConfig) -> (r: (Sequence, Vec<AssetInfo>))
    ensures
        r.0.name@ == "Imported FCP7 Sequence"@,
        r.0.width == 1920,
        r.0.height == 1080,
        r.0.fps == (Fps { num: 30, den: 1 }),
        r.0.duration_in_frames == 0,
        r.0.tracks@.len() == 0,
        r.1@.len() == 0,
{
    (Sequence::new("Imported FCP7 Sequence", 1920, 1080, Fps::new(30, 1), 0), Vec::new())
}

} // verus!
