//! The microphone without the system's own processing.

use crate::crypto::{hex_encode, hex_text};
use crate::text::{be32, decimal, decimal_text, push_be32, same};
use vstd::prelude::*;
use vstd::string::*;

verus! {

/// Whether the system's processing can be passed by on an operating system.
pub fn supported(os: &str) -> (r: bool)
    ensures
        r == (os@ == "windows"@),
{
    same(os, "windows")
}

pub const WAVE_FORMAT_PCM: u16 = 1;

pub const WAVE_FORMAT_IEEE_FLOAT: u16 = 3;

pub const WAVE_FORMAT_EXTENSIBLE: u16 = 0xFFFE;

/// Eight hexadecimal digits of a number.
pub open spec fn hex8(n: u32) -> Seq<char> {
    hex_text(be32(n))
}

/// What an error code of the audio system means.
pub open spec fn explanation(code: u32) -> Seq<char> {
    if code == 0x8889_0010 {
        "the Windows Audio service isn't running"@
    } else if code == 0x8889_000A {
        "another app has the microphone exclusively"@
    } else if code == 0x8889_0008 {
        "the audio engine rejected the capture format"@
    } else if code == 0x8007_0005 {
        "Windows denied access to the microphone"@
    } else {
        "error 0x"@ + hex8(code)
    }
}

/// Says what an error code of the audio system means.
pub fn explain(code: u32) -> (r: String)
    ensures
        r@ == explanation(code),
{
    if code == 0x8889_0010 {
        "the Windows Audio service isn't running".to_owned()
    } else if code == 0x8889_000A {
        "another app has the microphone exclusively".to_owned()
    } else if code == 0x8889_0008 {
        "the audio engine rejected the capture format".to_owned()
    } else if code == 0x8007_0005 {
        "Windows denied access to the microphone".to_owned()
    } else {
        let mut bytes: Vec<u8> = Vec::new();
        push_be32(&mut bytes, code);
        assert(bytes@ =~= be32(code));
        "error 0x".to_owned().concat(hex_encode(bytes.as_slice()).as_str())
    }
}

/// How a sample is written.
#[derive(Debug, Clone, Copy, PartialEq, Eq, Structural)]
pub enum Sample {
    Float32,
    Int16,
    Int32,
}

/// How an extended format says that its samples are whole numbers.
pub const SUBTYPE_PCM: u128 = 0x00000001_0000_0010_8000_00aa00389b71;

/// How an extended format says that its samples are fractions.
pub const SUBTYPE_IEEE_FLOAT: u128 = 0x00000003_0000_0010_8000_00aa00389b71;

/// How much follows the head of an extended format, in bytes.
pub const EXTENSION_BYTES: u16 = 22;

/// A format that can be captured.
#[derive(Debug, Clone, Copy, PartialEq, Eq, Structural)]
pub struct Format {
    pub rate: u32,
    pub channels: u32,
    pub sample: Sample,
}

/// A format as the system describes it. The kind of its samples, with its text,
/// counts only where the format is an extended one.
pub struct WaveFormat {
    pub tag: u16,
    pub extra: u16,
    pub sub_format: u128,
    pub sub_format_text: String,
    pub bits: u16,
    pub channels: u16,
    pub rate: u32,
}

/// The tag of a format, or why it has none that is known.
pub open spec fn effective_tag(f: WaveFormat) -> Result<u16, Seq<char>> {
    if f.tag != WAVE_FORMAT_EXTENSIBLE {
        Ok(f.tag)
    } else if f.extra < EXTENSION_BYTES {
        Err("the microphone reported a truncated format"@)
    } else {
        if f.sub_format == SUBTYPE_IEEE_FLOAT {
            Ok(WAVE_FORMAT_IEEE_FLOAT)
        } else if f.sub_format == SUBTYPE_PCM {
            Ok(WAVE_FORMAT_PCM)
        } else {
            Err("unsupported microphone format "@ + f.sub_format_text@)
        }
    }
}

/// The samples of a tag and a width, where they can be read.
pub open spec fn sample_of(tag: u16, bits: u16) -> Option<Sample> {
    if tag == WAVE_FORMAT_IEEE_FLOAT && bits == 32 {
        Some(Sample::Float32)
    } else if tag == WAVE_FORMAT_PCM && bits == 16 {
        Some(Sample::Int16)
    } else if tag == WAVE_FORMAT_PCM && bits == 32 {
        Some(Sample::Int32)
    } else {
        None
    }
}

/// What a described format comes to, or why it cannot be captured.
pub open spec fn described(f: WaveFormat) -> Result<Format, Seq<char>> {
    match effective_tag(f) {
        Err(e) => Err(e),
        Ok(tag) => match sample_of(tag, f.bits) {
            None => Err(
                "unsupported microphone format (tag "@ + decimal(tag as nat) + ", "@ + decimal(
                    f.bits as nat,
                ) + "-bit)"@,
            ),
            Some(sample) => if f.channels == 0 || f.rate == 0 {
                Err("the microphone reported an empty format"@)
            } else {
                Ok(Format { rate: f.rate, channels: f.channels as u32, sample })
            },
        },
    }
}

/// Decides whether a described format can be captured.
pub fn describe(f: &WaveFormat) -> (r: Result<Format, String>)
    ensures
        match described(*f) {
            Ok(format) => r == Ok::<Format, String>(format),
            Err(e) => r is Err && r->Err_0@ == e,
        },
{
    let tag: u16 = if f.tag == WAVE_FORMAT_EXTENSIBLE {
        if f.extra < EXTENSION_BYTES {
            return Err("the microphone reported a truncated format".to_owned());
        }
        if f.sub_format == SUBTYPE_IEEE_FLOAT {
            WAVE_FORMAT_IEEE_FLOAT
        } else if f.sub_format == SUBTYPE_PCM {
            WAVE_FORMAT_PCM
        } else {
            return Err(
                "unsupported microphone format ".to_owned().concat(f.sub_format_text.as_str()),
            );
        }
    } else {
        f.tag
    };
    let sample: Sample = if tag == WAVE_FORMAT_IEEE_FLOAT && f.bits == 32 {
        Sample::Float32
    } else if tag == WAVE_FORMAT_PCM && f.bits == 16 {
        Sample::Int16
    } else if tag == WAVE_FORMAT_PCM && f.bits == 32 {
        Sample::Int32
    } else {
        return Err(
            "unsupported microphone format (tag ".to_owned().concat(
                decimal_text(tag as u64).as_str(),
            ).concat(", ").concat(decimal_text(f.bits as u64).as_str()).concat("-bit)"),
        );
    };
    if f.channels == 0 || f.rate == 0 {
        return Err("the microphone reported an empty format".to_owned());
    }
    Ok(Format { rate: f.rate, channels: f.channels as u32, sample })
}

/// What came of waiting for the microphone.
#[derive(Debug, Clone, Copy, PartialEq, Eq, Structural)]
pub enum Waited {
    Audio,
    Shutdown,
    TimedOut,
    Failed,
}

/// What is done after waiting: nothing more once it is shut down, and a complaint
/// where the microphone or the engine has stopped. The code of a failure comes as
/// text.
pub fn after_wait(waited: Waited, code: &str) -> (r: Result<bool, String>)
    ensures
        match waited {
            Waited::Audio => r == Ok::<bool, String>(true),
            Waited::Shutdown => r == Ok::<bool, String>(false),
            Waited::TimedOut => r is Err && r->Err_0@
                == "the microphone stopped delivering audio"@,
            Waited::Failed => r is Err && r->Err_0@ == "the audio engine stopped responding ("@
                + code@ + ")"@,
        },
{
    match waited {
        Waited::Audio => Ok(true),
        Waited::Shutdown => Ok(false),
        Waited::TimedOut => Err("the microphone stopped delivering audio".to_owned()),
        Waited::Failed => Err(
            "the audio engine stopped responding (".to_owned().concat(code).concat(")"),
        ),
    }
}

} // verus!
