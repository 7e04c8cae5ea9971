//! The settings of a conversion: licenses to show, the help topic, the
//! image-operations script, the output format and its encoder settings.

use vstd::prelude::*;
use crate::numeric::{parse_u8, spec_parse_unsigned};
use crate::text::chars_of;

verus! {

/// Which license texts to display.
#[derive(Debug, Clone, Copy, PartialEq, Eq, Structural)]
pub enum SelectedLicenses {
    ThisSoftware,
    Dependencies,
}

/// JPEG encoder settings.
#[derive(Debug, Clone, Copy, PartialEq, Eq, Structural)]
pub struct JPEGEncodingSettings {
    /// The quality, from 1 up to and including 100.
    pub quality: u8,
}

/// PNM encoder settings.
#[derive(Debug, Clone, Copy, PartialEq, Eq, Structural)]
pub struct PNMEncodingSettings {
    /// Write PBM, PGM and PPM files with ASCII samples (PAM is not affected).
    pub ascii: bool,
}

/// Encoder settings per output format.
#[derive(Debug, Clone, Copy, PartialEq, Eq, Structural)]
pub struct FormatEncodingSettings {
    pub jpeg_settings: JPEGEncodingSettings,
    pub pnm_settings: PNMEncodingSettings,
}

/// The settings of a conversion.
#[derive(Debug)]
pub struct Config {
    /// Display the license of this software or of its dependencies.
    pub licenses: Vec<SelectedLicenses>,
    /// The help topic asked for, if any.
    pub user_manual: Option<String>,
    /// The image-operations script.
    pub script: Option<String>,
    /// The format to convert to, whatever the output path says.
    pub forced_output_format: Option<String>,
    pub disable_automatic_color_type_adjustment: bool,
    pub encoding_settings: FormatEncodingSettings,
    /// The output path.
    pub output: Option<String>,
}

pub open spec fn jpeg_quality_default() -> u8 {
    80
}

pub open spec fn quality_not_a_number_message() -> Seq<char> {
    "JPEG Encoding Settings error: QUALITY is not a valid number."@
}

pub open spec fn quality_unreachable_message() -> Seq<char> {
    "JPEG Encoding Settings error: Unreachable"@
}

pub open spec fn quality_range_message() -> Seq<char> {
    "JPEG Encoding Settings error: --jpeg-encoding-quality requires a number between 1 and 100."@
}

/// The JPEG quality asked for: the given value read as a `u8` and within
/// 1..=100; the default when the option is absent; an error when the option
/// is present without a value.
pub open spec fn spec_jpeg_quality(present: bool, value: Option<Seq<char>>) -> Result<u8, Seq<char>> {
    match value {
        Some(v) => match spec_parse_unsigned(v, 255) {
            None => Err(quality_not_a_number_message()),
            Some(q) => if 1 <= q <= 100 {
                Ok(q as u8)
            } else {
                Err(quality_range_message())
            },
        },
        None => if !present {
            Ok(jpeg_quality_default())
        } else {
            Err(quality_unreachable_message())
        },
    }
}

pub open spec fn option_str_view(o: Option<&str>) -> Option<Seq<char>> {
    match o {
        Some(s) => Some(s@),
        None => None,
    }
}

impl JPEGEncodingSettings {
    /// The settings for a quality option: whether it was given, and its
    /// value (see [`spec_jpeg_quality`]).
    pub fn new_result(quality: (bool, Option<&str>)) -> (r: Result<JPEGEncodingSettings, String>)
        ensures
            match (r, spec_jpeg_quality(quality.0, option_str_view(quality.1))) {
                (Ok(a), Ok(b)) => a.quality == b,
                (Err(a), Err(b)) => a@ == b,
                _ => false,
            },
    {
        let proposed: Result<u8, String> = match quality.1 {
            Some(v) => {
                let cs = chars_of(v);
                match parse_u8(&cs) {
                    Some(q) => Ok(q),
                    None => Err(String::from_str("JPEG Encoding Settings error: QUALITY is not a valid number.")),
                }
            },
            None => {
                if !quality.0 {
                    Ok(80)
                } else {
                    Err(String::from_str("JPEG Encoding Settings error: Unreachable"))
                }
            },
        };
        match proposed {
            Err(e) => Err(e),
            Ok(v) => {
                if 1 <= v && v <= 100 {
                    Ok(JPEGEncodingSettings { quality: v })
                } else {
                    Err(String::from_str("JPEG Encoding Settings error: --jpeg-encoding-quality requires a number between 1 and 100."))
                }
            },
        }
    }
}

impl PNMEncodingSettings {
    /// The settings, with ASCII samples or not.
    pub fn new(ascii: bool) -> (r: PNMEncodingSettings)
        ensures
            r.ascii == ascii,
    {
        PNMEncodingSettings { ascii }
    }
}

} // verus!
