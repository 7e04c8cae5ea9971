//! Deciding the output format of a conversion from its settings: a forced
//! format wins; otherwise the extension of the output path decides.

use vstd::prelude::*;
use crate::config::{Config, FormatEncodingSettings};
use crate::formats::{OutputFormat, PnmSubtype, SampleEncoding};
use crate::path::{parse_components, spec_extension, FsPath};
use crate::numeric::ascii_lower;
use crate::text::{concat_text, is_ascii_text, string_of, text_equals, to_lowercase, unicode_lowercase};

verus! {

pub open spec fn no_extension_message() -> Seq<char> {
    "No extension was found"@
}

pub open spec fn no_output_path_message() -> Seq<char> {
    "No valid output path found (type: efd/ext)"@
}

pub open spec fn unknown_format_message(id: Seq<char>) -> Seq<char> {
    "Unable to determine a supported image format type, input: "@ + id + "."@
}

pub open spec fn option_string_view(o: Option<String>) -> Option<Seq<char>> {
    match o {
        Some(s) => Some(s@),
        None => None,
    }
}

/// A text in lower case, as std's `to_lowercase` gives it: the ASCII
/// lower case of ASCII text; Unicode's lower case (named) otherwise.
pub open spec fn lowercase_text(s: Seq<char>) -> Seq<char> {
    if is_ascii_text(s) {
        ascii_lower(s)
    } else {
        unicode_lowercase(s)
    }
}

/// The lower-cased extension of the output path.
pub open spec fn spec_output_extension(output: Option<Seq<char>>) -> Result<Seq<char>, Seq<char>> {
    match output {
        None => Err(no_output_path_message()),
        Some(v) => match spec_extension(parse_components(v)) {
            None => Err(no_extension_message()),
            Some(e) => Ok(lowercase_text(e)),
        },
    }
}

/// The identifier of the output format: the forced format, lower-cased,
/// when there is one; the output path's extension otherwise.
pub open spec fn spec_format_string(forced: Option<Seq<char>>, output: Option<Seq<char>>) -> Result<
    Seq<char>,
    Seq<char>,
> {
    match forced {
        Some(f) => Ok(lowercase_text(f)),
        None => spec_output_extension(output),
    }
}

pub open spec fn spec_sample_encoding(ascii: bool) -> SampleEncoding {
    if ascii {
        SampleEncoding::Ascii
    } else {
        SampleEncoding::Binary
    }
}

/// The output format an identifier stands for, with the encoder settings
/// of the configuration.
pub open spec fn spec_format_from_str(settings: FormatEncodingSettings, id: Seq<char>) -> Result<
    OutputFormat,
    Seq<char>,
> {
    let se = spec_sample_encoding(settings.pnm_settings.ascii);
    if id == "bmp"@ {
        Ok(OutputFormat::Bmp)
    } else if id == "gif"@ {
        Ok(OutputFormat::Gif)
    } else if id == "ico"@ {
        Ok(OutputFormat::Ico)
    } else if id == "jpeg"@ || id == "jpg"@ {
        Ok(OutputFormat::Jpeg(settings.jpeg_settings.quality))
    } else if id == "png"@ {
        Ok(OutputFormat::Png)
    } else if id == "pbm"@ {
        Ok(OutputFormat::Pnm(PnmSubtype::Bitmap(se)))
    } else if id == "pgm"@ {
        Ok(OutputFormat::Pnm(PnmSubtype::Graymap(se)))
    } else if id == "ppm"@ {
        Ok(OutputFormat::Pnm(PnmSubtype::Pixmap(se)))
    } else if id == "pam"@ {
        Ok(OutputFormat::Pnm(PnmSubtype::ArbitraryMap))
    } else {
        Err(unknown_format_message(id))
    }
}

/// The output format of a conversion (see [`spec_format_string`] and
/// [`spec_format_from_str`]).
pub open spec fn spec_compute_format(config: &Config) -> Result<OutputFormat, Seq<char>> {
    match spec_format_string(
        option_string_view(config.forced_output_format),
        option_string_view(config.output),
    ) {
        Err(e) => Err(e),
        Ok(id) => spec_format_from_str(config.encoding_settings, id),
    }
}

/// A forced output format is matched without regard to (ASCII) case: it
/// decides the format its lower case names, so two ASCII identifiers that
/// differ only in case (such as `PNG` and `png`) decide the same format,
/// whatever the output paths.
pub proof fn lemma_forced_format_ignores_case(c1: &Config, c2: &Config, f1: Seq<char>, f2: Seq<char>)
    requires
        option_string_view(c1.forced_output_format) == Some(f1),
        option_string_view(c2.forced_output_format) == Some(f2),
        c1.encoding_settings == c2.encoding_settings,
        is_ascii_text(f1),
        is_ascii_text(f2),
        ascii_lower(f1) == ascii_lower(f2),
    ensures
        spec_compute_format(c1) == spec_format_from_str(c1.encoding_settings, ascii_lower(f1)),
        spec_compute_format(c1) == spec_compute_format(c2),
{
}

/// Decides the output format of a conversion.
#[derive(Debug)]
pub struct EncodingFormatDecider;

impl EncodingFormatDecider {
    pub fn new() -> (r: EncodingFormatDecider) {
        EncodingFormatDecider
    }

    /// The lower-cased extension of the output path (see [`spec_output_extension`]).
    pub fn get_output_extension(config: &Config) -> (r: Result<String, String>)
        ensures
            match (r, spec_output_extension(option_string_view(config.output))) {
                (Ok(a), Ok(b)) => a@ == b,
                (Err(a), Err(b)) => a@ == b,
                _ => false,
            },
    {
        match &config.output {
            Some(v) => {
                let path = FsPath::new(v.as_str());
                match path.extension() {
                    Some(e) => {
                        let text = string_of(&e);
                        Ok(to_lowercase(text.as_str()))
                    },
                    None => Err(String::from_str("No extension was found")),
                }
            },
            None => Err(String::from_str("No valid output path found (type: efd/ext)")),
        }
    }

    /// Binary or ASCII samples, as the PNM settings say.
    pub fn sample_encoding(config: &Config) -> (r: SampleEncoding)
        ensures
            r == spec_sample_encoding(config.encoding_settings.pnm_settings.ascii),
    {
        if config.encoding_settings.pnm_settings.ascii {
            SampleEncoding::Ascii
        } else {
            SampleEncoding::Binary
        }
    }

    /// The identifier of the output format (see [`spec_format_string`]).
    pub fn determine_format_string(config: &Config) -> (r: Result<String, String>)
        ensures
            match (r, spec_format_string(
                option_string_view(config.forced_output_format),
                option_string_view(config.output),
            )) {
                (Ok(a), Ok(b)) => a@ == b,
                (Err(a), Err(b)) => a@ == b,
                _ => false,
            },
    {
        match &config.forced_output_format {
            Some(v) => Ok(to_lowercase(v.as_str())),
            None => EncodingFormatDecider::get_output_extension(config),
        }
    }

    /// The output format an identifier stands for (see [`spec_format_from_str`]).
    pub fn determine_format_from_str(config: &Config, identifier: &str) -> (r: Result<OutputFormat, String>)
        ensures
            match (r, spec_format_from_str(config.encoding_settings, identifier@)) {
                (Ok(a), Ok(b)) => a == b,
                (Err(a), Err(b)) => a@ == b,
                _ => false,
            },
    {
        let se = EncodingFormatDecider::sample_encoding(config);
        if text_equals(identifier, "bmp") {
            Ok(OutputFormat::Bmp)
        } else if text_equals(identifier, "gif") {
            Ok(OutputFormat::Gif)
        } else if text_equals(identifier, "ico") {
            Ok(OutputFormat::Ico)
        } else if text_equals(identifier, "jpeg") || text_equals(identifier, "jpg") {
            Ok(OutputFormat::Jpeg(config.encoding_settings.jpeg_settings.quality))
        } else if text_equals(identifier, "png") {
            Ok(OutputFormat::Png)
        } else if text_equals(identifier, "pbm") {
            Ok(OutputFormat::Pnm(PnmSubtype::Bitmap(se)))
        } else if text_equals(identifier, "pgm") {
            Ok(OutputFormat::Pnm(PnmSubtype::Graymap(se)))
        } else if text_equals(identifier, "ppm") {
            Ok(OutputFormat::Pnm(PnmSubtype::Pixmap(se)))
        } else if text_equals(identifier, "pam") {
            Ok(OutputFormat::Pnm(PnmSubtype::ArbitraryMap))
        } else {
            let msg = concat_text("Unable to determine a supported image format type, input: ", identifier);
            Err(concat_text(msg.as_str(), "."))
        }
    }

    /// The output format of a conversion (see [`spec_compute_format`]).
    pub fn compute_format(config: &Config) -> (r: Result<OutputFormat, String>)
        ensures
            match (r, spec_compute_format(config)) {
                (Ok(a), Ok(b)) => a == b,
                (Err(a), Err(b)) => a@ == b,
                _ => false,
            },
    {
        match EncodingFormatDecider::determine_format_string(config) {
            Err(e) => Err(e),
            Ok(id) => EncodingFormatDecider::determine_format_from_str(config, id.as_str()),
        }
    }

    /// The output format of a conversion (see [`spec_compute_format`]).
    pub fn process(&self, config: &Config) -> (r: Result<OutputFormat, String>)
        ensures
            match (r, spec_compute_format(config)) {
                (Ok(a), Ok(b)) => a == b,
                (Err(a), Err(b)) => a@ == b,
                _ => false,
            },
    {
        EncodingFormatDecider::compute_format(config)
    }
}

pub open spec fn format_unsupported_message() -> Seq<char> {
    "Image format unsupported."@
}

/// The output format a format name stands for, compared in lower case:
/// BMP, GIF, ICO, JPEG (quality 80), PNG or PPM (binary).
pub open spec fn spec_image_format_from_str(format: Seq<char>) -> Result<OutputFormat, Seq<char>> {
    let l = unicode_lowercase(format);
    if l == "bmp"@ {
        Ok(OutputFormat::Bmp)
    } else if l == "gif"@ {
        Ok(OutputFormat::Gif)
    } else if l == "ico"@ {
        Ok(OutputFormat::Ico)
    } else if l == "jpeg"@ || l == "jpg"@ {
        Ok(OutputFormat::Jpeg(80))
    } else if l == "png"@ {
        Ok(OutputFormat::Png)
    } else if l == "ppm"@ {
        Ok(OutputFormat::Pnm(PnmSubtype::Pixmap(SampleEncoding::Binary)))
    } else {
        Err(format_unsupported_message())
    }
}

/// The output format a format name stands for (see [`spec_image_format_from_str`]).
pub fn image_format_from_str(format: &str) -> (r: Result<OutputFormat, String>)
    ensures
        match (r, spec_image_format_from_str(format@)) {
            (Ok(a), Ok(b)) => a == b,
            (Err(a), Err(b)) => a@ == b,
            _ => false,
        },
{
    let lower = to_lowercase(format);
    let l = lower.as_str();
    if text_equals(l, "bmp") {
        Ok(OutputFormat::Bmp)
    } else if text_equals(l, "gif") {
        Ok(OutputFormat::Gif)
    } else if text_equals(l, "ico") {
        Ok(OutputFormat::Ico)
    } else if text_equals(l, "jpeg") || text_equals(l, "jpg") {
        Ok(OutputFormat::Jpeg(80))
    } else if text_equals(l, "png") {
        Ok(OutputFormat::Png)
    } else if text_equals(l, "ppm") {
        Ok(OutputFormat::Pnm(PnmSubtype::Pixmap(SampleEncoding::Binary)))
    } else {
        Err(String::from_str("Image format unsupported."))
    }
}

} // verus!
