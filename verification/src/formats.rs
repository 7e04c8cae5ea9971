//! Image output formats, and how they are chosen: by an identifier such as
//! `png` or `jpg`, by the extension of the output path, or, as a fallback,
//! by the formats the `image` crate recognises.

use vstd::prelude::*;
use image::ImageFormat;
use self::ImageFormatKind as K;
use crate::numeric::ascii_lower;
use crate::path::{spec_extension, FsPath};
use crate::text::{chars_of, string_of};

verus! {

/// How the samples of a PBM, PGM or PPM file are written.
#[derive(Debug, Clone, Copy, PartialEq, Eq, Structural)]
pub enum SampleEncoding {
    Binary,
    Ascii,
}

/// The kinds of PNM file.
#[derive(Debug, Clone, Copy, PartialEq, Eq, Structural)]
pub enum PnmSubtype {
    Bitmap(SampleEncoding),
    Graymap(SampleEncoding),
    Pixmap(SampleEncoding),
    ArbitraryMap,
}

/// A format an image can be written in, with its encoder settings.
#[derive(Debug, Clone, Copy, PartialEq, Eq, Structural)]
pub enum OutputFormat {
    Avif,
    Bmp,
    Farbfeld,
    Gif,
    Ico,
    Jpeg(u8),
    OpenExr,
    Png,
    Pnm(PnmSubtype),
    Qoi,
    Tga,
    Tiff,
    WebP,
}

/// The image formats the `image` crate knows by a file extension.
#[derive(Debug, Clone, Copy, PartialEq, Eq, Structural)]
pub enum ImageFormatKind {
    Png,
    Jpeg,
    Gif,
    WebP,
    Pnm,
    Tiff,
    Tga,
    Dds,
    Bmp,
    Ico,
    Hdr,
    OpenExr,
    Farbfeld,
    Avif,
    Qoi,
}

/// The format the `image` crate gives for a file extension: its ASCII
/// lower-cased form compared with the names the crate lists.
pub open spec fn image_format_of_extension(ext: Seq<char>) -> Option<ImageFormatKind> {
    let l = ascii_lower(ext);
    if l == "avif"@ {
        Some(ImageFormatKind::Avif)
    } else if l == "jpg"@ || l == "jpeg"@ {
        Some(ImageFormatKind::Jpeg)
    } else if l == "png"@ {
        Some(ImageFormatKind::Png)
    } else if l == "gif"@ {
        Some(ImageFormatKind::Gif)
    } else if l == "webp"@ {
        Some(ImageFormatKind::WebP)
    } else if l == "tif"@ || l == "tiff"@ {
        Some(ImageFormatKind::Tiff)
    } else if l == "tga"@ {
        Some(ImageFormatKind::Tga)
    } else if l == "dds"@ {
        Some(ImageFormatKind::Dds)
    } else if l == "bmp"@ {
        Some(ImageFormatKind::Bmp)
    } else if l == "ico"@ {
        Some(ImageFormatKind::Ico)
    } else if l == "hdr"@ {
        Some(ImageFormatKind::Hdr)
    } else if l == "exr"@ {
        Some(ImageFormatKind::OpenExr)
    } else if l == "pbm"@ || l == "pam"@ || l == "ppm"@ || l == "pgm"@ {
        Some(ImageFormatKind::Pnm)
    } else if l == "ff"@ || l == "farbfeld"@ {
        Some(ImageFormatKind::Farbfeld)
    } else if l == "qoi"@ {
        Some(ImageFormatKind::Qoi)
    } else {
        None
    }
}

/// The `image` crate's `ImageFormat::from_extension` (version 0.24): the
/// format named by the extension, compared in ASCII lower case.
#[verifier::external_body]
fn image_format_from_extension(ext: &str) -> (r: Option<ImageFormatKind>)
    ensures
        r == image_format_of_extension(ext@),
{
    let f = ImageFormat::from_extension(ext)?;
    Some(match f {
        ImageFormat::Png => K::Png, ImageFormat::Jpeg => K::Jpeg, ImageFormat::Gif => K::Gif,
        ImageFormat::WebP => K::WebP, ImageFormat::Pnm => K::Pnm, ImageFormat::Tiff => K::Tiff,
        ImageFormat::Tga => K::Tga, ImageFormat::Dds => K::Dds, ImageFormat::Bmp => K::Bmp,
        ImageFormat::Ico => K::Ico, ImageFormat::Hdr => K::Hdr, ImageFormat::OpenExr => K::OpenExr,
        ImageFormat::Farbfeld => K::Farbfeld, ImageFormat::Avif => K::Avif, ImageFormat::Qoi => K::Qoi,
        _ => return None,
    })
}

/// Whether the `image` crate recognises a file extension.
pub fn known_image_extension(ext: &str) -> (r: bool)
    ensures
        r == (image_format_of_extension(ext@) is Some),
{
    image_format_from_extension(ext).is_some()
}

/// Whether the `image` crate, built with its default features, can encode
/// the format: all but AVIF (its encoder is not enabled), DDS and HDR.
pub open spec fn image_can_encode(k: ImageFormatKind) -> bool {
    !(k == ImageFormatKind::Avif || k == ImageFormatKind::Dds || k == ImageFormatKind::Hdr)
}

/// The name the `image` crate's derived `Debug` gives a format: the name of
/// its variant.
pub open spec fn image_format_name(k: ImageFormatKind) -> Seq<char> {
    match k {
        ImageFormatKind::Png => "Png"@,
        ImageFormatKind::Jpeg => "Jpeg"@,
        ImageFormatKind::Gif => "Gif"@,
        ImageFormatKind::WebP => "WebP"@,
        ImageFormatKind::Pnm => "Pnm"@,
        ImageFormatKind::Tiff => "Tiff"@,
        ImageFormatKind::Tga => "Tga"@,
        ImageFormatKind::Dds => "Dds"@,
        ImageFormatKind::Bmp => "Bmp"@,
        ImageFormatKind::Ico => "Ico"@,
        ImageFormatKind::Hdr => "Hdr"@,
        ImageFormatKind::OpenExr => "OpenExr"@,
        ImageFormatKind::Farbfeld => "Farbfeld"@,
        ImageFormatKind::Avif => "Avif"@,
        ImageFormatKind::Qoi => "Qoi"@,
    }
}

/// The `image` crate's `From<ImageFormat> for ImageOutputFormat` (version
/// 0.24, default features): nothing when it gives an encodable format; the
/// name it puts in `Unsupported` otherwise, which is the format's `Debug`
/// text.
#[verifier::external_body]
fn image_output_format_unsupported(k: ImageFormatKind) -> (r: Option<String>)
    ensures
        r is None <==> image_can_encode(k),
        r matches Some(n) ==> n@ == image_format_name(k),
{
    let f = match k {
        K::Png => ImageFormat::Png, K::Jpeg => ImageFormat::Jpeg, K::Gif => ImageFormat::Gif,
        K::WebP => ImageFormat::WebP, K::Pnm => ImageFormat::Pnm, K::Tiff => ImageFormat::Tiff,
        K::Tga => ImageFormat::Tga, K::Dds => ImageFormat::Dds, K::Bmp => ImageFormat::Bmp,
        K::Ico => ImageFormat::Ico, K::Hdr => ImageFormat::Hdr, K::OpenExr => ImageFormat::OpenExr,
        K::Farbfeld => ImageFormat::Farbfeld, K::Avif => ImageFormat::Avif, K::Qoi => ImageFormat::Qoi,
    };
    match image::ImageOutputFormat::from(f) {
        image::ImageOutputFormat::Unsupported(name) => Some(name),
        _ => None,
    }
}

/// The message the `image` crate's error for an unrecognised path
/// extension displays: `The file extension `.<ext>` was not recognized as an
/// image format`, where `<ext>` is the extension's `Debug` text.
pub uninterp spec fn image_extension_error(ext: Seq<char>) -> Seq<char>;

/// An extension of ASCII letters and digits only, whose `Debug` text is the
/// extension between double quotes.
pub open spec fn is_plain_extension(ext: Seq<char>) -> bool {
    forall|i: int|
        0 <= i < ext.len() ==> (('a' <= #[trigger] ext[i] && ext[i] <= 'z') || ('A' <= ext[i] && ext[i] <= 'Z')
            || ('0' <= ext[i] && ext[i] <= '9'))
}

/// The `image` crate's `Display` of its unsupported-format error for a path
/// extension (`ImageError::Unsupported` of `ImageFormatHint::PathExtension`,
/// version 0.24). Its text is named [`image_extension_error`]; for a plain
/// extension it is stated.
#[verifier::external_body]
fn unrecognised_extension_error(ext: &str) -> (r: String)
    ensures
        r@ == image_extension_error(ext@),
        is_plain_extension(ext@) ==> r@ == "The file extension `.\""@ + ext@
            + "\"` was not recognized as an image format"@,
{
    let hint = image::error::ImageFormatHint::PathExtension(std::path::PathBuf::from(ext));
    image::ImageError::Unsupported(image::error::UnsupportedError::from(hint)).to_string()
}

/// The output format the `image` crate encodes a format with: JPEG at
/// quality 75, PNM as an arbitrary map, the others as themselves.
pub open spec fn image_output_of(k: ImageFormatKind) -> OutputFormat {
    match k {
        ImageFormatKind::Png => OutputFormat::Png,
        ImageFormatKind::Jpeg => OutputFormat::Jpeg(75),
        ImageFormatKind::Gif => OutputFormat::Gif,
        ImageFormatKind::WebP => OutputFormat::WebP,
        ImageFormatKind::Pnm => OutputFormat::Pnm(PnmSubtype::ArbitraryMap),
        ImageFormatKind::Tiff => OutputFormat::Tiff,
        ImageFormatKind::Tga => OutputFormat::Tga,
        ImageFormatKind::Bmp => OutputFormat::Bmp,
        ImageFormatKind::Ico => OutputFormat::Ico,
        ImageFormatKind::OpenExr => OutputFormat::OpenExr,
        ImageFormatKind::Farbfeld => OutputFormat::Farbfeld,
        ImageFormatKind::Qoi => OutputFormat::Qoi,
        ImageFormatKind::Avif => OutputFormat::Avif,
        ImageFormatKind::Dds => OutputFormat::Bmp,
        ImageFormatKind::Hdr => OutputFormat::Bmp,
    }
}

fn image_output_of_kind(k: ImageFormatKind) -> (r: OutputFormat)
    ensures
        r == image_output_of(k),
{
    match k {
        ImageFormatKind::Png => OutputFormat::Png,
        ImageFormatKind::Jpeg => OutputFormat::Jpeg(75),
        ImageFormatKind::Gif => OutputFormat::Gif,
        ImageFormatKind::WebP => OutputFormat::WebP,
        ImageFormatKind::Pnm => OutputFormat::Pnm(PnmSubtype::ArbitraryMap),
        ImageFormatKind::Tiff => OutputFormat::Tiff,
        ImageFormatKind::Tga => OutputFormat::Tga,
        ImageFormatKind::Bmp => OutputFormat::Bmp,
        ImageFormatKind::Ico => OutputFormat::Ico,
        ImageFormatKind::OpenExr => OutputFormat::OpenExr,
        ImageFormatKind::Farbfeld => OutputFormat::Farbfeld,
        ImageFormatKind::Qoi => OutputFormat::Qoi,
        ImageFormatKind::Avif => OutputFormat::Avif,
        ImageFormatKind::Dds => OutputFormat::Bmp,
        ImageFormatKind::Hdr => OutputFormat::Bmp,
    }
}

pub open spec fn no_format_message() -> Seq<char> {
    "The image format could not be determined"@
}

/// The message of the `image` crate's error for a format it names but
/// cannot encode.
pub open spec fn unsupported_format_message(name: Seq<char>) -> Seq<char> {
    "The image format `"@ + name + "` is not supported"@
}

/// What the `image` crate makes of an (optional) file extension: the
/// format it names, when the crate can encode it.
pub open spec fn spec_guess_by_extension(ext: Option<Seq<char>>) -> Result<OutputFormat, Seq<char>> {
    match ext {
        None => Err(no_format_message()),
        Some(e) => match image_format_of_extension(e) {
            None => Err(image_extension_error(e)),
            Some(k) => if image_can_encode(k) {
                Ok(image_output_of(k))
            } else {
                Err(unsupported_format_message(image_format_name(k)))
            },
        },
    }
}

fn guess_by_extension_chars(ext: Option<Vec<char>>) -> (r: Result<OutputFormat, String>)
    ensures
        match (r, spec_guess_by_extension(match ext { Some(e) => Some(e@), None => None })) {
            (Ok(a), Ok(b)) => a == b,
            (Err(a), Err(b)) => a@ == b,
            _ => false,
        },
{
    match ext {
        None => Err(String::from_str("The image format could not be determined")),
        Some(e) => {
            let text = string_of(&e);
            match image_format_from_extension(text.as_str()) {
                None => Err(unrecognised_extension_error(text.as_str())),
                Some(k) => match image_output_format_unsupported(k) {
                    None => Ok(image_output_of_kind(k)),
                    Some(name) => {
                        let a = crate::text::concat_text("The image format `", name.as_str());
                        Err(crate::text::concat_text(a.as_str(), "` is not supported"))
                    },
                },
            }
        },
    }
}

/// The output format the `image` crate guesses from the extension of a path.
pub fn guess_output_by_path(path: &FsPath) -> (r: Result<OutputFormat, String>)
    ensures
        match (r, spec_guess_by_extension(spec_extension(path@))) {
            (Ok(a), Ok(b)) => a == b,
            (Err(a), Err(b)) => a@ == b,
            _ => false,
        },
{
    guess_by_extension_chars(path.extension())
}

/// The output format the `image` crate guesses for an identifier, read as
/// the extension of the file name `0.<id>`.
pub fn guess_output_by_identifier(id: &str) -> (r: Result<OutputFormat, String>)
    ensures
        match (r, spec_guess_by_extension(spec_extension(crate::path::parse_components("0."@ + id@)))) {
            (Ok(a), Ok(b)) => a == b,
            (Err(a), Err(b)) => a@ == b,
            _ => false,
        },
{
    let name = crate::text::concat_text("0.", id);
    let path = FsPath::new(name.as_str());
    guess_output_by_path(&path)
}

/// Choosing an output format by the identifiers this tool knows, with the
/// encoder settings to use.
#[derive(Debug, Clone, Copy, PartialEq, Eq, Structural)]
pub struct DetermineEncodingFormat {
    pub pnm_sample_encoding: SampleEncoding,
    pub jpeg_quality: u8,
}

pub open spec fn unknown_identifier_message(id: Seq<char>) -> Seq<char> {
    "Unable to determine a supported image format type, input: "@ + id + "."@
}

pub open spec fn no_extension_found_message() -> Seq<char> {
    "No extension was found"@
}

/// The format an identifier names, compared in ASCII lower case: AVIF, BMP,
/// Farbfeld, GIF, ICO, JPEG (`jpg` or `jpeg`), PNG, PAM, PBM, PGM, PPM, TGA.
pub open spec fn spec_by_identifier(d: DetermineEncodingFormat, id: Seq<char>) -> Result<
    OutputFormat,
    Seq<char>,
> {
    let l = ascii_lower(id);
    let se = d.pnm_sample_encoding;
    if l == "avif"@ {
        Ok(OutputFormat::Avif)
    } else if l == "bmp"@ {
        Ok(OutputFormat::Bmp)
    } else if l == "farbfeld"@ {
        Ok(OutputFormat::Farbfeld)
    } else if l == "gif"@ {
        Ok(OutputFormat::Gif)
    } else if l == "ico"@ {
        Ok(OutputFormat::Ico)
    } else if l == "jpeg"@ || l == "jpg"@ {
        Ok(OutputFormat::Jpeg(d.jpeg_quality))
    } else if l == "png"@ {
        Ok(OutputFormat::Png)
    } else if l == "pam"@ {
        Ok(OutputFormat::Pnm(PnmSubtype::ArbitraryMap))
    } else if l == "pbm"@ {
        Ok(OutputFormat::Pnm(PnmSubtype::Bitmap(se)))
    } else if l == "pgm"@ {
        Ok(OutputFormat::Pnm(PnmSubtype::Graymap(se)))
    } else if l == "ppm"@ {
        Ok(OutputFormat::Pnm(PnmSubtype::Pixmap(se)))
    } else if l == "tga"@ {
        Ok(OutputFormat::Tga)
    } else {
        Err(unknown_identifier_message(id))
    }
}

/// The format the extension of a path names (see [`spec_by_identifier`]).
pub open spec fn spec_by_extension(d: DetermineEncodingFormat, path: Seq<Seq<char>>) -> Result<
    OutputFormat,
    Seq<char>,
> {
    match spec_extension(path) {
        None => Err(no_extension_found_message()),
        Some(e) => spec_by_identifier(d, e),
    }
}

fn lower_is(l: &Vec<char>, word: &str) -> (r: bool)
    ensures
        r == (l@ == word@),
{
    let w = chars_of(word);
    crate::text::chars_equal(l, &w)
}

impl DetermineEncodingFormat {
    /// The default settings: binary PNM samples, JPEG quality 80.
    pub fn default_settings() -> (r: DetermineEncodingFormat)
        ensures
            r.pnm_sample_encoding == SampleEncoding::Binary,
            r.jpeg_quality == 80,
    {
        DetermineEncodingFormat { pnm_sample_encoding: SampleEncoding::Binary, jpeg_quality: 80 }
    }

    /// The format an identifier names (see [`spec_by_identifier`]).
    pub fn by_identifier(&self, id: &str) -> (r: Result<OutputFormat, String>)
        ensures
            match (r, spec_by_identifier(*self, id@)) {
                (Ok(a), Ok(b)) => a == b,
                (Err(a), Err(b)) => a@ == b,
                _ => false,
            },
    {
        let cs = chars_of(id);
        let mut l: Vec<char> = Vec::new();
        let mut i: usize = 0;
        while i < cs.len()
            invariant
                i <= cs.len(),
                cs@ == id@,
                l@ == ascii_lower(cs@).take(i as int),
            decreases cs.len() - i,
        {
            l.push(crate::numeric::ascii_lower_of(cs[i]));
            i += 1;
            assert(l@ =~= ascii_lower(cs@).take(i as int));
        }
        assert(l@ =~= ascii_lower(id@));
        let se = self.pnm_sample_encoding;
        if lower_is(&l, "avif") {
            Ok(OutputFormat::Avif)
        } else if lower_is(&l, "bmp") {
            Ok(OutputFormat::Bmp)
        } else if lower_is(&l, "farbfeld") {
            Ok(OutputFormat::Farbfeld)
        } else if lower_is(&l, "gif") {
            Ok(OutputFormat::Gif)
        } else if lower_is(&l, "ico") {
            Ok(OutputFormat::Ico)
        } else if lower_is(&l, "jpeg") || lower_is(&l, "jpg") {
            Ok(OutputFormat::Jpeg(self.jpeg_quality))
        } else if lower_is(&l, "png") {
            Ok(OutputFormat::Png)
        } else if lower_is(&l, "pam") {
            Ok(OutputFormat::Pnm(PnmSubtype::ArbitraryMap))
        } else if lower_is(&l, "pbm") {
            Ok(OutputFormat::Pnm(PnmSubtype::Bitmap(se)))
        } else if lower_is(&l, "pgm") {
            Ok(OutputFormat::Pnm(PnmSubtype::Graymap(se)))
        } else if lower_is(&l, "ppm") {
            Ok(OutputFormat::Pnm(PnmSubtype::Pixmap(se)))
        } else if lower_is(&l, "tga") {
            Ok(OutputFormat::Tga)
        } else {
            let msg = crate::text::concat_text(
                "Unable to determine a supported image format type, input: ",
                id,
            );
            Err(crate::text::concat_text(msg.as_str(), "."))
        }
    }

    /// The format the extension of a path names (see [`spec_by_extension`]).
    pub fn by_extension(&self, path: &FsPath) -> (r: Result<OutputFormat, String>)
        ensures
            match (r, spec_by_extension(*self, path@)) {
                (Ok(a), Ok(b)) => a == b,
                (Err(a), Err(b)) => a@ == b,
                _ => false,
            },
    {
        match path.extension() {
            None => Err(String::from_str("No extension was found")),
            Some(e) => {
                let text = string_of(&e);
                self.by_identifier(text.as_str())
            },
        }
    }
}

} // verus!
