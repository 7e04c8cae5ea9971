//! Decisions around writing a converted image: which color type adjustment
//! the output format needs, which script to run, and where each image of a
//! batch is written.

use vstd::prelude::*;
use crate::cli_config::{Config, InputOutputModeType};
use crate::common_dir::{entries_view, CommonDir};
use crate::formats::{OutputFormat, PnmSubtype};
use crate::operations::{operations_view, parse_script, spec_parse_script, Operation};
use crate::path::{spec_join, FsPath};

verus! {

/// How the color type of an image is adjusted before it is written.
#[derive(Debug, Clone, Copy, PartialEq, Eq, Structural)]
pub enum ColorTypeAdjustment {
    Keep,
    Grayscale,
    Rgb8,
}

/// The adjustment an output format needs: PBM and PGM files hold gray
/// values, PPM files 8-bit RGB; nothing is adjusted when adjustment is
/// disabled or for other formats.
pub open spec fn spec_color_type_adjustment(disabled: bool, format: OutputFormat) -> ColorTypeAdjustment {
    if disabled {
        ColorTypeAdjustment::Keep
    } else {
        match format {
            OutputFormat::Pnm(PnmSubtype::Bitmap(_)) => ColorTypeAdjustment::Grayscale,
            OutputFormat::Pnm(PnmSubtype::Graymap(_)) => ColorTypeAdjustment::Grayscale,
            OutputFormat::Pnm(PnmSubtype::Pixmap(_)) => ColorTypeAdjustment::Rgb8,
            _ => ColorTypeAdjustment::Keep,
        }
    }
}

/// The adjustment an output format needs (see [`spec_color_type_adjustment`]).
pub fn preprocess_color_type(disable_automatic_color_type_adjustment: bool, output_format: OutputFormat) -> (r: ColorTypeAdjustment)
    ensures
        r == spec_color_type_adjustment(disable_automatic_color_type_adjustment, output_format),
{
    if disable_automatic_color_type_adjustment {
        return ColorTypeAdjustment::Keep;
    }
    match output_format {
        OutputFormat::Pnm(PnmSubtype::Bitmap(_)) => ColorTypeAdjustment::Grayscale,
        OutputFormat::Pnm(PnmSubtype::Graymap(_)) => ColorTypeAdjustment::Grayscale,
        OutputFormat::Pnm(PnmSubtype::Pixmap(_)) => ColorTypeAdjustment::Rgb8,
        _ => ColorTypeAdjustment::Keep,
    }
}

pub open spec fn script_unavailable_message() -> Seq<char> {
    "Script unavailable."@
}

/// The operations of the script of a conversion.
pub fn parse_config_script(config: &crate::config::Config) -> (r: Result<Vec<Operation>, String>)
    ensures
        match config.script {
            None => r matches Err(e) && e@ == script_unavailable_message(),
            Some(s) => match (r, spec_parse_script(s@)) {
                (Ok(a), Ok(b)) => operations_view(a@) == b,
                (Err(a), Err(b)) => a@ == b,
                _ => false,
            },
        },
{
    match &config.script {
        Some(it) => parse_script(it.as_str()),
        None => Err(String::from_str("Script unavailable.")),
    }
}

/// The extension an output file gets: in batch mode the forced format's
/// identifier, when there is one; otherwise the output keeps its own.
pub fn output_extension_override(config: &Config) -> (r: Option<String>)
    ensures
        config.mode == InputOutputModeType::Batch ==> match config.forced_output_format {
            Some(f) => r matches Some(e) && e@ == f@,
            None => r is None,
        },
        config.mode != InputOutputModeType::Batch ==> r is None,
{
    if config.mode == InputOutputModeType::Batch {
        match &config.forced_output_format {
            Some(f) => Some(f.clone()),
            None => None,
        }
    } else {
        None
    }
}

/// The input and output path of each image of a batch: the input as found,
/// the output its branch below the output folder.
pub fn batch_jobs(inputs: &CommonDir, output_root_folder: &FsPath) -> (r: Vec<(FsPath, FsPath)>)
    ensures
        r@.len() == inputs@.entries.len(),
        forall|i: int| 0 <= i < r@.len() ==> (#[trigger] r@[i]).0@ == inputs@.entries[i].0 && r@[i].1@
            == spec_join(output_root_folder@, inputs@.entries[i].1),
{
    let combos = inputs.path_combinations();
    let mut out: Vec<(FsPath, FsPath)> = Vec::new();
    let mut i: usize = 0;
    while i < combos.len()
        invariant
            i <= combos.len(),
            entries_view(combos@) == inputs@.entries,
            out@.len() == i,
            forall|j: int| 0 <= j < i ==> (#[trigger] out@[j]).0@ == inputs@.entries[j].0 && out@[j].1@
                == spec_join(output_root_folder@, inputs@.entries[j].1),
        decreases combos.len() - i,
    {
        assert(entries_view(combos@)[i as int] == (combos@[i as int].0@, combos@[i as int].1@));
        let input = combos[i].0.copy();
        let output = output_root_folder.join(&combos[i].1);
        out.push((input, output));
        i += 1;
    }
    out
}

} // verus!
