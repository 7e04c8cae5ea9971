//! The settings of the command-line tool and the decisions made from its
//! arguments: single or batch mode, the frame to read, the output format
//! and which input files to take.

use vstd::prelude::*;
use crate::common_dir::{paths_view, spec_common_dir, CommonDir, CommonDirView, PathSeq};
use crate::formats::{
    guess_output_by_identifier, guess_output_by_path, spec_by_extension, spec_by_identifier,
    spec_guess_by_extension, DetermineEncodingFormat, OutputFormat, SampleEncoding,
};
use crate::numeric::{ascii_lower, parse_usize, spec_parse_unsigned};
use crate::path::{parse_components, spec_extension, FsPath};
use crate::statement::{Statement, StatementView, statements_view};
use crate::text::{chars_of, text_equals};
use crate::combinators::FallbackIf;
use crate::img_op_arg::{
    build_ast, found_ops_view, is_ordered_listing, lemma_ordered_listing_unique,
    spec_extend_with_operations, statements_of, tree_view, IndexTree, IndexedOp, OpView,
    OperationId,
};
use crate::numeric::parse_u8;
use crate::operations::{operations_view, parse_script, spec_parse_script, Operation, OperationView};
use std::collections::BTreeMap;

pub use crate::jpeg::validate_jpeg_quality;

verus! {

/// Which frame of an animated image to read.
#[derive(Debug, Clone, Copy, PartialEq, Eq, Structural)]
pub enum FrameIndex {
    First,
    Last,
    /// A one-based frame number.
    Nth(usize),
}

pub open spec fn frame_index_message() -> Seq<char> {
    "Provided argument for --select-frame is not a valid option. Valid options are 'first', 'last' or a (one-indexed) positive number."@
}

/// The frame an argument selects: `first`, `last` or a number.
pub open spec fn spec_frame_index(input: Seq<char>) -> Result<FrameIndex, Seq<char>> {
    if input == "first"@ {
        Ok(FrameIndex::First)
    } else if input == "last"@ {
        Ok(FrameIndex::Last)
    } else {
        match spec_parse_unsigned(input, usize::MAX as nat) {
            Some(n) => Ok(FrameIndex::Nth(n as usize)),
            None => Err(frame_index_message()),
        }
    }
}

/// The frame an argument selects (see [`spec_frame_index`]).
pub fn parse_frame_index(input: &str) -> (r: Result<FrameIndex, String>)
    ensures
        match (r, spec_frame_index(input@)) {
            (Ok(a), Ok(b)) => a == b,
            (Err(a), Err(b)) => a@ == b,
            _ => false,
        },
{
    if text_equals(input, "first") {
        Ok(FrameIndex::First)
    } else if text_equals(input, "last") {
        Ok(FrameIndex::Last)
    } else {
        let cs = chars_of(input);
        match parse_usize(&cs) {
            Some(n) => Ok(FrameIndex::Nth(n)),
            None => Err(String::from_str(
                "Provided argument for --select-frame is not a valid option. Valid options are 'first', 'last' or a (one-indexed) positive number.",
            )),
        }
    }
}

/// Where an image is read from or written to.
pub enum PathVariant {
    StdStream,
    Path(FsPath),
}

impl PathVariant {
    /// Whether this is standard input or output.
    pub fn is_std_stream(&self) -> (r: bool)
        ensures
            r == (*self is StdStream),
    {
        match self {
            PathVariant::StdStream => true,
            PathVariant::Path(_) => false,
        }
    }
}

/// One image, or a batch of images found by a glob pattern.
#[derive(Debug, Clone, Copy, PartialEq, Eq, Structural)]
pub enum InputOutputModeType {
    Simple,
    Batch,
}

/// The inputs and outputs of a run.
pub enum InputOutputMode {
    Single { input: PathVariant, output: PathVariant },
    Batch { inputs: CommonDir, output_root_folder: FsPath },
}

/// Which license texts to display.
#[derive(Debug, Clone, Copy, PartialEq, Eq, Structural)]
pub enum SelectedLicenses {
    ThisSoftware,
    Dependencies,
    ThisSoftwarePlusDependencies,
}

/// Encoder settings, and whether to fall back on the formats the `image`
/// crate recognises.
#[derive(Debug, Clone, Copy, PartialEq, Eq, Structural)]
pub struct FormatEncodingSettings {
    pub jpeg_quality: u8,
    pub pnm_use_ascii_format: bool,
    pub image_output_format_fallback: bool,
}

/// The settings of a run.
pub struct Config {
    pub tool_name: String,
    pub mode: InputOutputModeType,
    /// Display the license of this software or of its dependencies.
    pub show_license_text_of: Option<SelectedLicenses>,
    pub selected_frame: FrameIndex,
    pub disable_automatic_color_type_adjustment: bool,
    /// The format to convert to, whatever the output path says.
    pub forced_output_format: Option<String>,
    pub encoding_settings: FormatEncodingSettings,
    /// The statements to apply to each image.
    pub image_operations_program: Vec<Statement>,
}

pub open spec fn option_string_view(o: Option<String>) -> Option<Seq<char>> {
    match o {
        Some(s) => Some(s@),
        None => None,
    }
}

/// A [`Config`] as a mathematical value.
pub struct ConfigView {
    pub tool_name: Seq<char>,
    pub mode: InputOutputModeType,
    pub show_license_text_of: Option<SelectedLicenses>,
    pub selected_frame: FrameIndex,
    pub disable_automatic_color_type_adjustment: bool,
    pub forced_output_format: Option<Seq<char>>,
    pub encoding_settings: FormatEncodingSettings,
    pub image_operations_program: Seq<StatementView>,
}

impl View for Config {
    type V = ConfigView;

    open spec fn view(&self) -> ConfigView {
        ConfigView {
            tool_name: self.tool_name@,
            mode: self.mode,
            show_license_text_of: self.show_license_text_of,
            selected_frame: self.selected_frame,
            disable_automatic_color_type_adjustment: self.disable_automatic_color_type_adjustment,
            forced_output_format: option_string_view(self.forced_output_format),
            encoding_settings: self.encoding_settings,
            image_operations_program: statements_view(self.image_operations_program@),
        }
    }
}

/// The default settings: simple mode, no license text, the first frame,
/// automatic color type adjustment, no forced format, JPEG quality 80,
/// binary PNM samples, no fallback, no statements.
pub open spec fn default_config() -> ConfigView {
    ConfigView {
        tool_name: "sic"@,
        mode: InputOutputModeType::Simple,
        show_license_text_of: None,
        selected_frame: FrameIndex::First,
        disable_automatic_color_type_adjustment: false,
        forced_output_format: None,
        encoding_settings: FormatEncodingSettings {
            jpeg_quality: 80,
            pnm_use_ascii_format: false,
            image_output_format_fallback: false,
        },
        image_operations_program: seq![],
    }
}

impl Default for Config {
    fn default() -> (r: Config)
        ensures
            r@ == default_config(),
    {
        let c = Config {
            tool_name: String::from_str("sic"),
            mode: InputOutputModeType::Simple,
            show_license_text_of: None,
            selected_frame: FrameIndex::First,
            disable_automatic_color_type_adjustment: false,
            forced_output_format: None,
            encoding_settings: FormatEncodingSettings {
                jpeg_quality: 80,
                pnm_use_ascii_format: false,
                image_output_format_fallback: false,
            },
            image_operations_program: Vec::new(),
        };
        assert(c@.image_operations_program =~= Seq::<StatementView>::empty());
        c
    }
}

/// Builds a [`Config`], starting from the default settings.
pub struct ConfigBuilder {
    settings: Config,
}

impl View for ConfigBuilder {
    type V = ConfigView;

    closed spec fn view(&self) -> ConfigView {
        self.settings@
    }
}

impl ConfigBuilder {
    /// A builder holding the default settings.
    pub fn new() -> (r: ConfigBuilder)
        ensures
            r@ == default_config(),
    {
        ConfigBuilder { settings: Config::default() }
    }

    pub fn mode(self, mode: InputOutputModeType) -> (r: ConfigBuilder)
        ensures
            r@ == (ConfigView { mode: mode, ..self@ }),
    {
        let mut b = self;
        b.settings.mode = mode;
        b
    }

    pub fn show_license_text_of(self, selection: SelectedLicenses) -> (r: ConfigBuilder)
        ensures
            r@ == (ConfigView { show_license_text_of: Some(selection), ..self@ }),
    {
        let mut b = self;
        b.settings.show_license_text_of = Some(selection);
        b
    }

    pub fn select_frame(self, frame: FrameIndex) -> (r: ConfigBuilder)
        ensures
            r@ == (ConfigView { selected_frame: frame, ..self@ }),
    {
        let mut b = self;
        b.settings.selected_frame = frame;
        b
    }

    pub fn forced_output_format(self, format: &str) -> (r: ConfigBuilder)
        ensures
            r@ == (ConfigView { forced_output_format: Some(format@), ..self@ }),
    {
        let mut b = self;
        b.settings.forced_output_format = Some(String::from_str(format));
        b
    }

    pub fn disable_automatic_color_type_adjustment(self, toggle: bool) -> (r: ConfigBuilder)
        ensures
            r@ == (ConfigView { disable_automatic_color_type_adjustment: toggle, ..self@ }),
    {
        let mut b = self;
        b.settings.disable_automatic_color_type_adjustment = toggle;
        b
    }

    pub fn jpeg_quality(self, quality: u8) -> (r: ConfigBuilder)
        ensures
            r@ == (ConfigView {
                encoding_settings: FormatEncodingSettings { jpeg_quality: quality, ..self@.encoding_settings },
                ..self@
            }),
    {
        let mut b = self;
        b.settings.encoding_settings.jpeg_quality = quality;
        b
    }

    pub fn pnm_format_type(self, use_ascii: bool) -> (r: ConfigBuilder)
        ensures
            r@ == (ConfigView {
                encoding_settings: FormatEncodingSettings { pnm_use_ascii_format: use_ascii, ..self@.encoding_settings },
                ..self@
            }),
    {
        let mut b = self;
        b.settings.encoding_settings.pnm_use_ascii_format = use_ascii;
        b
    }

    pub fn image_output_format_decider_fallback(self, enable_fallback: bool) -> (r: ConfigBuilder)
        ensures
            r@ == (ConfigView {
                encoding_settings: FormatEncodingSettings {
                    image_output_format_fallback: enable_fallback,
                    ..self@.encoding_settings
                },
                ..self@
            }),
    {
        let mut b = self;
        b.settings.encoding_settings.image_output_format_fallback = enable_fallback;
        b
    }

    pub fn image_operations_program(self, program: Vec<Statement>) -> (r: ConfigBuilder)
        ensures
            r@ == (ConfigView { image_operations_program: statements_view(program@), ..self@ }),
    {
        let mut b = self;
        b.settings.image_operations_program = program;
        b
    }

    /// The settings built.
    pub fn build(self) -> (r: Config)
        ensures
            r@ == self@,
    {
        self.settings
    }
}

// ---------------------------------------------------------------------------
// Which input files to take
// ---------------------------------------------------------------------------

/// Whether a path is kept when unsupported paths are skipped: its extension
/// names a format this tool knows, or, with the fallback enabled, one the
/// `image` crate can encode.
pub open spec fn path_is_supported(p: Seq<Seq<char>>, fallback: bool) -> bool {
    spec_by_extension(DetermineEncodingFormat { pnm_sample_encoding: SampleEncoding::Binary, jpeg_quality: 80 }, p) is Ok
        || (fallback && spec_guess_by_extension(spec_extension(p)) is Ok)
}

/// The supported paths, in their order.
pub open spec fn supported_paths(paths: PathSeq, fallback: bool) -> PathSeq
    decreases paths.len(),
{
    if paths.len() == 0 {
        seq![]
    } else {
        let rest = supported_paths(paths.drop_last(), fallback);
        if path_is_supported(paths.last(), fallback) {
            rest.push(paths.last())
        } else {
            rest
        }
    }
}

/// Keeps the paths whose extension names a supported format (see
/// [`path_is_supported`]), in their order.
pub fn filter_unsupported_paths(paths: Vec<FsPath>, fallback_enabled: bool) -> (r: Vec<FsPath>)
    ensures
        paths_view(r@) == supported_paths(paths_view(paths@), fallback_enabled),
{
    let checker = DetermineEncodingFormat::default_settings();
    let ghost all = paths_view(paths@);
    let mut out: Vec<FsPath> = Vec::new();
    let mut i: usize = 0;
    while i < paths.len()
        invariant
            i <= paths.len(),
            all == paths_view(paths@),
            checker == (DetermineEncodingFormat { pnm_sample_encoding: SampleEncoding::Binary, jpeg_quality: 80 }),
            paths_view(out@) == supported_paths(all.take(i as int), fallback_enabled),
        decreases paths.len() - i,
    {
        let p = &paths[i];
        let by_ext = checker.by_extension(p);
        let res = by_ext.fallback_if(fallback_enabled, guess_output_by_path, p);
        assert(all.take(i + 1).drop_last() =~= all.take(i as int));
        assert(all.take(i + 1).last() == p@);
        assert(res is Ok <==> path_is_supported(p@, fallback_enabled));
        if res.is_ok() {
            let ghost before = paths_view(out@);
            out.push(p.copy());
            assert(paths_view(out@) =~= before.push(p@));
        }
        i += 1;
    }
    assert(all.take(paths.len() as int) =~= all);
    out
}

/// The error for an option value that is not a boolean, as the
/// command-line parser words it (without the colouring it adds when
/// writing to a terminal).
pub open spec fn boolean_error_message(value: Seq<char>) -> Seq<char> {
    "error: Invalid value: The argument '"@ + value + "' isn't a valid value"@
}

/// What the `boolean` crate reads from a text: `true` or `false` in any
/// (ASCII) case.
pub open spec fn spec_boolean(s: Seq<char>) -> Option<bool> {
    if ascii_lower(s) == "true"@ {
        Some(true)
    } else if ascii_lower(s) == "false"@ {
        Some(false)
    } else {
        None
    }
}

/// The `boolean` crate's `FromStr for Boolean` (version 0.3, default
/// features): `true` or `false` compared in ASCII lower case.
#[verifier::external_body]
fn boolean_from_str(s: &str) -> (r: Option<bool>)
    ensures
        r == spec_boolean(s@),
{
    match <boolean::Boolean as std::str::FromStr>::from_str(s) {
        Ok(boolean::Boolean::True) => Some(true),
        Ok(boolean::Boolean::False) => Some(false),
        Err(_) => None,
    }
}

/// Reads the value of the option that skips unsupported files.
pub fn parse_skip_unsupported(value: &str) -> (r: Result<bool, String>)
    ensures
        match spec_boolean(value@) {
            Some(b) => r == Ok::<bool, String>(b),
            None => r matches Err(e) && e@ == boolean_error_message(value@),
        },
{
    match boolean_from_str(value) {
        Some(b) => Ok(b),
        None => {
            let a = crate::text::concat_text("error: Invalid value: The argument '", value);
            Err(crate::text::concat_text(a.as_str(), "' isn't a valid value"))
        },
    }
}

/// The paths found by a glob pattern, with the unsupported ones left out
/// when asked for.
pub fn lookup_paths(paths: Vec<FsPath>, filter_unsupported: bool, imagecrate_fallback_enabled: bool) -> (r: Vec<FsPath>)
    ensures
        paths_view(r@) == if filter_unsupported {
            supported_paths(paths_view(paths@), imagecrate_fallback_enabled)
        } else {
            paths_view(paths@)
        },
{
    if filter_unsupported {
        filter_unsupported_paths(paths, imagecrate_fallback_enabled)
    } else {
        paths
    }
}

// ---------------------------------------------------------------------------
// Single or batch mode
// ---------------------------------------------------------------------------

pub open spec fn invalid_mode_message() -> Seq<char> {
    "unable to set mode: found invalid combination of mode, input arguments, and output argument"@
}

/// What the mode arguments ask for: a single image (from and to standard
/// streams where no path is given), or a batch found by a glob pattern.
pub enum ModeRequest {
    Single { input: PathVariant, output: PathVariant },
    Glob { pattern: String, output_root_folder: String },
}

pub open spec fn option_str_view(o: Option<&str>) -> Option<Seq<char>> {
    match o {
        Some(s) => Some(s@),
        None => None,
    }
}

pub open spec fn path_variant_view(p: PathVariant) -> Option<Seq<Seq<char>>> {
    match p {
        PathVariant::StdStream => None,
        PathVariant::Path(f) => Some(f@),
    }
}

pub open spec fn spec_path_variant(o: Option<Seq<char>>) -> Option<Seq<Seq<char>>> {
    match o {
        None => None,
        Some(p) => Some(parse_components(p)),
    }
}

fn path_variant_of(o: Option<&str>) -> (r: PathVariant)
    ensures
        path_variant_view(r) == spec_path_variant(option_str_view(o)),
{
    match o {
        Some(p) => PathVariant::Path(FsPath::new(p)),
        None => PathVariant::StdStream,
    }
}

/// Decides the mode from the mode, input and output arguments: `simple`
/// takes one image; `glob` takes a pattern and an output folder; anything
/// else is refused.
pub fn decide_mode(mode: Option<&str>, input: Option<&str>, output: Option<&str>) -> (r: Result<ModeRequest, String>)
    ensures
        match mode {
            Some(m) => if m@ == "simple"@ {
                r matches Ok(ModeRequest::Single { input: i, output: o }) && path_variant_view(i)
                    == spec_path_variant(option_str_view(input)) && path_variant_view(o)
                    == spec_path_variant(option_str_view(output))
            } else if m@ == "glob"@ && input is Some && output is Some {
                r matches Ok(ModeRequest::Glob { pattern: p, output_root_folder: f }) && p@
                    == input.unwrap()@ && f@ == output.unwrap()@
            } else {
                r matches Err(e) && e@ == invalid_mode_message()
            },
            None => r matches Err(e) && e@ == invalid_mode_message(),
        },
{
    match mode {
        Some(m) => {
            if text_equals(m, "simple") {
                Ok(ModeRequest::Single { input: path_variant_of(input), output: path_variant_of(output) })
            } else if text_equals(m, "glob") && input.is_some() && output.is_some() {
                Ok(ModeRequest::Glob {
                    pattern: String::from_str(input.unwrap()),
                    output_root_folder: String::from_str(output.unwrap()),
                })
            } else {
                Err(String::from_str(
                    "unable to set mode: found invalid combination of mode, input arguments, and output argument",
                ))
            }
        },
        None => Err(String::from_str(
            "unable to set mode: found invalid combination of mode, input arguments, and output argument",
        )),
    }
}

/// The batch mode for the paths a glob pattern found: the paths, filtered
/// as asked for, split at their common directory.
pub fn batch_mode(
    paths: Vec<FsPath>,
    filter_unsupported: bool,
    imagecrate_fallback_enabled: bool,
    output_root_folder: &str,
) -> (r: Result<InputOutputMode, String>)
    ensures
        ({
            let kept = if filter_unsupported {
                supported_paths(paths_view(paths@), imagecrate_fallback_enabled)
            } else {
                paths_view(paths@)
            };
            match spec_common_dir(kept) {
                Ok(cd) => r matches Ok(InputOutputMode::Batch { inputs: i, output_root_folder: o })
                    && i@ == cd && o@ == parse_components(output_root_folder@),
                Err(e) => r matches Err(x) && x@ == e,
            }
        }),
{
    let kept = lookup_paths(paths, filter_unsupported, imagecrate_fallback_enabled);
    match CommonDir::try_new(&kept) {
        Ok(inputs) => Ok(InputOutputMode::Batch { inputs, output_root_folder: FsPath::new(output_root_folder) }),
        Err(e) => Err(e),
    }
}

// ---------------------------------------------------------------------------
// The output format
// ---------------------------------------------------------------------------

/// The output format of a run: a forced format by its identifier, else the
/// extension of the output path, else BMP for standard output; with the
/// fallback enabled, the formats of the `image` crate are tried when these
/// fail.
pub open spec fn spec_format_decision(
    output: Option<Seq<Seq<char>>>,
    forced: Option<Seq<char>>,
    settings: FormatEncodingSettings,
) -> Result<OutputFormat, Seq<char>> {
    if !(1 <= settings.jpeg_quality <= 100) {
        Err(crate::jpeg::jpeg_quality_message())
    } else {
        let d = DetermineEncodingFormat {
            pnm_sample_encoding: if settings.pnm_use_ascii_format {
                SampleEncoding::Ascii
            } else {
                SampleEncoding::Binary
            },
            jpeg_quality: settings.jpeg_quality,
        };
        let fb = settings.image_output_format_fallback;
        match forced {
            Some(f) => match spec_by_identifier(d, f) {
                Ok(o) => Ok(o),
                Err(e) => if fb {
                    spec_guess_by_extension(spec_extension(parse_components("0."@ + f)))
                } else {
                    Err(e)
                },
            },
            None => match output {
                Some(p) => match spec_by_extension(d, p) {
                    Ok(o) => Ok(o),
                    Err(e) => if fb {
                        spec_guess_by_extension(spec_extension(p))
                    } else {
                        Err(e)
                    },
                },
                None => Ok(OutputFormat::Bmp),
            },
        }
    }
}

/// A forced output format decides alone: the output path, or whether the
/// output is standard output, does not change the decision.
pub proof fn lemma_forced_format_ignores_output(
    a: Option<Seq<Seq<char>>>,
    b: Option<Seq<Seq<char>>>,
    forced: Seq<char>,
    settings: FormatEncodingSettings,
)
    ensures
        spec_format_decision(a, Some(forced), settings) == spec_format_decision(b, Some(forced), settings),
{
}

/// Decides the output format of a run (see [`spec_format_decision`]).
pub fn create_format_decider(io_device: &PathVariant, config: &Config) -> (r: Result<OutputFormat, String>)
    ensures
        match (r, spec_format_decision(
            path_variant_view(*io_device),
            option_string_view(config.forced_output_format),
            config.encoding_settings,
        )) {
            (Ok(a), Ok(b)) => a == b,
            (Err(a), Err(b)) => a@ == b,
            _ => false,
        },
{
    let settings = config.encoding_settings;
    let quality = match validate_jpeg_quality(settings.jpeg_quality) {
        Ok(q) => q,
        Err(e) => {
            return Err(e);
        },
    };
    let resolver = DetermineEncodingFormat {
        pnm_sample_encoding: if settings.pnm_use_ascii_format {
            SampleEncoding::Ascii
        } else {
            SampleEncoding::Binary
        },
        jpeg_quality: quality,
    };
    let fb = settings.image_output_format_fallback;
    match &config.forced_output_format {
        Some(format) => {
            let by_id = resolver.by_identifier(format.as_str());
            by_id.fallback_if(fb, guess_output_by_identifier, format.as_str())
        },
        None => match io_device {
            PathVariant::Path(out) => {
                let by_ext = resolver.by_extension(out);
                by_ext.fallback_if(fb, guess_output_by_path, out)
            },
            PathVariant::StdStream => Ok(OutputFormat::Bmp),
        },
    }
}

// ---------------------------------------------------------------------------
// Settings from the arguments
// ---------------------------------------------------------------------------

/// How the image operations were given: as a script, or as arguments (the
/// nodes found for each operation that can be given as one).
pub enum ProgramInput {
    Script(String),
    Arguments(Vec<(OperationId, Option<Vec<IndexedOp>>)>),
}

/// The arguments of a run, as read from the command line.
pub struct AppArgs {
    pub license: bool,
    pub dep_licenses: bool,
    pub mode: Option<String>,
    pub select_frame: Option<String>,
    pub disable_automatic_color_type_adjustment: bool,
    pub output_format: Option<String>,
    pub jpeg_quality: Option<String>,
    pub pnm_ascii: bool,
    pub image_crate_fallback: bool,
    pub program: ProgramInput,
}

pub open spec fn jpeg_value_message() -> Seq<char> {
    "JPEG Encoding quality should be a value between 1 and 100 (inclusive)."@
}

/// The mode a mode argument names: `simple` (the default) or `glob`.
pub open spec fn spec_mode_type(mode: Option<Seq<char>>) -> Result<InputOutputModeType, Seq<char>> {
    match mode {
        None => Ok(InputOutputModeType::Simple),
        Some(m) => if m == "simple"@ {
            Ok(InputOutputModeType::Simple)
        } else if m == "glob"@ {
            Ok(InputOutputModeType::Batch)
        } else {
            Err(invalid_mode_message())
        },
    }
}

/// The mode a mode argument names (see [`spec_mode_type`]).
pub fn mode_type(mode: Option<&str>) -> (r: Result<InputOutputModeType, String>)
    ensures
        match (r, spec_mode_type(option_str_view(mode))) {
            (Ok(a), Ok(b)) => a == b,
            (Err(a), Err(b)) => a@ == b,
            _ => false,
        },
{
    match mode {
        None => Ok(InputOutputModeType::Simple),
        Some(m) => {
            if text_equals(m, "simple") {
                Ok(InputOutputModeType::Simple)
            } else if text_equals(m, "glob") {
                Ok(InputOutputModeType::Batch)
            } else {
                Err(String::from_str(
                    "unable to set mode: found invalid combination of mode, input arguments, and output argument",
                ))
            }
        },
    }
}

/// The quality asked for: a `u8` within 1..=100.
pub open spec fn spec_requested_quality(v: Seq<char>) -> Result<u8, Seq<char>> {
    match spec_parse_unsigned(v, 255) {
        None => Err(jpeg_value_message()),
        Some(q) => if 1 <= q <= 100 {
            Ok(q as u8)
        } else {
            Err(crate::jpeg::jpeg_quality_message())
        },
    }
}

pub open spec fn program_input_view(p: ProgramInput) -> Result<
    Seq<char>,
    Seq<(OperationId, Option<Seq<(usize, OpView)>>)>,
> {
    match p {
        ProgramInput::Script(s) => Ok(s@),
        ProgramInput::Arguments(ops) => Err(found_ops_view(ops@)),
    }
}

/// The statements of the image operations: those of the script, or those
/// built from the operations given as arguments, in the order of their
/// positions.
pub open spec fn spec_program(
    input: Result<Seq<char>, Seq<(OperationId, Option<Seq<(usize, OpView)>>)>>,
) -> Result<Seq<StatementView>, Seq<char>> {
    match input {
        Ok(script) => match spec_parse_script(script) {
            Ok(ops) => Ok(ops.map_values(|o: OperationView| StatementView::Operation(o))),
            Err(e) => Err(e),
        },
        Err(ops) => match spec_extend_with_operations(Map::empty(), ops) {
            Err(e) => Err(e),
            Ok(m) => statements_of(choose|s: Seq<(usize, OpView)>| is_ordered_listing(s, m)),
        },
    }
}

/// The settings of a run from its arguments: a license request stops at
/// the license; otherwise the mode, the frame, the encoder settings and the
/// statements are read in this order, and the first that fails decides the
/// error.
pub open spec fn spec_build_app_config(
    license: bool,
    dep_licenses: bool,
    mode: Option<Seq<char>>,
    select_frame: Option<Seq<char>>,
    disable_adjustment: bool,
    output_format: Option<Seq<char>>,
    jpeg_quality: Option<Seq<char>>,
    pnm_ascii: bool,
    fallback: bool,
    program: Result<Seq<char>, Seq<(OperationId, Option<Seq<(usize, OpView)>>)>>,
) -> Result<ConfigView, Seq<char>> {
    let d = default_config();
    if license {
        Ok(ConfigView { show_license_text_of: Some(SelectedLicenses::ThisSoftware), ..d })
    } else if dep_licenses {
        Ok(ConfigView { show_license_text_of: Some(SelectedLicenses::Dependencies), ..d })
    } else {
        match spec_mode_type(mode) {
            Err(e) => Err(e),
            Ok(m) => {
                let frame = match select_frame {
                    None => Ok(FrameIndex::First),
                    Some(v) => spec_frame_index(v),
                };
                match frame {
                    Err(e) => Err(e),
                    Ok(f) => {
                        let quality = match jpeg_quality {
                            None => Ok(80u8),
                            Some(v) => spec_requested_quality(v),
                        };
                        match quality {
                            Err(e) => Err(e),
                            Ok(q) => match spec_program(program) {
                                Err(e) => Err(e),
                                Ok(stmts) => Ok(
                                    ConfigView {
                                        tool_name: d.tool_name,
                                        mode: m,
                                        show_license_text_of: None,
                                        selected_frame: f,
                                        disable_automatic_color_type_adjustment: disable_adjustment,
                                        forced_output_format: output_format,
                                        encoding_settings: FormatEncodingSettings {
                                            jpeg_quality: q,
                                            pnm_use_ascii_format: pnm_ascii,
                                            image_output_format_fallback: fallback,
                                        },
                                        image_operations_program: stmts,
                                    },
                                ),
                            },
                        }
                    },
                }
            },
        }
    }
}

/// The settings of a run carry what its arguments ask for. A license
/// request gives the settings that show that license (this software's
/// first). Otherwise, when the settings build, they hold the forced output
/// format, the colour-type, PNM and fallback switches of the arguments, and
/// the JPEG quality whose decimal text was given (80 when none was).
pub proof fn lemma_settings_carry_arguments(
    license: bool,
    dep_licenses: bool,
    mode: Option<Seq<char>>,
    select_frame: Option<Seq<char>>,
    disable_adjustment: bool,
    output_format: Option<Seq<char>>,
    jpeg_quality: Option<Seq<char>>,
    pnm_ascii: bool,
    fallback: bool,
    program: Result<Seq<char>, Seq<(OperationId, Option<Seq<(usize, OpView)>>)>>,
    quality: u8,
)
    ensures
        ({
            let r = spec_build_app_config(
                license,
                dep_licenses,
                mode,
                select_frame,
                disable_adjustment,
                output_format,
                jpeg_quality,
                pnm_ascii,
                fallback,
                program,
            );
            &&& license ==> (r matches Ok(c) && c.show_license_text_of == Some(SelectedLicenses::ThisSoftware))
            &&& (!license && dep_licenses) ==> (r matches Ok(c) && c.show_license_text_of == Some(
                SelectedLicenses::Dependencies,
            ))
            &&& (!license && !dep_licenses) ==> (r matches Ok(c) ==> {
                &&& c.show_license_text_of is None
                &&& c.forced_output_format == output_format
                &&& c.disable_automatic_color_type_adjustment == disable_adjustment
                &&& c.encoding_settings.pnm_use_ascii_format == pnm_ascii
                &&& c.encoding_settings.image_output_format_fallback == fallback
                &&& jpeg_quality is None ==> c.encoding_settings.jpeg_quality == 80
                &&& (jpeg_quality == Some(crate::numeric::decimal_text(quality as nat)) && 1 <= quality <= 100)
                    ==> c.encoding_settings.jpeg_quality == quality
            })
        }),
{
    crate::numeric::lemma_parse_unsigned_text(quality as nat, 255);
}

fn as_statements(ops: Vec<Operation>) -> (r: Vec<Statement>)
    ensures
        statements_view(r@) == operations_view(ops@).map_values(
            |o: OperationView| StatementView::Operation(o),
        ),
{
    let ghost all = operations_view(ops@);
    let mut ops = ops;
    let mut rev: Vec<Statement> = Vec::new();
    while ops.len() > 0
        invariant
            operations_view(ops@) + statements_view(rev@).reverse().map_values(
                |s: StatementView| match s {
                    StatementView::Operation(o) => o,
                    _ => OperationView::Invert,
                },
            ) =~= all,
            forall|i: int| 0 <= i < rev@.len() ==> (#[trigger] rev@[i]) is Operation,
        decreases ops.len(),
    {
        let ghost before = operations_view(ops@);
        let ghost before_r = statements_view(rev@);
        let o = ops.pop().unwrap();
        rev.push(Statement::Operation(o));
        assert(before =~= operations_view(ops@).push(o@));
        assert(statements_view(rev@) =~= before_r.push(StatementView::Operation(o@)));
        assert(statements_view(rev@).reverse() =~= seq![StatementView::Operation(o@)] + before_r.reverse());
    }
    let mut out: Vec<Statement> = Vec::new();
    while rev.len() > 0
        invariant
            statements_view(out@) + statements_view(rev@).reverse() =~= all.map_values(
                |o: OperationView| StatementView::Operation(o),
            ),
        decreases rev.len(),
    {
        let ghost before_r = statements_view(rev@);
        let ghost before_o = statements_view(out@);
        let st = rev.pop().unwrap();
        let ghost sv = st@;
        out.push(st);
        assert(before_r =~= statements_view(rev@).push(sv));
        assert(before_r.reverse() =~= seq![sv] + statements_view(rev@).reverse());
        assert(statements_view(out@) =~= before_o.push(sv));
    }
    out
}

/// The settings of a run from its arguments (see [`spec_build_app_config`]).
pub fn build_app_config(args: AppArgs) -> (r: Result<Config, String>)
    ensures
        match (r, spec_build_app_config(
            args.license,
            args.dep_licenses,
            option_string_view(args.mode),
            option_string_view(args.select_frame),
            args.disable_automatic_color_type_adjustment,
            option_string_view(args.output_format),
            option_string_view(args.jpeg_quality),
            args.pnm_ascii,
            args.image_crate_fallback,
            program_input_view(args.program),
        )) {
            (Ok(a), Ok(b)) => a@ == b,
            (Err(a), Err(b)) => a@ == b,
            _ => false,
        },
{
    let mut builder = ConfigBuilder::new();
    if args.license {
        builder = builder.show_license_text_of(SelectedLicenses::ThisSoftware);
        return Ok(builder.build());
    } else if args.dep_licenses {
        builder = builder.show_license_text_of(SelectedLicenses::Dependencies);
        return Ok(builder.build());
    }
    let mode = match &args.mode {
        Some(m) => mode_type(Some(m.as_str())),
        None => mode_type(None),
    };
    match mode {
        Err(e) => {
            return Err(e);
        },
        Ok(m) => {
            builder = builder.mode(m);
        },
    }
    if let Some(value) = &args.select_frame {
        match parse_frame_index(value.as_str()) {
            Err(e) => {
                return Err(e);
            },
            Ok(index) => {
                builder = builder.select_frame(index);
            },
        }
    }
    if args.disable_automatic_color_type_adjustment {
        builder = builder.disable_automatic_color_type_adjustment(true);
    }
    if let Some(format) = &args.output_format {
        builder = builder.forced_output_format(format.as_str());
    }
    if let Some(value) = &args.jpeg_quality {
        let cs = chars_of(value.as_str());
        match parse_u8(&cs) {
            None => {
                return Err(String::from_str(
                    "JPEG Encoding quality should be a value between 1 and 100 (inclusive).",
                ));
            },
            Some(q) => match validate_jpeg_quality(q) {
                Err(e) => {
                    return Err(e);
                },
                Ok(q) => {
                    builder = builder.jpeg_quality(q);
                },
            },
        }
    }
    if args.pnm_ascii {
        builder = builder.pnm_format_type(true);
    }
    builder = builder.image_output_format_decider_fallback(args.image_crate_fallback);
    let program = match args.program {
        ProgramInput::Script(script) => match parse_script(script.as_str()) {
            Err(e) => {
                return Err(e);
            },
            Ok(ops) => as_statements(ops),
        },
        ProgramInput::Arguments(ops) => {
            let ghost found = found_ops_view(ops@);
            let mut tree: IndexTree = BTreeMap::new();
            assert(tree_view(tree@) =~= Map::<usize, OpView>::empty());
            match build_ast(&mut tree, ops) {
                Err(e) => {
                    proof {
                        match spec_extend_with_operations(Map::empty(), found) {
                            Ok(m) => {
                                let s = choose|s: Seq<(usize, OpView)>|
                                    is_ordered_listing(s, m) && statements_of(s) == Err::<Seq<StatementView>, Seq<char>>(e@);
                                lemma_ordered_listing_unique(s, choose|t: Seq<(usize, OpView)>| is_ordered_listing(t, m), m);
                            },
                            Err(_) => {},
                        }
                    }
                    return Err(e);
                },
                Ok(stmts) => {
                    proof {
                        let m = tree_view(tree@);
                        let s = choose|s: Seq<(usize, OpView)>|
                            is_ordered_listing(s, m) && statements_of(s) == Ok::<Seq<StatementView>, Seq<char>>(statements_view(stmts@));
                        lemma_ordered_listing_unique(s, choose|t: Seq<(usize, OpView)>| is_ordered_listing(t, m), m);
                    }
                    stmts
                },
            }
        },
    };
    builder = builder.image_operations_program(program);
    Ok(builder.build())
}

} // verus!
