//! Showing license texts: the license of this tool, and the licenses of its
//! dependencies, of which a copy can be downloaded on request.

use vstd::prelude::*;
use crate::cli_config::{Config, SelectedLicenses};
use crate::numeric::ascii_lower;
use crate::text::{chars_of, concat_text, string_of};

verus! {

/// The license texts the tool ships with.
pub struct LicenseTexts {
    this_software: String,
}

impl View for LicenseTexts {
    type V = Seq<char>;

    closed spec fn view(&self) -> Seq<char> {
        self.this_software@
    }
}

impl LicenseTexts {
    /// The texts, with the license of this software.
    pub fn new(this_software: &str) -> (r: LicenseTexts)
        ensures
            r@ == this_software@,
    {
        LicenseTexts { this_software: String::from_str(this_software) }
    }

    /// The license of this software.
    pub fn this_software(&self) -> (r: &str)
        ensures
            r@ == self@,
    {
        self.this_software.as_str()
    }
}

pub open spec fn this_software_header() -> Seq<char> {
    "sic image tools license:\n\n"@
}

pub open spec fn dependencies_notice() -> Seq<char> {
    "You should have received a licenses.html file with the distribution, but you can download another copy here."@
}

pub open spec fn copy_prompt() -> Seq<char> {
    "Open new copy [yes / no (default)]: "@
}

/// What to do to show a license text.
pub enum LicenseStep {
    /// Print the text, followed by a new line.
    Print(String),
    /// Print the notice, then ask with the prompt (no new line) whether a
    /// copy should be opened.
    AskForCopy { notice: String, prompt: String },
}

pub open spec fn license_step_view(s: LicenseStep) -> (bool, Seq<char>, Seq<char>) {
    match s {
        LicenseStep::Print(t) => (true, t@, seq![]),
        LicenseStep::AskForCopy { notice, prompt } => (false, notice@, prompt@),
    }
}

/// The steps that show the selected license texts: this software's license
/// under a header; for the dependencies, the offer of a copy; both, in that
/// order, for both.
pub open spec fn spec_license_steps(selection: SelectedLicenses, this_software: Seq<char>) -> Seq<(bool, Seq<char>, Seq<char>)> {
    let own = (true, this_software_header() + this_software, Seq::<char>::empty());
    let deps = (false, dependencies_notice(), copy_prompt());
    match selection {
        SelectedLicenses::ThisSoftware => seq![own],
        SelectedLicenses::Dependencies => seq![deps],
        SelectedLicenses::ThisSoftwarePlusDependencies => seq![own, deps],
    }
}

fn own_license_step(texts: &LicenseTexts) -> (r: LicenseStep)
    ensures
        license_step_view(r) == (true, this_software_header() + texts@, Seq::<char>::empty()),
{
    let text = concat_text("sic image tools license:\n\n", texts.this_software());
    LicenseStep::Print(text)
}

fn dependencies_step() -> (r: LicenseStep)
    ensures
        license_step_view(r) == (false, dependencies_notice(), copy_prompt()),
{
    LicenseStep::AskForCopy {
        notice: String::from_str(
            "You should have received a licenses.html file with the distribution, but you can download another copy here.",
        ),
        prompt: String::from_str("Open new copy [yes / no (default)]: "),
    }
}

/// The steps that show the selected license texts (see [`spec_license_steps`]).
pub fn license_steps(selection: SelectedLicenses, texts: &LicenseTexts) -> (r: Vec<LicenseStep>)
    ensures
        r@.map_values(|s: LicenseStep| license_step_view(s)) == spec_license_steps(selection, texts@),
{
    let mut out: Vec<LicenseStep> = Vec::new();
    match selection {
        SelectedLicenses::ThisSoftware => {
            out.push(own_license_step(texts));
        },
        SelectedLicenses::Dependencies => {
            out.push(dependencies_step());
        },
        SelectedLicenses::ThisSoftwarePlusDependencies => {
            out.push(own_license_step(texts));
            out.push(dependencies_step());
        },
    }
    assert(out@.map_values(|s: LicenseStep| license_step_view(s)) =~= spec_license_steps(selection, texts@));
    out
}

pub open spec fn no_selection_message() -> Seq<char> {
    "Unable to determine which license texts should be displayed."@
}

/// The license texts a run was asked to show.
pub fn license_selection(config: &Config) -> (r: Result<SelectedLicenses, String>)
    ensures
        match config.show_license_text_of {
            Some(s) => r == Ok::<SelectedLicenses, String>(s),
            None => r matches Err(e) && e@ == no_selection_message(),
        },
{
    match config.show_license_text_of {
        Some(s) => Ok(s),
        None => Err(String::from_str("Unable to determine which license texts should be displayed.")),
    }
}

/// The characters std's `str::trim` removes: those with the Unicode
/// `White_Space` property.
pub open spec fn is_white_space(c: char) -> bool {
    c == '\t' || c == '\n' || c == '\u{0B}' || c == '\u{0C}' || c == '\r' || c == ' '
        || c == '\u{85}' || c == '\u{A0}' || c == '\u{1680}' || ('\u{2000}' <= c && c <= '\u{200A}')
        || c == '\u{2028}' || c == '\u{2029}' || c == '\u{202F}' || c == '\u{205F}' || c == '\u{3000}'
}

fn is_white_space_char(c: char) -> (r: bool)
    ensures
        r == is_white_space(c),
{
    c == '\t' || c == '\n' || c == '\u{0B}' || c == '\u{0C}' || c == '\r' || c == ' '
        || c == '\u{85}' || c == '\u{A0}' || c == '\u{1680}' || ('\u{2000}' <= c && c <= '\u{200A}')
        || c == '\u{2028}' || c == '\u{2029}' || c == '\u{202F}' || c == '\u{205F}' || c == '\u{3000}'
}

/// `s` without its leading and trailing white space.
pub open spec fn trimmed(s: Seq<char>, start: int, end: int) -> bool {
    &&& 0 <= start <= end <= s.len()
    &&& forall|i: int| 0 <= i < start ==> is_white_space(#[trigger] s[i])
    &&& forall|i: int| end <= i < s.len() ==> is_white_space(#[trigger] s[i])
    &&& start < end ==> !is_white_space(s[start]) && !is_white_space(s[end - 1])
}

/// Whether an answer asks for a copy: `yes` or `y`, in any (ASCII) case,
/// with white space around it.
pub open spec fn is_affirmative(answer: Seq<char>) -> bool {
    exists|start: int, end: int|
        trimmed(answer, start, end) && (ascii_lower(answer.subrange(start, end)) == "yes"@
            || ascii_lower(answer.subrange(start, end)) == "y"@)
}

proof fn lemma_trim_unique(s: Seq<char>, a: int, b: int, c: int, d: int)
    requires
        trimmed(s, a, b),
        trimmed(s, c, d),
        a < b,
    ensures
        a == c && b == d,
{
    if c < a {
        assert(is_white_space(s[c]));
    }
    if a < c && a < b {
        assert(is_white_space(s[a]));
    }
    if c == d {
        assert(is_white_space(s[a]));
    }
    if d > b {
        assert(is_white_space(s[d - 1]));
    }
    if d < b {
        assert(is_white_space(s[b - 1]));
    }
}

/// Whether an answer asks for a copy of the dependencies' licenses (see
/// [`is_affirmative`]).
pub fn request_another_copy(answer: &str) -> (r: bool)
    ensures
        r == is_affirmative(answer@),
{
    let cs = chars_of(answer);
    let mut start: usize = 0;
    while start < cs.len() && is_white_space_char(cs[start])
        invariant
            start <= cs.len(),
            forall|i: int| 0 <= i < start ==> is_white_space(#[trigger] cs@[i]),
        decreases cs.len() - start,
    {
        start += 1;
    }
    let mut end: usize = cs.len();
    while end > start && is_white_space_char(cs[end - 1])
        invariant
            start <= end <= cs.len(),
            forall|i: int| end <= i < cs.len() ==> is_white_space(#[trigger] cs@[i]),
        decreases end,
    {
        end -= 1;
    }
    let ghost s = cs@;
    assert(trimmed(s, start as int, end as int));
    let mut lower: Vec<char> = Vec::new();
    let mut i: usize = start;
    while i < end
        invariant
            start <= i <= end,
            end <= cs.len(),
            lower@ =~= ascii_lower(cs@.subrange(start as int, i as int)),
        decreases end - i,
    {
        lower.push(crate::numeric::ascii_lower_of(cs[i]));
        i += 1;
    }
    let word = string_of(&lower);
    let r = crate::text::text_equals(word.as_str(), "yes") || crate::text::text_equals(word.as_str(), "y");
    proof {
        assert(cs@ == answer@);
        if is_affirmative(s) {
            let (a, b) = choose|a: int, b: int|
                trimmed(s, a, b) && (ascii_lower(s.subrange(a, b)) == "yes"@
                    || ascii_lower(s.subrange(a, b)) == "y"@);
            reveal_strlit("yes");
            reveal_strlit("y");
            if a < b {
                lemma_trim_unique(s, a, b, start as int, end as int);
            } else {
                assert(ascii_lower(s.subrange(a, b)).len() == 0);
            }
        }
    }
    r
}

/// Shows the licenses a conversion asks for.
#[derive(Debug)]
pub struct LicenseDisplayProcessor;

impl LicenseDisplayProcessor {
    pub fn new() -> (r: LicenseDisplayProcessor) {
        LicenseDisplayProcessor
    }

    /// The texts to print for the selected licenses, in order: this
    /// software's license under a header followed by two new lines, or the
    /// dependencies' licenses. The tool stops after printing them, unless
    /// there are none.
    pub fn print_licenses(
        slice: &Vec<crate::config::SelectedLicenses>,
        sic_license: &str,
        dep_licenses: &str,
    ) -> (r: Vec<String>)
        ensures
            r@.len() == slice@.len(),
            forall|i: int| 0 <= i < slice@.len() ==> (#[trigger] r@[i])@ == match slice@[i] {
                crate::config::SelectedLicenses::ThisSoftware => "Simple Image Converter license: \n\n"@ + sic_license@ + "\n\n"@,
                crate::config::SelectedLicenses::Dependencies => dep_licenses@,
            },
    {
        let mut out: Vec<String> = Vec::new();
        let mut i: usize = 0;
        while i < slice.len()
            invariant
                i <= slice.len(),
                out@.len() == i,
                forall|j: int| 0 <= j < i ==> (#[trigger] out@[j])@ == match slice@[j] {
                    crate::config::SelectedLicenses::ThisSoftware => "Simple Image Converter license: \n\n"@ + sic_license@ + "\n\n"@,
                    crate::config::SelectedLicenses::Dependencies => dep_licenses@,
                },
            decreases slice.len() - i,
        {
            let text = match slice[i] {
                crate::config::SelectedLicenses::ThisSoftware => {
                    let a = concat_text("Simple Image Converter license: \n\n", sic_license);
                    concat_text(a.as_str(), "\n\n")
                },
                crate::config::SelectedLicenses::Dependencies => String::from_str(dep_licenses),
            };
            out.push(text);
            i += 1;
        }
        out
    }
}

} // verus!
