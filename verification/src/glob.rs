//! Glob patterns for batch mode: splitting a pattern into the directory the
//! search starts from and the pattern below it, and deciding which found
//! files are kept.

use vstd::prelude::*;
use crate::formats::image_format_of_extension;
use crate::path::{is_absolute, spec_extension, FsPath};

verus! {

/// A component of a pattern that globs: it holds `*`, `{` or `}`.
pub open spec fn is_glob_component(c: Seq<char>) -> bool {
    c.contains('*') || c.contains('{') || c.contains('}')
}

/// The number of leading components that do not glob.
pub open spec fn literal_prefix_len(cs: Seq<Seq<char>>) -> nat
    decreases cs.len(),
{
    if cs.len() == 0 || is_glob_component(cs[0]) {
        0
    } else {
        1 + literal_prefix_len(cs.drop_first())
    }
}

/// Splits a pattern into the directory to search from and the pattern
/// below it: an absolute pattern at its first component that globs; a
/// relative one is searched from `.` as a whole.
pub open spec fn spec_glob_base(p: Seq<Seq<char>>) -> (Seq<Seq<char>>, Seq<Seq<char>>) {
    if is_absolute(p) {
        let k = literal_prefix_len(p) as int;
        (p.take(k), p.skip(k))
    } else {
        (seq![seq!['.']], p)
    }
}

proof fn lemma_literal_prefix(cs: Seq<Seq<char>>)
    ensures
        literal_prefix_len(cs) <= cs.len(),
        forall|i: int| 0 <= i < literal_prefix_len(cs) ==> !is_glob_component(#[trigger] cs[i]),
        literal_prefix_len(cs) < cs.len() ==> is_glob_component(cs[literal_prefix_len(cs) as int]),
    decreases cs.len(),
{
    if cs.len() > 0 && !is_glob_component(cs[0]) {
        lemma_literal_prefix(cs.drop_first());
        assert forall|i: int| 0 <= i < literal_prefix_len(cs) implies !is_glob_component(#[trigger] cs[i]) by {
            if i > 0 {
                assert(cs[i] == cs.drop_first()[i - 1]);
            }
        }
    }
}

/// An absolute pattern is split without losing anything: the base followed
/// by the pattern below it is the whole pattern, and no component of the
/// base globs.
pub proof fn lemma_glob_base_splits_pattern(p: Seq<Seq<char>>)
    requires
        is_absolute(p),
    ensures
        spec_glob_base(p).0 + spec_glob_base(p).1 == p,
        forall|i: int| 0 <= i < spec_glob_base(p).0.len() ==> !is_glob_component(#[trigger] spec_glob_base(p).0[i]),
{
    lemma_literal_prefix(p);
    let k = literal_prefix_len(p) as int;
    assert(p.take(k) + p.skip(k) =~= p);
}

fn component_globs(c: &Vec<char>) -> (r: bool)
    ensures
        r == is_glob_component(c@),
{
    let mut i: usize = 0;
    while i < c.len()
        invariant
            i <= c.len(),
            forall|j: int| 0 <= j < i ==> c@[j] != '*' && c@[j] != '{' && c@[j] != '}',
        decreases c.len() - i,
    {
        if c[i] == '*' || c[i] == '{' || c[i] == '}' {
            return true;
        }
        i += 1;
    }
    false
}

/// Splits a pattern into the directory to search from and the pattern
/// below it (see [`spec_glob_base`]).
pub fn glob_base_unrooted(path_pattern: &str) -> (r: (FsPath, FsPath))
    ensures
        (r.0@, r.1@) == spec_glob_base(crate::path::parse_components(path_pattern@)),
{
    let path = FsPath::new(path_pattern);
    if path.is_absolute() {
        let ghost cs = path@;
        proof {
            lemma_literal_prefix(cs);
        }
        let mut k: usize = 0;
        while k < path.len() && !component_globs(path.component(k))
            invariant
                k <= path@.len(),
                cs == path@,
                forall|i: int| 0 <= i < k ==> !is_glob_component(#[trigger] cs[i]),
                k <= literal_prefix_len(cs),
                literal_prefix_len(cs) <= cs.len(),
                literal_prefix_len(cs) < cs.len() ==> is_glob_component(cs[literal_prefix_len(cs) as int]),
            decreases path@.len() - k,
        {
            proof {
                if k == literal_prefix_len(cs) {
                    assert(is_glob_component(cs[k as int]));
                }
            }
            k += 1;
        }
        (path.prefix(k), path.suffix(k))
    } else {
        let dot = FsPath::new(".");
        proof {
            reveal_strlit(".");
            assert(crate::path::parse_components("."@) =~= seq![seq!['.']]) by {
                assert("."@ =~= seq!['.']);
                assert(crate::path::seg_len("."@) == 1) by {
                    assert("."@.drop_first() =~= Seq::<char>::empty());
                    assert(crate::path::seg_len("."@.drop_first()) == 0);
                }
                assert("."@.skip(1) =~= Seq::<char>::empty());
            }
        }
        (dot, path)
    }
}

/// A path is passed on to a pattern library as it is, also when it starts
/// with `./`.
pub fn when_starts_with_dot_path(path: &str) -> (r: &str)
    ensures
        r@ == path@,
{
    path
}

/// The base directory and patterns for a glob search: the base of the
/// pattern (see [`spec_glob_base`]) and the given filters followed by the
/// pattern below the base, all as text.
pub fn glob_builder_base(pattern: &str, filters: &Vec<String>) -> (r: (String, Vec<String>))
    ensures
        r.0@ == crate::path::render_path(spec_glob_base(crate::path::parse_components(pattern@)).0),
        r.1@.len() == filters@.len() + 1,
        forall|i: int| 0 <= i < filters@.len() ==> (#[trigger] r.1@[i])@ == filters@[i]@,
        r.1@[filters@.len() as int]@ == crate::path::render_path(
            spec_glob_base(crate::path::parse_components(pattern@)).1,
        ),
{
    let (base, pat) = glob_base_unrooted(pattern);
    let base_str = base.to_path_string();
    let pat_str = pat.to_path_string();
    let mut out: Vec<String> = Vec::new();
    let mut i: usize = 0;
    while i < filters.len()
        invariant
            i <= filters.len(),
            out@.len() == i,
            forall|j: int| 0 <= j < i ==> (#[trigger] out@[j])@ == filters@[j]@,
        decreases filters.len() - i,
    {
        let f = when_starts_with_dot_path(filters[i].as_str());
        out.push(String::from_str(f));
        i += 1;
    }
    out.push(String::from_str(when_starts_with_dot_path(pat_str.as_str())));
    (String::from_str(when_starts_with_dot_path(base_str.as_str())), out)
}

/// What the `wax` crate gives for a glob expression when it builds a glob
/// from it and partitions that glob: the invariant prefix (as a path text)
/// and the variant rest (as glob text); nothing when the expression does not
/// build. Named for a Unix target, whose separators and case sensitivity
/// the partition follows.
pub uninterp spec fn wax_partition(expression: Seq<char>) -> Option<(Seq<char>, Seq<char>)>;

/// The `wax` crate's `Glob::new` (version 0.6) followed by
/// `Glob::partition`: on success, the prefix as path text and the rest of
/// the glob as its text; on a build error, that error's message. What the
/// two parts are is named [`wax_partition`]; the error's text is not
/// stated. `partition` recompiles the rest with an `expect` that the crate
/// holds never fails for a glob that built.
#[verifier::external_body]
fn glob_partition(expression: &str) -> (r: Result<(String, String), String>)
    ensures
        match r {
            Ok((p, g)) => wax_partition(expression@) == Some((p@, g@)),
            Err(_) => wax_partition(expression@) is None,
        },
{
    match wax::Glob::new(expression) {
        Ok(glob) => {
            let (prefix, rest) = glob.partition();
            Ok((prefix.to_string_lossy().into_owned(), rest.to_string()))
        },
        Err(e) => Err(e.to_string()),
    }
}

/// Resolving glob patterns, optionally skipping files the `image` crate
/// does not know by their extension.
#[derive(Debug, Default)]
pub struct GlobResolver {
    skip_unsupported: bool,
}

impl View for GlobResolver {
    type V = bool;

    closed spec fn view(&self) -> bool {
        self.skip_unsupported
    }
}

/// Whether a found file is kept: always, unless skipping is enabled and the
/// file has an extension the `image` crate does not recognise.
pub open spec fn spec_keeps_path(skip_unsupported: bool, p: Seq<Seq<char>>) -> bool {
    !skip_unsupported || match spec_extension(p) {
        None => true,
        Some(e) => image_format_of_extension(e) is Some,
    }
}

impl GlobResolver {
    /// A resolver that keeps every file.
    pub fn new() -> (r: GlobResolver)
        ensures
            r@ == false,
    {
        GlobResolver { skip_unsupported: false }
    }

    /// Enables or disables skipping unsupported files.
    pub fn with_skip_unsupported(self, value: bool) -> (r: GlobResolver)
        ensures
            r@ == value,
    {
        let mut g = self;
        g.skip_unsupported = value;
        g
    }

    /// The pattern as the glob library takes it; patterns are used as given.
    pub fn preprocess(expression: &str) -> (r: &str)
        ensures
            r@ == expression@,
    {
        expression
    }

    /// Splits a glob expression, after preprocessing, into the directory a
    /// search starts from and the glob below it, as the `wax` crate does
    /// (see [`wax_partition`]); an expression that does not build is an
    /// error.
    pub fn partition(&self, expression: &str) -> (r: Result<(FsPath, String), String>)
        ensures
            match wax_partition(expression@) {
                Some((p, g)) => r matches Ok((a, b)) && a@ == crate::path::parse_components(p) && b@ == g,
                None => r is Err,
            },
    {
        let expression = Self::preprocess(expression);
        match glob_partition(expression) {
            Ok((prefix, rest)) => Ok((FsPath::new(prefix.as_str()), rest)),
            Err(e) => Err(e),
        }
    }

    /// Whether a found file is kept (see [`spec_keeps_path`]).
    pub fn keeps_path(&self, path: &FsPath) -> (r: bool)
        ensures
            r == spec_keeps_path(self@, path@),
    {
        is_supported_ext(self.skip_unsupported, path)
    }
}

/// Whether a found file is kept (see [`spec_keeps_path`]).
pub fn is_supported_ext(enabled: bool, path: &FsPath) -> (r: bool)
    ensures
        r == spec_keeps_path(enabled, path@),
{
    if !enabled {
        return true;
    }
    match path.extension() {
        None => true,
        Some(e) => {
            let text = crate::text::string_of(&e);
            crate::formats::known_image_extension(text.as_str())
        },
    }
}

} // verus!
