//! Publishing the crates of the workspace: the options of the publishing
//! command, and the git commands it runs for each crate.

use vstd::prelude::*;
use crate::text::concat_text;

verus! {

/// The options of publishing a workspace.
#[derive(Debug)]
pub struct PublishWorkspace {
    /// Only simulate.
    pub dry_run: bool,
    /// The workspace manifest, usually the root `Cargo.toml`.
    pub manifest: String,
    /// The version all crates of the workspace are updated to.
    pub new_version: String,
}

/// The publishing command, as `cargo publish-workspace`.
#[derive(Debug)]
pub enum CargoPublishWorkspace {
    PublishWorkspace(PublishWorkspace),
}

impl CargoPublishWorkspace {
    /// The options of the command.
    pub fn get_arguments(self) -> (r: PublishWorkspace)
        ensures
            self matches CargoPublishWorkspace::PublishWorkspace(opts) && r == opts,
    {
        match self {
            CargoPublishWorkspace::PublishWorkspace(opts) => opts,
        }
    }
}

impl PublishWorkspace {
    /// The version the crates are updated to.
    pub fn version(&self) -> (r: &str)
        ensures
            r@ == self.new_version@,
    {
        self.new_version.as_str()
    }
}

/// A step of publishing, run with the options of the command.
pub trait Action {
    fn run(&mut self, args: &PublishWorkspace) -> Result<(), String>;
}

/// The message of the commit that updates a crate.
pub open spec fn spec_commit_message(package_name: Seq<char>, version: Seq<char>) -> Seq<char> {
    "update "@ + package_name + "@"@ + version
}

/// The message of the commit that updates a crate (see [`spec_commit_message`]).
pub fn commit_message(package_name: &str, version: &str) -> (r: String)
    ensures
        r@ == spec_commit_message(package_name@, version@),
{
    let a = concat_text("update ", package_name);
    let b = concat_text(a.as_str(), "@");
    concat_text(b.as_str(), version)
}

/// The arguments of `git` that commit the updated manifests of a crate.
pub open spec fn spec_commit_arguments(package_name: Seq<char>, version: Seq<char>, dry_run: bool) -> Seq<Seq<char>> {
    let message = spec_commit_message(package_name, version);
    (seq!["commit"@] + if dry_run { seq!["--dry-run"@] } else { seq![] }) + seq![
        "-m"@,
        message,
        "--only"@,
        "--"@,
        "Cargo.*"@,
    ]
}

/// The arguments of `git` that commit the updated manifests of a crate (see
/// [`spec_commit_arguments`]).
pub fn commit_arguments(package_name: &str, version: &str, dry_run: bool) -> (r: Vec<String>)
    ensures
        r@.map_values(|s: String| s@) == spec_commit_arguments(package_name@, version@, dry_run),
{
    let message = commit_message(package_name, version);
    let mut arguments: Vec<String> = Vec::new();
    arguments.push(String::from_str("commit"));
    if dry_run {
        arguments.push(String::from_str("--dry-run"));
    }
    arguments.push(String::from_str("-m"));
    arguments.push(message);
    arguments.push(String::from_str("--only"));
    arguments.push(String::from_str("--"));
    arguments.push(String::from_str("Cargo.*"));
    assert(arguments@.map_values(|s: String| s@) =~= spec_commit_arguments(package_name@, version@, dry_run));
    arguments
}

/// The name of the tag of a version.
pub fn tag_name(version: &str) -> (r: String)
    ensures
        r@ == "v"@ + version@,
{
    concat_text("v", version)
}

/// The arguments of `git` that tag a version.
pub fn tag_arguments(version: &str) -> (r: Vec<String>)
    ensures
        r@.map_values(|s: String| s@) == seq!["tag"@, "v"@ + version@],
{
    let tag = tag_name(version);
    let mut arguments: Vec<String> = Vec::new();
    arguments.push(String::from_str("tag"));
    arguments.push(tag);
    assert(arguments@.map_values(|s: String| s@) =~= seq!["tag"@, "v"@ + version@]);
    arguments
}

/// Whether tagging is skipped: on a dry run.
pub fn skips_tagging(args: &PublishWorkspace) -> (r: bool)
    ensures
        r == args.dry_run,
{
    args.dry_run
}

/// The version dependents are updated to: the override when one is given,
/// else the version of the command.
pub fn dependent_version<'a>(override_version: Option<&'a str>, args: &'a PublishWorkspace) -> (r: &'a str)
    ensures
        match override_version {
            Some(v) => r@ == v@,
            None => r@ == args.new_version@,
        },
{
    match override_version {
        Some(v) => v,
        None => args.version(),
    }
}

/// The tables of a dependent's manifest in which the version of a
/// dependency is updated, in this order: `dependencies` for a normal
/// dependency, `dev-dependencies` for a development one and
/// `build-dependencies` for a build one.
pub open spec fn spec_dependency_tables(normal: bool, dev: bool, build: bool) -> Seq<Seq<char>> {
    (if normal { seq!["dependencies"@] } else { seq![] })
        + (if dev { seq!["dev-dependencies"@] } else { seq![] })
        + (if build { seq!["build-dependencies"@] } else { seq![] })
}

/// The manifest tables to update (see [`spec_dependency_tables`]).
pub fn dependency_tables(normal: bool, dev: bool, build: bool) -> (r: Vec<String>)
    ensures
        r@.map_values(|s: String| s@) == spec_dependency_tables(normal, dev, build),
{
    let mut tables: Vec<String> = Vec::new();
    if normal {
        tables.push(String::from_str("dependencies"));
    }
    if dev {
        tables.push(String::from_str("dev-dependencies"));
    }
    if build {
        tables.push(String::from_str("build-dependencies"));
    }
    assert(tables@.map_values(|s: String| s@) =~= spec_dependency_tables(normal, dev, build));
    tables
}

/// Whether a package of the workspace is one of the published ones: its
/// name starts with `sic`.
pub fn is_published_package(name: &str) -> (r: bool)
    ensures
        r == (name@.len() >= 3 && name@.subrange(0, 3) == "sic"@),
{
    let cs = crate::text::chars_of(name);
    proof {
        reveal_strlit("sic");
    }
    if cs.len() < 3 {
        return false;
    }
    let r = cs[0] == 's' && cs[1] == 'i' && cs[2] == 'c';
    assert("sic"@ =~= seq!['s', 'i', 'c']);
    if r {
        assert(cs@.subrange(0, 3) =~= "sic"@);
    } else {
        assert(cs@.subrange(0, 3) != "sic"@) by {
            if cs@.subrange(0, 3) == "sic"@ {
                assert(cs@.subrange(0, 3)[0] == 's');
                assert(cs@.subrange(0, 3)[1] == 'i');
                assert(cs@.subrange(0, 3)[2] == 'c');
            }
        }
    }
    r
}

} // verus!
