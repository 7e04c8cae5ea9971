//! Finding the deepest directory that a set of input files share, so that
//! the structure below it can be mirrored under a new output root: each
//! input is split into the common directory and the branch `k` for which
//! `concat(common dir, k)` gives the input back.

use vstd::prelude::*;
use crate::path::{
    components_view, is_absolute, spec_file_name, spec_join, spec_parent, spec_starts_with, spec_unroot,
    components_wf, is_inner_component, root_component, FsPath,
};

verus! {

/// Paths as mathematical values: each a sequence of components.
pub type PathSeq = Seq<Seq<Seq<char>>>;

pub open spec fn paths_view(ps: Seq<FsPath>) -> PathSeq {
    ps.map_values(|p: FsPath| p@)
}

/// Every path of `paths` starts with `base`.
pub open spec fn all_start_with(paths: PathSeq, base: Seq<Seq<char>>) -> bool {
    forall|i: int| 0 <= i < paths.len() ==> spec_starts_with(#[trigger] paths[i], base)
}

/// The smallest number of components an ancestor of `trunk` keeps: the
/// root of an absolute path is its last ancestor, the empty path that of a
/// relative one.
pub open spec fn ancestor_floor(trunk: Seq<Seq<char>>) -> int {
    if is_absolute(trunk) {
        1
    } else {
        0
    }
}

/// Walks the ancestors of `trunk` from the one with `k` components upwards
/// and gives the length of the first one that every path starts with.
pub open spec fn common_depth(paths: PathSeq, trunk: Seq<Seq<char>>, k: int) -> Option<int>
    decreases k - ancestor_floor(trunk) + 1,
{
    if k < ancestor_floor(trunk) || k > trunk.len() {
        None
    } else if all_start_with(paths, trunk.take(k)) {
        Some(k)
    } else {
        common_depth(paths, trunk, k - 1)
    }
}

/// A common directory with, for each input path, the input and its branch.
pub struct CommonDirView {
    pub root: Seq<Seq<char>>,
    pub entries: Seq<(Seq<Seq<char>>, Seq<Seq<char>>)>,
}

pub open spec fn no_paths_message() -> Seq<char> {
    "No paths found (glob mode)"@
}

pub open spec fn no_root_message() -> Seq<char> {
    "No root directory found (glob mode)"@
}

pub open spec fn invalid_file_path_message() -> Seq<char> {
    "Unable to mirror input directory to output: found an invalid file path"@
}

/// What the search for a common directory of `paths` gives: the deepest
/// ancestor of the first path's parent that all paths start with, each path
/// split there; failing that, that parent, with each path's file name as its
/// branch.
pub open spec fn spec_common_dir(paths: PathSeq) -> Result<CommonDirView, Seq<char>> {
    if paths.len() == 0 {
        Err(no_paths_message())
    } else {
        match spec_parent(paths[0]) {
            None => Err(no_root_message()),
            Some(trunk) => match common_depth(paths, trunk, trunk.len() as int) {
                Some(k) => Ok(
                    CommonDirView {
                        root: trunk.take(k),
                        entries: paths.map_values(
                            |p: Seq<Seq<char>>| (p, spec_unroot(trunk.take(k), p)),
                        ),
                    },
                ),
                None => if forall|i: int|
                    0 <= i < paths.len() ==> (#[trigger] spec_file_name(paths[i])) is Some {
                    Ok(
                        CommonDirView {
                            root: trunk,
                            entries: paths.map_values(
                                |p: Seq<Seq<char>>| (p, seq![spec_file_name(p).unwrap()]),
                            ),
                        },
                    )
                } else {
                    Err(invalid_file_path_message())
                },
            },
        }
    }
}

proof fn lemma_common_depth_found(paths: PathSeq, trunk: Seq<Seq<char>>, k: int)
    requires
        common_depth(paths, trunk, k) is Some,
    ensures
        ancestor_floor(trunk) <= common_depth(paths, trunk, k).unwrap() <= k,
        common_depth(paths, trunk, k).unwrap() <= trunk.len(),
        all_start_with(paths, trunk.take(common_depth(paths, trunk, k).unwrap())),
    decreases k - ancestor_floor(trunk) + 1,
{
    if k < ancestor_floor(trunk) || k > trunk.len() {
    } else if all_start_with(paths, trunk.take(k)) {
    } else {
        lemma_common_depth_found(paths, trunk, k - 1);
    }
}

/// Mirroring gives each input back: when the inputs share an ancestor of
/// the first input's directory, joining the common root with an input's
/// branch yields that input.
pub proof fn lemma_root_join_branch(paths: PathSeq, i: int)
    requires
        forall|j: int| 0 <= j < paths.len() ==> components_wf(#[trigger] paths[j]),
        0 <= i < paths.len(),
        spec_parent(paths[0]) matches Some(trunk) && common_depth(
            paths,
            trunk,
            trunk.len() as int,
        ) is Some,
    ensures
        spec_common_dir(paths) matches Ok(cd) && cd.entries[i].0 == paths[i] && spec_join(
            cd.root,
            cd.entries[i].1,
        ) == paths[i],
{
    let trunk = spec_parent(paths[0]).unwrap();
    lemma_common_depth_found(paths, trunk, trunk.len() as int);
    let k = common_depth(paths, trunk, trunk.len() as int).unwrap();
    let root = trunk.take(k);
    let p = paths[i];
    assert(spec_starts_with(p, root));
    assert(components_wf(p));
    let rest = spec_unroot(root, p);
    assert(rest == p.skip(root.len() as int));
    assert(spec_common_dir(paths) == Ok::<CommonDirView, Seq<char>>(
        CommonDirView {
            root: root,
            entries: paths.map_values(|q: Seq<Seq<char>>| (q, spec_unroot(root, q))),
        },
    ));
    assert(root + rest =~= p);
    if root.len() > 0 && rest.len() > 0 {
        let c = p[root.len() as int];
        assert(rest[0] == c);
        assert(is_inner_component(c));
        assert(root_component().contains('/')) by {
            assert(root_component()[0] == '/');
        }
        assert(c != root_component());
        assert(!is_absolute(rest));
    }
}

/// A common directory (the root) and the input paths split at it.
pub struct CommonDir {
    root: FsPath,
    entries: Vec<(FsPath, FsPath)>,
}

pub open spec fn entries_view(es: Seq<(FsPath, FsPath)>) -> Seq<(Seq<Seq<char>>, Seq<Seq<char>>)> {
    es.map_values(|e: (FsPath, FsPath)| (e.0@, e.1@))
}

impl View for CommonDir {
    type V = CommonDirView;

    closed spec fn view(&self) -> CommonDirView {
        CommonDirView { root: self.root@, entries: entries_view(self.entries@) }
    }
}

/// `path` without as many leading components as `root` has.
pub fn unroot(root: &FsPath, path: &FsPath) -> (r: FsPath)
    ensures
        r@ == spec_unroot(root@, path@),
{
    let n = root.len();
    if n <= path.len() {
        path.suffix(n)
    } else {
        FsPath::empty()
    }
}

fn all_paths_start_with(paths: &Vec<FsPath>, base: &FsPath) -> (r: bool)
    ensures
        r == all_start_with(paths_view(paths@), base@),
{
    let mut i: usize = 0;
    while i < paths.len()
        invariant
            i <= paths.len(),
            forall|j: int| 0 <= j < i ==> spec_starts_with(#[trigger] paths_view(paths@)[j], base@),
        decreases paths.len() - i,
    {
        if !paths[i].starts_with(base) {
            assert(paths_view(paths@)[i as int] == paths@[i as int]@);
            return false;
        }
        i += 1;
    }
    true
}

/// Searches the common directory of `paths` (see [`spec_common_dir`]).
pub fn naive_find_common_dir(paths: &Vec<FsPath>) -> (r: Result<CommonDir, String>)
    ensures
        match (r, spec_common_dir(paths_view(paths@))) {
            (Ok(a), Ok(b)) => a@ == b,
            (Err(a), Err(b)) => a@ == b,
            _ => false,
        },
{
    let ghost ps = paths_view(paths@);
    if paths.len() == 0 {
        assert(ps.len() == 0);
        return Err(String::from_str("No paths found (glob mode)"));
    }
    assert(ps[0] == paths@[0]@);
    let trunk = match paths[0].parent() {
        None => {
            return Err(String::from_str("No root directory found (glob mode)"));
        },
        Some(t) => t,
    };
    let floor: usize = if trunk.is_absolute() {
        1
    } else {
        0
    };
    proof {
        reveal_with_fuel(common_depth, 2);
    }
    let mut k: usize = trunk.len();
    loop
        invariant
            floor == ancestor_floor(trunk@),
            floor <= k <= trunk@.len(),
            ps == paths_view(paths@),
            ps.len() > 0,
            spec_parent(ps[0]) == Some(trunk@),
            common_depth(ps, trunk@, trunk@.len() as int) == common_depth(ps, trunk@, k as int),
        ensures
            common_depth(ps, trunk@, trunk@.len() as int) is None,
        decreases k,
    {
        let ancestor = trunk.prefix(k);
        if all_paths_start_with(paths, &ancestor) {
            let mut entries: Vec<(FsPath, FsPath)> = Vec::new();
            let mut i: usize = 0;
            while i < paths.len()
                invariant
                    i <= paths.len(),
                    ps == paths_view(paths@),
                    ancestor@ == trunk@.take(k as int),
                    entries_view(entries@) =~= ps.take(i as int).map_values(
                        |p: Seq<Seq<char>>| (p, spec_unroot(trunk@.take(k as int), p)),
                    ),
                decreases paths.len() - i,
            {
                let original = paths[i].copy();
                let branch = unroot(&ancestor, &paths[i]);
                let ghost before = entries_view(entries@);
                entries.push((original, branch));
                assert(ps[i as int] == paths@[i as int]@);
                assert(entries_view(entries@) =~= before.push(
                    (ps[i as int], spec_unroot(trunk@.take(k as int), ps[i as int])),
                ));
                i += 1;
            }
            assert(ps.take(paths.len() as int) == ps);
            assert(common_depth(ps, trunk@, k as int) == Some(k as int));
            assert(entries_view(entries@) =~= ps.map_values(
                |p: Seq<Seq<char>>| (p, spec_unroot(trunk@.take(k as int), p)),
            ));
            let r = CommonDir { root: ancestor, entries };
            proof {
                let expected = spec_common_dir(ps);
                let tk = trunk@.take(k as int);
                assert(expected == Ok::<CommonDirView, Seq<char>>(
                    CommonDirView {
                        root: tk,
                        entries: ps.map_values(|p: Seq<Seq<char>>| (p, spec_unroot(tk, p))),
                    },
                ));
                assert(r@.entries =~= ps.map_values(|p: Seq<Seq<char>>| (p, spec_unroot(tk, p))));
            }
            return Ok(r);
        }
        assert(common_depth(ps, trunk@, k as int) == common_depth(ps, trunk@, k - 1));
        if k == floor {
            assert(common_depth(ps, trunk@, k - 1) is None);
            break;
        }
        k -= 1;
    }
    let mut set: Vec<(FsPath, FsPath)> = Vec::new();
    let mut i: usize = 0;
    while i < paths.len()
        invariant
            i <= paths.len(),
            ps == paths_view(paths@),
            ps.len() > 0,
            spec_parent(ps[0]) == Some(trunk@),
            common_depth(ps, trunk@, trunk@.len() as int) is None,
            forall|j: int| 0 <= j < i ==> (#[trigger] spec_file_name(ps[j])) is Some,
            entries_view(set@) =~= ps.take(i as int).map_values(
                |p: Seq<Seq<char>>| (p, seq![spec_file_name(p).unwrap()]),
            ),
        decreases paths.len() - i,
    {
        assert(ps[i as int] == paths@[i as int]@);
        match paths[i].file_name() {
            None => {
                assert(spec_file_name(ps[i as int]) is None);
                assert(!(forall|j: int|
                    0 <= j < ps.len() ==> (#[trigger] spec_file_name(ps[j])) is Some));
                return Err(
                    String::from_str(
                        "Unable to mirror input directory to output: found an invalid file path",
                    ),
                );
            },
            Some(name) => {
                paths[i].check_wf();
                let ghost p = ps[i as int];
                assert(p.last() == p[p.len() - 1]);
                let mut comps: Vec<Vec<char>> = Vec::new();
                comps.push(name);
                assert(components_view(comps@) =~= seq![spec_file_name(ps[i as int]).unwrap()]);
                assert(components_wf(components_view(comps@)));
                let branch = FsPath::from_components(comps);
                let ghost before = entries_view(set@);
                set.push((paths[i].copy(), branch));
                assert(entries_view(set@) =~= before.push(
                    (ps[i as int], seq![spec_file_name(ps[i as int]).unwrap()]),
                ));
            },
        }
        i += 1;
    }
    assert(ps.take(paths.len() as int) == ps);
    assert(entries_view(set@) =~= ps.map_values(
        |p: Seq<Seq<char>>| (p, seq![spec_file_name(p).unwrap()]),
    ));
    Ok(CommonDir { root: trunk, entries: set })
}

impl CommonDir {
    /// Finds the common directory of `paths` (see [`spec_common_dir`]).
    pub fn try_new(paths: &Vec<FsPath>) -> (r: Result<CommonDir, String>)
        ensures
            match (r, spec_common_dir(paths_view(paths@))) {
                (Ok(a), Ok(b)) => a@ == b,
                (Err(a), Err(b)) => a@ == b,
                _ => false,
            },
    {
        naive_find_common_dir(paths)
    }

    /// The common root directory.
    pub fn common_root(&self) -> (r: &FsPath)
        ensures
            r@ == self@.root,
    {
        &self.root
    }

    /// The input paths, in the order they were given.
    pub fn input_paths(&self) -> (r: Vec<FsPath>)
        ensures
            paths_view(r@) == self@.entries.map_values(
                |e: (Seq<Seq<char>>, Seq<Seq<char>>)| e.0,
            ),
    {
        let mut out: Vec<FsPath> = Vec::new();
        let mut i: usize = 0;
        while i < self.entries.len()
            invariant
                i <= self.entries.len(),
                paths_view(out@) =~= entries_view(self.entries@).take(i as int).map_values(
                    |e: (Seq<Seq<char>>, Seq<Seq<char>>)| e.0,
                ),
            decreases self.entries.len() - i,
        {
            let ghost before = paths_view(out@);
            out.push(self.entries[i].0.copy());
            assert(paths_view(out@) =~= before.push(entries_view(self.entries@)[i as int].0));
            i += 1;
        }
        assert(entries_view(self.entries@).take(self.entries.len() as int) == entries_view(
            self.entries@,
        ));
        out
    }

    /// The branches: the `k` in `concat(common dir, k)` of each input path.
    pub fn path_branches(&self) -> (r: Vec<FsPath>)
        ensures
            paths_view(r@) == self@.entries.map_values(
                |e: (Seq<Seq<char>>, Seq<Seq<char>>)| e.1,
            ),
    {
        let mut out: Vec<FsPath> = Vec::new();
        let mut i: usize = 0;
        while i < self.entries.len()
            invariant
                i <= self.entries.len(),
                paths_view(out@) =~= entries_view(self.entries@).take(i as int).map_values(
                    |e: (Seq<Seq<char>>, Seq<Seq<char>>)| e.1,
                ),
            decreases self.entries.len() - i,
        {
            let ghost before = paths_view(out@);
            out.push(self.entries[i].1.copy());
            assert(paths_view(out@) =~= before.push(entries_view(self.entries@)[i as int].1));
            i += 1;
        }
        assert(entries_view(self.entries@).take(self.entries.len() as int) == entries_view(
            self.entries@,
        ));
        out
    }

    /// Each input path with its branch.
    pub fn path_combinations(&self) -> (r: Vec<(FsPath, FsPath)>)
        ensures
            entries_view(r@) == self@.entries,
    {
        let mut out: Vec<(FsPath, FsPath)> = Vec::new();
        let mut i: usize = 0;
        while i < self.entries.len()
            invariant
                i <= self.entries.len(),
                entries_view(out@) =~= entries_view(self.entries@).take(i as int),
            decreases self.entries.len() - i,
        {
            let ghost before = entries_view(out@);
            out.push((self.entries[i].0.copy(), self.entries[i].1.copy()));
            assert(entries_view(out@) =~= before.push(entries_view(self.entries@)[i as int]));
            i += 1;
        }
        assert(entries_view(self.entries@).take(self.entries.len() as int) == entries_view(
            self.entries@,
        ));
        out
    }
}

} // verus!
