//! File-system paths as sequences of components, following the way std's
//! `Path::components` reads a Unix path: a leading `/` is the root, `.` is
//! kept only at the front of a relative path, empty segments vanish.

use vstd::prelude::*;
use crate::text::{chars_equal, chars_of, copy_chars, push_char};

verus! {

pub open spec fn root_component() -> Seq<char> {
    seq!['/']
}

pub open spec fn cur_component() -> Seq<char> {
    seq!['.']
}

pub open spec fn parent_component() -> Seq<char> {
    seq!['.', '.']
}

/// A component that may stand anywhere: a name or `..`.
pub open spec fn is_inner_component(c: Seq<char>) -> bool {
    c.len() > 0 && !c.contains('/') && c != cur_component()
}

/// Well-formed component sequences: the root or `.` may only come first.
pub open spec fn components_wf(cs: Seq<Seq<char>>) -> bool {
    forall|i: int|
        0 <= i < cs.len() ==> (is_inner_component(#[trigger] cs[i]) || (i == 0 && (cs[i]
            == root_component() || cs[i] == cur_component())))
}

pub open spec fn is_absolute(cs: Seq<Seq<char>>) -> bool {
    cs.len() > 0 && cs[0] == root_component()
}

/// The length of the segment (run of characters other than `/`) starting `s`.
pub open spec fn seg_len(s: Seq<char>) -> nat
    decreases s.len(),
{
    if s.len() > 0 && s[0] != '/' {
        1 + seg_len(s.drop_first())
    } else {
        0
    }
}

pub proof fn lemma_seg_len(s: Seq<char>)
    ensures
        seg_len(s) <= s.len(),
        s.len() > 0 && s[0] != '/' ==> seg_len(s) >= 1,
        !s.take(seg_len(s) as int).contains('/'),
        seg_len(s) < s.len() ==> s[seg_len(s) as int] == '/',
    decreases s.len(),
{
    if s.len() > 0 && s[0] != '/' {
        lemma_seg_len(s.drop_first());
        assert forall|i: int| 0 <= i < seg_len(s) implies s.take(seg_len(s) as int)[i] != '/' by {
            if i > 0 {
                assert(s.take(seg_len(s) as int)[i] == s.drop_first().take(
                    seg_len(s.drop_first()) as int,
                )[i - 1]);
            }
        }
        if seg_len(s) < s.len() {
            assert(s[seg_len(s) as int] == s.drop_first()[seg_len(s.drop_first()) as int]);
        }
    }
}

/// The components of the part of a path after its first segment decision:
/// every non-empty segment other than `.`.
pub open spec fn tail_components(s: Seq<char>) -> Seq<Seq<char>>
    decreases s.len(),
{
    if s.len() == 0 {
        seq![]
    } else if s[0] == '/' {
        tail_components(s.drop_first())
    } else {
        proof {
            lemma_seg_len(s);
        }
        let seg = s.take(seg_len(s) as int);
        (if seg == cur_component() {
            seq![]
        } else {
            seq![seg]
        }) + tail_components(s.skip(seg_len(s) as int))
    }
}

/// The components std's `Path::components` gives for a Unix path.
pub open spec fn parse_components(s: Seq<char>) -> Seq<Seq<char>> {
    if s.len() > 0 && s[0] == '/' {
        seq![root_component()] + tail_components(s)
    } else if seg_len(s) == 1 && s[0] == '.' {
        seq![cur_component()] + tail_components(s.skip(1))
    } else {
        tail_components(s)
    }
}

/// A file-system path by its components (see [`parse_components`]).
pub struct FsPath {
    components: Vec<Vec<char>>,
}

pub open spec fn components_view(cs: Seq<Vec<char>>) -> Seq<Seq<char>> {
    cs.map_values(|c: Vec<char>| c@)
}

impl View for FsPath {
    type V = Seq<Seq<char>>;

    closed spec fn view(&self) -> Seq<Seq<char>> {
        components_view(self.components@)
    }
}

proof fn lemma_tail_components_wf(s: Seq<char>)
    ensures
        forall|i: int|
            0 <= i < tail_components(s).len() ==> is_inner_component(
                #[trigger] tail_components(s)[i],
            ),
    decreases s.len(),
{
    if s.len() == 0 {
    } else if s[0] == '/' {
        lemma_tail_components_wf(s.drop_first());
        assert(tail_components(s) == tail_components(s.drop_first()));
    } else {
        lemma_seg_len(s);
        let seg = s.take(seg_len(s) as int);
        let rest = tail_components(s.skip(seg_len(s) as int));
        lemma_tail_components_wf(s.skip(seg_len(s) as int));
        let head: Seq<Seq<char>> = if seg == cur_component() {
            seq![]
        } else {
            seq![seg]
        };
        assert(tail_components(s) == head + rest);
        assert forall|i: int| 0 <= i < tail_components(s).len() implies is_inner_component(
            #[trigger] tail_components(s)[i],
        ) by {
            if i < head.len() {
                assert(tail_components(s)[i] == seg);
                assert(seg.len() > 0);
                assert(!seg.contains('/'));
                assert(seg != cur_component());
            } else {
                assert(tail_components(s)[i] == rest[i - head.len()]);
            }
        }
    }
}

pub proof fn lemma_parse_components_wf(s: Seq<char>)
    ensures
        components_wf(parse_components(s)),
{
    lemma_tail_components_wf(s);
    lemma_tail_components_wf(s.skip(1));
}

impl FsPath {
    #[verifier::type_invariant]
    closed spec fn wf(self) -> bool {
        components_wf(self@)
    }

    /// Every path is well formed.
    pub fn check_wf(&self)
        ensures
            components_wf(self@),
    {
        proof {
            use_type_invariant(self);
        }
    }

    /// The path from its components.
    pub fn from_components(components: Vec<Vec<char>>) -> (p: FsPath)
        requires
            components_wf(components_view(components@)),
        ensures
            p@ == components_view(components@),
    {
        FsPath { components }
    }

    /// The empty path.
    pub fn empty() -> (p: FsPath)
        ensures
            p@ == Seq::<Seq<char>>::empty(),
    {
        let p = FsPath { components: Vec::new() };
        assert(p@ =~= Seq::<Seq<char>>::empty());
        p
    }

    /// Reads a path from its text.
    pub fn new(s: &str) -> (p: FsPath)
        ensures
            p@ == parse_components(s@),
    {
        let cs = chars_of(s);
        FsPath::from_chars(&cs)
    }

    /// Reads a path from its characters.
    pub fn from_chars(cs: &Vec<char>) -> (p: FsPath)
        ensures
            p@ == parse_components(cs@),
    {
        let mut comps: Vec<Vec<char>> = Vec::new();
        let mut i: usize = 0;
        let ghost s = cs@;
        proof {
            lemma_seg_len(s);
            lemma_parse_components_wf(s);
        }
        assert(s.skip(0) == s);
        if cs.len() > 0 && cs[0] == '/' {
            let root: Vec<char> = vec!['/'];
            assert(root@ =~= root_component());
            comps.push(root);
            assert(components_view(comps@) =~= seq![root_component()]);
        } else if cs.len() > 0 && cs[0] == '.' && (cs.len() == 1 || cs[1] == '/') {
            assert(s.drop_first().len() > 0 ==> s.drop_first()[0] == s[1]);
            assert(seg_len(s.drop_first()) == 0);
            let cur: Vec<char> = vec!['.'];
            assert(cur@ =~= cur_component());
            comps.push(cur);
            assert(components_view(comps@) =~= seq![cur_component()]);
            i = 1;
        } else {
            if cs.len() > 0 && cs[0] == '.' {
                assert(s.drop_first()[0] == s[1]);
                assert(seg_len(s.drop_first()) >= 1);
            }
            assert(components_view(comps@) =~= Seq::<Seq<char>>::empty());
            assert(Seq::<Seq<char>>::empty() + tail_components(s) =~= tail_components(s));
        }
        while i < cs.len()
            invariant
                s == cs@,
                i <= cs.len(),
                components_view(comps@) + tail_components(s.skip(i as int)) == parse_components(s),
            decreases cs.len() - i,
        {
            let ghost rest = s.skip(i as int);
            assert(rest[0] == cs@[i as int]);
            if cs[i] == '/' {
                assert(rest.drop_first() == s.skip(i + 1));
                i += 1;
            } else {
                let mut j = i;
                let mut seg: Vec<char> = Vec::new();
                while j < cs.len() && cs[j] != '/'
                    invariant
                        s == cs@,
                        i <= j <= cs.len(),
                        rest == s.skip(i as int),
                        seg@ == s.subrange(i as int, j as int),
                        seg_len(rest) == (j - i) + seg_len(s.skip(j as int)),
                    decreases cs.len() - j,
                {
                    assert(s.skip(j as int).drop_first() == s.skip(j + 1));
                    seg.push(cs[j]);
                    assert(seg@ == s.subrange(i as int, j + 1));
                    j += 1;
                }
                assert(seg_len(s.skip(j as int)) == 0);
                assert(rest.take(seg_len(rest) as int) == seg@);
                assert(rest.skip(seg_len(rest) as int) == s.skip(j as int));
                let is_dot = seg.len() == 1 && seg[0] == '.';
                assert(is_dot ==> seg@ =~= cur_component());
                assert(is_dot == (seg@ == cur_component()));
                if !is_dot {
                    let ghost segv = seg@;
                    let ghost before = components_view(comps@);
                    comps.push(seg);
                    assert(components_view(comps@) =~= before.push(segv));
                    assert(before + (seq![segv] + tail_components(s.skip(j as int))) =~= before.push(
                        segv,
                    ) + tail_components(s.skip(j as int)));
                } else {
                    assert(Seq::<Seq<char>>::empty() + tail_components(s.skip(j as int))
                        =~= tail_components(s.skip(j as int)));
                }
                i = j;
            }
        }
        assert(s.skip(i as int) == Seq::<char>::empty());
        assert(components_view(comps@) + Seq::<Seq<char>>::empty() =~= components_view(comps@));
        FsPath { components: comps }
    }

    /// The number of components.
    pub fn len(&self) -> (n: usize)
        ensures
            n == self@.len(),
    {
        self.components.len()
    }

    /// Component `i`.
    pub fn component(&self, i: usize) -> (c: &Vec<char>)
        requires
            i < self@.len(),
        ensures
            c@ == self@[i as int],
    {
        &self.components[i]
    }

    /// A copy of the path.
    pub fn copy(&self) -> (p: FsPath)
        ensures
            p@ == self@,
    {
        self.prefix(self.components.len())
    }

    /// The path of the first `k` components.
    pub fn prefix(&self, k: usize) -> (p: FsPath)
        requires
            k <= self@.len(),
        ensures
            p@ == self@.take(k as int),
    {
        proof {
            use_type_invariant(self);
        }
        let mut comps: Vec<Vec<char>> = Vec::new();
        let mut i: usize = 0;
        while i < k
            invariant
                k <= self@.len(),
                i <= k,
                components_view(comps@) =~= self@.take(i as int),
            decreases k - i,
        {
            let ghost before = components_view(comps@);
            comps.push(copy_chars(&self.components[i]));
            assert(components_view(comps@) =~= before.push(self@[i as int]));
            i += 1;
        }
        FsPath { components: comps }
    }

    /// The path without its first `k` components.
    pub fn suffix(&self, k: usize) -> (p: FsPath)
        requires
            k <= self@.len(),
        ensures
            p@ == self@.skip(k as int),
    {
        proof {
            use_type_invariant(self);
            assert forall|i: int| 0 <= i < self@.skip(k as int).len() implies (is_inner_component(
                #[trigger] self@.skip(k as int)[i],
            ) || (i == 0 && (self@.skip(k as int)[i] == root_component() || self@.skip(
                k as int,
            )[i] == cur_component()))) by {
                assert(self@.skip(k as int)[i] == self@[i + k]);
            }
        }
        let mut comps: Vec<Vec<char>> = Vec::new();
        let mut i: usize = k;
        while i < self.components.len()
            invariant
                k <= i <= self@.len(),
                self@.len() == self.components@.len(),
                components_view(comps@) =~= self@.subrange(k as int, i as int),
            decreases self.components.len() - i,
        {
            let ghost before = components_view(comps@);
            comps.push(copy_chars(&self.components[i]));
            assert(components_view(comps@) =~= before.push(self@[i as int]));
            i += 1;
        }
        FsPath { components: comps }
    }
}


/// std's `Path::parent`: the path without its last component, unless the
/// path is empty or only the root.
pub open spec fn spec_parent(p: Seq<Seq<char>>) -> Option<Seq<Seq<char>>> {
    if p.len() == 0 || (p.len() == 1 && p[0] == root_component()) {
        None
    } else {
        Some(p.drop_last())
    }
}

/// std's `Path::file_name`: the last component when it is a name (not the
/// root, `.` or `..`).
pub open spec fn spec_file_name(p: Seq<Seq<char>>) -> Option<Seq<char>> {
    if p.len() > 0 && p.last() != root_component() && p.last() != cur_component() && p.last()
        != parent_component() {
        Some(p.last())
    } else {
        None
    }
}

/// std's `Path::starts_with`: `base` is a prefix of `p`, component by component.
pub open spec fn spec_starts_with(p: Seq<Seq<char>>, base: Seq<Seq<char>>) -> bool {
    base.len() <= p.len() && p.take(base.len() as int) == base
}

/// `path` without as many leading components as `root` has.
pub open spec fn spec_unroot(root: Seq<Seq<char>>, path: Seq<Seq<char>>) -> Seq<Seq<char>> {
    if root.len() <= path.len() {
        path.skip(root.len() as int)
    } else {
        seq![]
    }
}

/// std's `PathBuf::push` of `other` onto `p`: an absolute `other` replaces
/// `p`; otherwise its components follow those of `p`, a leading `.` of
/// `other` vanishing when `p` is not empty.
pub open spec fn spec_join(p: Seq<Seq<char>>, other: Seq<Seq<char>>) -> Seq<Seq<char>> {
    if is_absolute(other) {
        other
    } else if p.len() > 0 && other.len() > 0 && other[0] == cur_component() {
        p + other.drop_first()
    } else {
        p + other
    }
}

/// The last index of `c` in `s`, if `c` occurs.
pub open spec fn last_index_of(s: Seq<char>, c: char) -> Option<int>
    decreases s.len(),
{
    if s.len() == 0 {
        None
    } else if s.last() == c {
        Some(s.len() - 1)
    } else {
        last_index_of(s.drop_last(), c)
    }
}

proof fn lemma_last_index_of(s: Seq<char>, c: char)
    ensures
        match last_index_of(s, c) {
            Some(k) => 0 <= k < s.len() && s[k] == c,
            None => !s.contains(c),
        },
    decreases s.len(),
{
    if s.len() > 0 && s.last() != c {
        lemma_last_index_of(s.drop_last(), c);
        if last_index_of(s, c) is None {
            assert forall|i: int| 0 <= i < s.len() implies s[i] != c by {
                if i < s.len() - 1 {
                    assert(s[i] == s.drop_last()[i]);
                }
            }
        }
    }
}

/// std's `Path::extension`: the part of the file name after its last `.`,
/// unless there is no `.` or the only one starts the name.
pub open spec fn spec_extension(p: Seq<Seq<char>>) -> Option<Seq<char>> {
    match spec_file_name(p) {
        None => None,
        Some(f) => match last_index_of(f, '.') {
            None => None,
            Some(k) => if k == 0 {
                None
            } else {
                Some(f.skip(k + 1))
            },
        },
    }
}

/// Components joined by `/`.
pub open spec fn join_with_slash(cs: Seq<Seq<char>>) -> Seq<char>
    decreases cs.len(),
{
    if cs.len() == 0 {
        seq![]
    } else if cs.len() == 1 {
        cs[0]
    } else {
        join_with_slash(cs.drop_last()) + seq!['/'] + cs.last()
    }
}

/// The text of a path: its components joined by `/`, the root written as a
/// leading `/`.
pub open spec fn render_path(p: Seq<Seq<char>>) -> Seq<char> {
    if is_absolute(p) {
        seq!['/'] + join_with_slash(p.drop_first())
    } else {
        join_with_slash(p)
    }
}

fn is_root_chars(c: &Vec<char>) -> (r: bool)
    ensures
        r == (c@ == root_component()),
{
    let r = c.len() == 1 && c[0] == '/';
    assert(r ==> c@ =~= root_component());
    r
}

fn is_cur_chars(c: &Vec<char>) -> (r: bool)
    ensures
        r == (c@ == cur_component()),
{
    let r = c.len() == 1 && c[0] == '.';
    assert(r ==> c@ =~= cur_component());
    r
}

fn is_parent_chars(c: &Vec<char>) -> (r: bool)
    ensures
        r == (c@ == parent_component()),
{
    let r = c.len() == 2 && c[0] == '.' && c[1] == '.';
    assert(r ==> c@ =~= parent_component());
    r
}

fn last_index_of_exec(s: &Vec<char>, c: char) -> (r: Option<usize>)
    ensures
        match r {
            Some(k) => last_index_of(s@, c) == Some(k as int),
            None => last_index_of(s@, c) is None,
        },
{
    let mut i = s.len();
    assert(s@.take(i as int) == s@);
    while i > 0
        invariant
            i <= s.len(),
            last_index_of(s@, c) == last_index_of(s@.take(i as int), c),
        decreases i,
    {
        assert(s@.take(i as int).drop_last() == s@.take(i - 1));
        if s[i - 1] == c {
            return Some(i - 1);
        }
        i -= 1;
    }
    None
}

impl FsPath {
    /// Whether the path starts with the root.
    pub fn is_absolute(&self) -> (r: bool)
        ensures
            r == is_absolute(self@),
    {
        self.components.len() > 0 && is_root_chars(&self.components[0])
    }

    /// std's `Path::parent` (see [`spec_parent`]).
    pub fn parent(&self) -> (r: Option<FsPath>)
        ensures
            match r {
                Some(p) => spec_parent(self@) == Some(p@),
                None => spec_parent(self@) is None,
            },
    {
        let n = self.components.len();
        if n == 0 || (n == 1 && is_root_chars(&self.components[0])) {
            None
        } else {
            let p = self.prefix(n - 1);
            assert(self@.take(n - 1) == self@.drop_last());
            Some(p)
        }
    }

    /// std's `Path::file_name` (see [`spec_file_name`]).
    pub fn file_name(&self) -> (r: Option<Vec<char>>)
        ensures
            match r {
                Some(f) => spec_file_name(self@) == Some(f@),
                None => spec_file_name(self@) is None,
            },
    {
        let n = self.components.len();
        if n == 0 {
            return None;
        }
        let last = &self.components[n - 1];
        if is_root_chars(last) || is_cur_chars(last) || is_parent_chars(last) {
            None
        } else {
            Some(copy_chars(last))
        }
    }

    /// std's `Path::extension` (see [`spec_extension`]).
    pub fn extension(&self) -> (r: Option<Vec<char>>)
        ensures
            match r {
                Some(e) => spec_extension(self@) == Some(e@),
                None => spec_extension(self@) is None,
            },
    {
        match self.file_name() {
            None => None,
            Some(f) => match last_index_of_exec(&f, '.') {
                None => None,
                Some(k) => {
                    proof {
                        lemma_last_index_of(f@, '.');
                    }
                    if k == 0 {
                        None
                    } else {
                        let mut e: Vec<char> = Vec::new();
                        let mut i = k + 1;
                        while i < f.len()
                            invariant
                                k < i <= f.len(),
                                e@ == f@.subrange(k + 1, i as int),
                            decreases f.len() - i,
                        {
                            e.push(f[i]);
                            i += 1;
                            assert(e@ == f@.subrange(k + 1, i as int));
                        }
                        assert(e@ == f@.skip(k + 1));
                        Some(e)
                    }
                },
            },
        }
    }

    /// std's `Path::starts_with` (see [`spec_starts_with`]).
    pub fn starts_with(&self, base: &FsPath) -> (r: bool)
        ensures
            r == spec_starts_with(self@, base@),
    {
        let n = base.components.len();
        if n > self.components.len() {
            return false;
        }
        let mut i: usize = 0;
        while i < n
            invariant
                n == base@.len(),
                n <= self@.len(),
                self@.len() == self.components@.len(),
                base@.len() == base.components@.len(),
                i <= n,
                forall|k: int| 0 <= k < i ==> self@[k] == base@[k],
            decreases n - i,
        {
            if !chars_equal(&self.components[i], &base.components[i]) {
                assert(self@.take(n as int)[i as int] != base@[i as int]);
                return false;
            }
            i += 1;
        }
        assert(self@.take(n as int) =~= base@);
        true
    }

    /// std's `PathBuf::push` of `other` onto a copy of this path (see [`spec_join`]).
    pub fn join(&self, other: &FsPath) -> (r: FsPath)
        ensures
            r@ == spec_join(self@, other@),
    {
        proof {
            use_type_invariant(self);
            use_type_invariant(other);
        }
        if other.is_absolute() {
            return other.copy();
        }
        let start: usize = if self.components.len() > 0 && other.components.len() > 0
            && is_cur_chars(&other.components[0]) {
            1
        } else {
            0
        };
        let mut comps: Vec<Vec<char>> = Vec::new();
        let mut i: usize = 0;
        while i < self.components.len()
            invariant
                i <= self@.len(),
                self@.len() == self.components@.len(),
                components_view(comps@) =~= self@.take(i as int),
            decreases self.components.len() - i,
        {
            let ghost before = components_view(comps@);
            comps.push(copy_chars(&self.components[i]));
            assert(components_view(comps@) =~= before.push(self@[i as int]));
            i += 1;
        }
        let mut j: usize = start;
        assert(self@.take(self@.len() as int) == self@);
        while j < other.components.len()
            invariant
                start <= j <= other@.len(),
                other@.len() == other.components@.len(),
                self@.len() == self.components@.len(),
                components_view(comps@) =~= self@ + other@.subrange(start as int, j as int),
            decreases other.components.len() - j,
        {
            let ghost before = components_view(comps@);
            comps.push(copy_chars(&other.components[j]));
            assert(components_view(comps@) =~= before.push(other@[j as int]));
            j += 1;
        }
        proof {
            let res = components_view(comps@);
            assert(res =~= spec_join(self@, other@));
            assert forall|k: int| 0 <= k < res.len() implies (is_inner_component(#[trigger] res[k]) || (
            k == 0 && (res[k] == root_component() || res[k] == cur_component()))) by {
                if k < self@.len() {
                    assert(res[k] == self@[k]);
                } else {
                    assert(res[k] == other@[k - self@.len() + start]);
                }
            }
        }
        FsPath { components: comps }
    }

    /// Whether two paths have the same components (std's `Path` equality).
    pub fn same_path(&self, other: &FsPath) -> (r: bool)
        ensures
            r == (self@ == other@),
    {
        if self.components.len() != other.components.len() {
            return false;
        }
        let mut i: usize = 0;
        while i < self.components.len()
            invariant
                i <= self@.len(),
                self@.len() == other@.len(),
                self@.len() == self.components@.len(),
                other@.len() == other.components@.len(),
                forall|k: int| 0 <= k < i ==> self@[k] == other@[k],
            decreases self.components.len() - i,
        {
            if !chars_equal(&self.components[i], &other.components[i]) {
                assert(self@[i as int] != other@[i as int]);
                return false;
            }
            i += 1;
        }
        assert(self@ =~= other@);
        true
    }

    /// The text of the path (see [`render_path`]).
    pub fn to_path_string(&self) -> (s: String)
        ensures
            s@ == render_path(self@),
    {
        let mut s = String::new();
        let n = self.components.len();
        let abs = self.is_absolute();
        let start: usize = if abs { 1 } else { 0 };
        if abs {
            push_char(&mut s, '/');
        }
        let ghost body = self@.skip(start as int);
        assert(abs ==> body == self@.drop_first());
        assert(!abs ==> body == self@);
        let mut i: usize = start;
        assert(s@ == (if abs { seq!['/'] } else { seq![] }) + join_with_slash(body.take(0)));
        while i < n
            invariant
                start <= i <= n,
                n == self@.len(),
                n == self.components@.len(),
                body == self@.skip(start as int),
                s@ == (if abs { seq!['/'] } else { seq![] }) + join_with_slash(
                    body.take(i - start),
                ),
            decreases n - i,
        {
            let ghost prefix = if abs { seq!['/'] } else { Seq::<char>::empty() };
            let ghost done = body.take(i - start);
            let ghost next = body.take(i - start + 1);
            assert(next.drop_last() == done);
            assert(next.last() == self@[i as int]);
            if i > start {
                push_char(&mut s, '/');
            }
            let c = &self.components[i];
            let mut k: usize = 0;
            let ghost s0 = s@;
            while k < c.len()
                invariant
                    k <= c.len(),
                    s@ == s0 + c@.take(k as int),
                decreases c.len() - k,
            {
                push_char(&mut s, c[k]);
                k += 1;
                assert(c@.take(k as int) == c@.take(k - 1).push(c@[k - 1]));
            }
            assert(c@.take(c.len() as int) == c@);
            if i > start {
                assert(join_with_slash(next) == join_with_slash(done) + seq!['/'] + c@);
                assert(s@ =~= prefix + join_with_slash(next));
            } else {
                assert(join_with_slash(next) == c@);
                assert(s@ =~= prefix + join_with_slash(next));
            }
            i += 1;
        }
        assert(body.take(n - start) == body);
        s
    }
}

} // verus!
