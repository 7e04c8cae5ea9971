//! Image operations given as command-line arguments.
//!
//! The argument parser hands over each value of an operation separately,
//! paired with its position on the command line. Values of an operation that
//! takes `n` of them are unified into one [`Op`] per `n` consecutive values;
//! the unified operations are kept in an [`IndexTree`] ordered by position,
//! from which the statements of the image pipeline are built.

use vstd::prelude::*;
use std::collections::BTreeMap;
use vstd::laws_cmp::obeys_cmp;
use vstd::std_specs::cmp::OrdSpec;
use vstd::std_specs::iter::IteratorSpec;
use crate::numeric::{decimal_text, signed_text, lemma_parse_signed_text, lemma_parse_unsigned_text, push_decimal, is_float_text, spec_parse_signed, spec_parse_unsigned, parse_i32, parse_u32, ascii_lower, lower_equals};
use crate::operations::{FloatLit, Operation, OperationView};
use crate::statement::{
    filter_name, filter_of_name, lemma_filter_name_round_trip, EnvironmentItem, EnvironmentKind,
    FilterType, Statement, StatementView,
    statements_view,
};
use crate::text::{chars_of, concat_text};

verus! {

/// The image operations and modifiers that can be given as arguments.
#[derive(Debug, Clone, Copy, PartialEq, Eq, Structural)]
pub enum OperationId {
    Blur,
    Brighten,
    Contrast,
    Crop,
    Filter3x3,
    FlipH,
    FlipV,
    Grayscale,
    HueRotate,
    Invert,
    Resize,
    Rotate90,
    Rotate180,
    Rotate270,
    Unsharpen,
    ModResizePreserveAspectRatio,
    ModResizeSamplingFilter,
}

/// How many values the argument of an operation takes.
pub open spec fn arity(id: OperationId) -> nat {
    match id {
        OperationId::Blur => 1,
        OperationId::Brighten => 1,
        OperationId::Contrast => 1,
        OperationId::Crop => 4,
        OperationId::Filter3x3 => 9,
        OperationId::FlipH => 0,
        OperationId::FlipV => 0,
        OperationId::Grayscale => 0,
        OperationId::HueRotate => 1,
        OperationId::Invert => 0,
        OperationId::Resize => 2,
        OperationId::Rotate90 => 0,
        OperationId::Rotate180 => 0,
        OperationId::Rotate270 => 0,
        OperationId::Unsharpen => 2,
        OperationId::ModResizePreserveAspectRatio => 1,
        OperationId::ModResizeSamplingFilter => 1,
    }
}

impl OperationId {
    /// How many values the argument of this operation takes.
    pub fn takes_number_of_arguments(&self) -> (n: usize)
        ensures
            n == arity(*self),
    {
        match self {
            OperationId::Blur => 1,
            OperationId::Brighten => 1,
            OperationId::Contrast => 1,
            OperationId::Crop => 4,
            OperationId::Filter3x3 => 9,
            OperationId::FlipH => 0,
            OperationId::FlipV => 0,
            OperationId::Grayscale => 0,
            OperationId::HueRotate => 1,
            OperationId::Invert => 0,
            OperationId::Resize => 2,
            OperationId::Rotate90 => 0,
            OperationId::Rotate180 => 0,
            OperationId::Rotate270 => 0,
            OperationId::Unsharpen => 2,
            OperationId::ModResizePreserveAspectRatio => 1,
            OperationId::ModResizeSamplingFilter => 1,
        }
    }
}

/// An operation found among the arguments, with the position of (the last
/// of) its values and its values as given, not yet parsed.
#[derive(Debug, Clone)]
pub enum Op {
    WithValues(usize, OperationId, Vec<String>),
    Bare(usize, OperationId),
}

/// An [`Op`] as a mathematical value.
pub enum OpView {
    WithValues(usize, OperationId, Seq<Seq<char>>),
    Bare(usize, OperationId),
}

pub open spec fn strings_view(v: Seq<String>) -> Seq<Seq<char>> {
    v.map_values(|s: String| s@)
}

impl View for Op {
    type V = OpView;

    open spec fn view(&self) -> OpView {
        match self {
            Op::WithValues(i, id, vs) => OpView::WithValues(*i, *id, strings_view(vs@)),
            Op::Bare(i, id) => OpView::Bare(*i, *id),
        }
    }
}

/// An operation paired with its position among the arguments.
pub type IndexedOp = (usize, Op);

pub open spec fn node_view(n: IndexedOp) -> (usize, OpView) {
    (n.0, n.1@)
}

pub open spec fn nodes_view(ns: Seq<IndexedOp>) -> Seq<(usize, OpView)> {
    ns.map_values(|n: IndexedOp| node_view(n))
}

pub open spec fn op_values(o: OpView) -> Seq<Seq<char>> {
    match o {
        OpView::WithValues(_, _, vs) => vs,
        OpView::Bare(_, _) => seq![],
    }
}

pub open spec fn op_id(o: OpView) -> OperationId {
    match o {
        OpView::WithValues(_, id, _) => id,
        OpView::Bare(_, id) => id,
    }
}

pub open spec fn failed_unification_message() -> Seq<char> {
    "Unification of multi valued argument(s) failed: When using an image operation cli argument which requires n values, all values should be provided at once. For example, `--crop` takes 4 values so, n=4. Now, `--crop 0 0 1 1` would be valid, but `--crop 0 0 --crop 1 1` would not."@
}

pub open spec fn bare_unification_message() -> Seq<char> {
    "Can't unify bare values"@
}

/// Node `i` directly follows node `i - 1` on the command line.
pub open spec fn consecutive(chain: Seq<(usize, OpView)>, i: int) -> bool {
    chain[i - 1].0 + 1 == chain[i].0
}

/// Node `i` (`i >= 1`) can be merged into the nodes before it.
pub open spec fn step_ok(chain: Seq<(usize, OpView)>, i: int) -> bool {
    &&& consecutive(chain, i)
    &&& chain[0].1 is WithValues
    &&& chain[i].1 is WithValues
}

/// The first node from `i` on that cannot be merged into those before it.
pub open spec fn first_failed_step(chain: Seq<(usize, OpView)>, i: int) -> Option<int>
    decreases chain.len() - i,
{
    if i >= chain.len() {
        None
    } else if !step_ok(chain, i) {
        Some(i)
    } else {
        first_failed_step(chain, i + 1)
    }
}

/// All values of the nodes, in order.
pub open spec fn concat_values(chain: Seq<(usize, OpView)>) -> Seq<Seq<char>>
    decreases chain.len(),
{
    if chain.len() == 0 {
        seq![]
    } else {
        concat_values(chain.drop_last()) + op_values(chain.last().1)
    }
}

/// The nodes merged into one: at the position of the last, with the
/// operation of the first and the values of all.
pub open spec fn merged(chain: Seq<(usize, OpView)>) -> (usize, OpView) {
    let k = chain.last().0;
    (k, OpView::WithValues(k, op_id(chain[0].1), concat_values(chain)))
}

/// Unifying a chain of nodes: a single node stays as it is; several merge
/// when each follows the one before on the command line and all carry
/// values. The first node that breaks this decides the error.
pub open spec fn unify_chain(chain: Seq<(usize, OpView)>) -> Result<(usize, OpView), Seq<char>> {
    if chain.len() == 0 {
        Err(failed_unification_message())
    } else {
        match first_failed_step(chain, 1) {
            Some(i) => Err(
                if consecutive(chain, i) {
                    bare_unification_message()
                } else {
                    failed_unification_message()
                },
            ),
            None => Ok(
                if chain.len() == 1 {
                    chain[0]
                } else {
                    merged(chain)
                },
            ),
        }
    }
}

pub open spec fn option_seq<A>(o: Option<A>) -> Seq<A> {
    match o {
        Some(a) => seq![a],
        None => seq![],
    }
}

pub open spec fn option_node_view(o: Option<IndexedOp>) -> Option<(usize, OpView)> {
    match o {
        Some(n) => Some(node_view(n)),
        None => None,
    }
}

proof fn lemma_first_failed_push(chain: Seq<(usize, OpView)>, x: (usize, OpView), i: int)
    requires
        1 <= i <= chain.len(),
    ensures
        first_failed_step(chain.push(x), i) == match first_failed_step(chain, i) {
            Some(j) => Some(j),
            None => if step_ok(chain.push(x), chain.len() as int) {
                None
            } else {
                Some(chain.len() as int)
            },
        },
    decreases chain.len() - i,
{
    let c2 = chain.push(x);
    if i < chain.len() {
        assert(c2[i] == chain[i] && c2[i - 1] == chain[i - 1] && c2[0] == chain[0]);
        assert(step_ok(c2, i) == step_ok(chain, i));
        lemma_first_failed_push(chain, x, i + 1);
    } else {
        assert(first_failed_step(c2, i + 1) is None);
    }
}

proof fn lemma_first_failed_prefix(a: Seq<(usize, OpView)>, b: Seq<(usize, OpView)>, i: int)
    requires
        1 <= i,
        first_failed_step(a, i) is Some,
    ensures
        first_failed_step(a + b, i) == first_failed_step(a, i),
    decreases a.len() - i,
{
    let c = a + b;
    if i < a.len() {
        assert(c[i] == a[i] && c[i - 1] == a[i - 1] && c[0] == a[0]);
        if step_ok(a, i) {
            lemma_first_failed_prefix(a, b, i + 1);
        }
    }
}

impl Op {
    /// A copy of this operation.
    pub fn duplicate(&self) -> (r: Op)
        ensures
            r@ == self@,
    {
        match self {
            Op::WithValues(i, id, vs) => Op::WithValues(*i, *id, copy_strings(vs)),
            Op::Bare(i, id) => Op::Bare(*i, *id),
        }
    }
}

fn copy_strings(vs: &Vec<String>) -> (r: Vec<String>)
    ensures
        strings_view(r@) == strings_view(vs@),
{
    let mut r: Vec<String> = Vec::new();
    append_strings(&mut r, vs);
    assert(strings_view(r@) =~= strings_view(vs@));
    r
}

fn append_strings(to: &mut Vec<String>, from: &Vec<String>)
    ensures
        strings_view(final(to)@) == strings_view(old(to)@) + strings_view(from@),
{
    let ghost start = strings_view(to@);
    let mut i: usize = 0;
    while i < from.len()
        invariant
            i <= from.len(),
            strings_view(to@) =~= start + strings_view(from@).take(i as int),
        decreases from.len() - i,
    {
        let ghost before = strings_view(to@);
        to.push(from[i].clone());
        assert(strings_view(to@) =~= before.push(from@[i as int]@));
        i += 1;
    }
    assert(strings_view(from@).take(from.len() as int) =~= strings_view(from@));
}

/// Unifies the nodes of `left`, after `last` where one is given, into a
/// single node (see [`unify_chain`]).
pub fn unify_chunk(left: &[IndexedOp], last: Option<IndexedOp>, size: usize) -> (r: Result<
    IndexedOp,
    String,
>)
    ensures
        match (r, unify_chain(option_seq(option_node_view(last)) + nodes_view(left@))) {
            (Ok(a), Ok(b)) => node_view(a) == b,
            (Err(a), Err(b)) => a@ == b,
            _ => false,
        },
{
    let ghost head = option_seq(option_node_view(last));
    let ghost full = head + nodes_view(left@);
    let mut cur: Option<IndexedOp> = last;
    let mut i: usize = 0;
    while i < left.len()
        invariant
            i <= left.len(),
            head == option_seq(option_node_view(last)),
            full == head + nodes_view(left@),
            full.take(head.len() + i) == head + nodes_view(left@).take(i as int),
            cur is Some <==> head.len() + i > 0,
            head.len() + i > 0 ==> first_failed_step(full.take(head.len() + i), 1) is None,
            cur matches Some(c) ==> node_view(c) == (if head.len() + i == 1 {
                full[0]
            } else {
                merged(full.take(head.len() + i))
            }),
        decreases left.len() - i,
    {
        let ghost n = head.len() + i;
        let ghost done = full.take(n);
        let ghost next = full.take(n + 1);
        assert(next == done.push(full[n]));
        assert(full[n] == node_view(left@[i as int]));
        let ci = left[i].0;
        let co = left[i].1.duplicate();
        match cur {
            None => {
                assert(n == 0);
                cur = Some((ci, co));
                assert(first_failed_step(next, 1) is None);
            },
            Some(c) => {
                let (li, lo) = c;
                proof {
                    lemma_first_failed_push(done, full[n], 1);
                    assert(done[n - 1].0 == li);
                    assert(next[0] == done[0]);
                }
                if li < usize::MAX && li + 1 == ci {
                    match (lo, co) {
                        (Op::WithValues(_, id, values), Op::WithValues(_, _, values2)) => {
                            let mut values = values;
                            let ghost v1 = strings_view(values@);
                            append_strings(&mut values, &values2);
                            proof {
                                assert(next.drop_last() == done);
                                assert(step_ok(next, n as int));
                                if n == 1 {
                                    assert(done.drop_last() =~= Seq::<(usize, OpView)>::empty());
                                    assert(concat_values(done.drop_last()) == Seq::<Seq<char>>::empty());
                                    assert(done.last() == done[0]);
                                    assert(concat_values(done) =~= op_values(done[0].1));
                                }
                            }
                            cur = Some((ci, Op::WithValues(ci, id, values)));
                        },
                        _ => {
                            proof {
                                assert(!step_ok(next, n as int));
                                lemma_first_failed_prefix(next, full.skip(n + 1), 1);
                                assert(next + full.skip(n + 1) =~= full);
                            }
                            return Err(String::from_str("Can't unify bare values"));
                        },
                    }
                } else {
                    proof {
                        assert(!consecutive(next, n as int));
                        lemma_first_failed_prefix(next, full.skip(n + 1), 1);
                        assert(next + full.skip(n + 1) =~= full);
                    }
                    return Err(
                        String::from_str(
                            "Unification of multi valued argument(s) failed: When using an image operation cli argument which requires n values, all values should be provided at once. For example, `--crop` takes 4 values so, n=4. Now, `--crop 0 0 1 1` would be valid, but `--crop 0 0 --crop 1 1` would not.",
                        ),
                    );
                }
            },
        }
        i += 1;
        assert(full.take(head.len() + i) == head + nodes_view(left@).take(i as int));
    }
    assert(full.take(head.len() + left.len()) =~= full);
    match cur {
        Some(c) => Ok(c),
        None => Err(
            String::from_str(
                "Unification of multi valued argument(s) failed: When using an image operation cli argument which requires n values, all values should be provided at once. For example, `--crop` takes 4 values so, n=4. Now, `--crop 0 0 1 1` would be valid, but `--crop 0 0 --crop 1 1` would not.",
            ),
        ),
    }
}

/// The message for values that do not split into chunks of the required
/// size, with the length of the short chunk.
pub open spec fn chunk_size_message(len: nat) -> Seq<char> {
    "Unification of multi valued argument(s) failed: arguments could't be partitioned in correct chunk sizes. Length of chunk: "@
        + decimal_text(len)
}

/// Splits the nodes into chunks of `size` and unifies each (see
/// [`unify_chain`]); the first chunk that is short or does not unify
/// decides the error.
pub open spec fn unify_all(nodes: Seq<(usize, OpView)>, size: nat) -> Result<
    Seq<(usize, OpView)>,
    Seq<char>,
>
    decreases nodes.len(),
{
    if nodes.len() == 0 || size == 0 {
        Ok(seq![])
    } else if nodes.len() < size {
        Err(chunk_size_message(nodes.len()))
    } else {
        match unify_chain(nodes.take(size as int)) {
            Err(e) => Err(e),
            Ok(u) => match unify_all(nodes.skip(size as int), size) {
                Ok(rest) => Ok(seq![u] + rest),
                Err(e) => Err(e),
            },
        }
    }
}

/// Chunks the nodes by `size` and unifies each chunk into one node (see
/// [`unify_all`]).
pub fn unify_multiple_values(nodes: Vec<IndexedOp>, size: usize) -> (r: Result<
    Vec<IndexedOp>,
    String,
>)
    requires
        size != 0,
    ensures
        match (r, unify_all(nodes_view(nodes@), size as nat)) {
            (Ok(a), Ok(b)) => nodes_view(a@) == b,
            (Err(a), Err(b)) => a@ == b,
            _ => false,
        },
{
    let ghost all = nodes_view(nodes@);
    let mut out: Vec<IndexedOp> = Vec::new();
    let mut k: usize = 0;
    proof {
        assert(all.skip(0) =~= all);
        assert(nodes_view(out@) =~= Seq::<(usize, OpView)>::empty());
        match unify_all(all, size as nat) {
            Ok(r0) => {
                assert(nodes_view(out@) + r0 =~= r0);
            },
            Err(_) => {},
        }
    }
    while k < nodes.len()
        invariant
            size != 0,
            k <= nodes.len(),
            all == nodes_view(nodes@),
            unify_all(all, size as nat) == match unify_all(all.skip(k as int), size as nat) {
                Ok(rest) => Ok(nodes_view(out@) + rest),
                Err(e) => Err(e),
            },
        decreases nodes.len() - k,
    {
        let ghost rest = all.skip(k as int);
        let n = nodes.len() - k;
        if n < size {
            let mut msg = String::from_str(
                "Unification of multi valued argument(s) failed: arguments could't be partitioned in correct chunk sizes. Length of chunk: ",
            );
            push_decimal(&mut msg, n);
            return Err(msg);
        }
        let mut chunk: Vec<IndexedOp> = Vec::new();
        let mut j: usize = 0;
        while j < size
            invariant
                j <= size,
                k + size <= nodes.len(),
                all == nodes_view(nodes@),
                nodes_view(chunk@) =~= all.subrange(k as int, k + j),
            decreases size - j,
        {
            let ghost before = nodes_view(chunk@);
            chunk.push((nodes[k + j].0, nodes[k + j].1.duplicate()));
            assert(nodes_view(chunk@) =~= before.push(all[k + j]));
            j += 1;
        }
        assert(rest.take(size as int) =~= all.subrange(k as int, k + size));
        assert(option_seq(option_node_view(None)) + nodes_view(chunk@) =~= nodes_view(chunk@));
        match unify_chunk(chunk.as_slice(), None, size) {
            Err(e) => {
                return Err(e);
            },
            Ok(u) => {
                let ghost before = nodes_view(out@);
                out.push(u);
                assert(nodes_view(out@) =~= before.push(node_view(u)));
                assert(rest.skip(size as int) =~= all.skip(k + size));
                proof {
                    match unify_all(all.skip(k + size), size as nat) {
                        Ok(r2) => {
                            assert(before + (seq![node_view(u)] + r2) =~= nodes_view(out@) + r2);
                        },
                        Err(_) => {},
                    }
                }
            },
        }
        k += size;
    }
    assert(all.skip(k as int) =~= Seq::<(usize, OpView)>::empty());
    assert(nodes_view(out@) + Seq::<(usize, OpView)>::empty() =~= nodes_view(out@));
    Ok(out)
}

/// The index tree: operations keyed by their position among the arguments.
pub type IndexTree = BTreeMap<usize, Op>;

pub open spec fn tree_view(m: Map<usize, Op>) -> Map<usize, OpView> {
    m.map_values(|o: Op| o@)
}

/// Inserting the nodes into the map one after the other; a later node
/// replaces one at the same position.
pub open spec fn extend_map(m: Map<usize, OpView>, nodes: Seq<(usize, OpView)>) -> Map<
    usize,
    OpView,
>
    decreases nodes.len(),
{
    if nodes.len() == 0 {
        m
    } else {
        extend_map(m, nodes.drop_last()).insert(nodes.last().0, nodes.last().1)
    }
}

fn tree_insert_all(tree: &mut IndexTree, nodes: Vec<IndexedOp>)
    ensures
        tree_view(final(tree)@) == extend_map(tree_view(old(tree)@), nodes_view(nodes@)),
{
    let ghost start = tree_view(tree@);
    let ghost all = nodes_view(nodes@);
    let mut i: usize = 0;
    while i < nodes.len()
        invariant
            i <= nodes.len(),
            all == nodes_view(nodes@),
            tree_view(tree@) == extend_map(start, all.take(i as int)),
        decreases nodes.len() - i,
    {
        let k = nodes[i].0;
        let o = nodes[i].1.duplicate();
        let ghost old_tree = tree@;
        tree.insert(k, o);
        assert(all.take(i + 1).drop_last() =~= all.take(i as int));
        assert(all[i as int] == (k, o@));
        assert(tree_view(tree@) =~= tree_view(old_tree).insert(k, o@));
        i += 1;
    }
    assert(all.take(i as int) =~= all);
}

/// Unifies the nodes by `size` (see [`unify_all`]) and adds the unified
/// nodes to the tree; on an error the tree is left as it was.
pub fn tree_extend_unifiable(tree: &mut IndexTree, nodes: Vec<IndexedOp>, size: usize) -> (r:
    Result<(), String>)
    requires
        size != 0,
    ensures
        match unify_all(nodes_view(nodes@), size as nat) {
            Ok(u) => r is Ok && tree_view(final(tree)@) == extend_map(tree_view(old(tree)@), u),
            Err(e) => r matches Err(m) && m@ == e && final(tree)@ == old(tree)@,
        },
{
    let unified = unify_multiple_values(nodes, size);
    match unified {
        Ok(u) => {
            tree_insert_all(tree, u);
            Ok(())
        },
        Err(e) => Err(e),
    }
}

/// Adding an operation's nodes to the tree: as they are when it takes at
/// most one value, unified into one node per `amount` values otherwise.
pub open spec fn spec_tree_extend(
    m: Map<usize, OpView>,
    values: Option<Seq<(usize, OpView)>>,
    amount: nat,
) -> Result<Map<usize, OpView>, Seq<char>> {
    match values {
        None => Ok(m),
        Some(nodes) => if amount <= 1 {
            Ok(extend_map(m, nodes))
        } else {
            match unify_all(nodes, amount) {
                Ok(u) => Ok(extend_map(m, u)),
                Err(e) => Err(e),
            }
        },
    }
}

pub open spec fn option_nodes_view(o: Option<Vec<IndexedOp>>) -> Option<Seq<(usize, OpView)>> {
    match o {
        Some(v) => Some(nodes_view(v@)),
        None => None,
    }
}

/// Adds the nodes of an operation to the tree (see [`spec_tree_extend`]);
/// on an error the tree is left as it was.
pub fn tree_extend(tree: &mut IndexTree, values_for_operation: Option<Vec<IndexedOp>>, amount_of_values: usize) -> (r: Result<(), String>)
    ensures
        match spec_tree_extend(tree_view(old(tree)@), option_nodes_view(values_for_operation), amount_of_values as nat) {
            Ok(m) => r is Ok && tree_view(final(tree)@) == m,
            Err(e) => r matches Err(x) && x@ == e && final(tree)@ == old(tree)@,
        },
{
    match values_for_operation {
        None => Ok(()),
        Some(nodes) => {
            if amount_of_values <= 1 {
                tree_insert_all(tree, nodes);
                Ok(())
            } else {
                tree_extend_unifiable(tree, nodes, amount_of_values)
            }
        },
    }
}

/// Adding the nodes of several operations one after the other, each
/// unified by the number of values its argument takes; the first that fails
/// decides the error.
pub open spec fn spec_extend_with_operations(
    m: Map<usize, OpView>,
    ops: Seq<(OperationId, Option<Seq<(usize, OpView)>>)>,
) -> Result<Map<usize, OpView>, Seq<char>>
    decreases ops.len(),
{
    if ops.len() == 0 {
        Ok(m)
    } else {
        match spec_tree_extend(m, ops[0].1, arity(ops[0].0)) {
            Err(e) => Err(e),
            Ok(m2) => spec_extend_with_operations(m2, ops.drop_first()),
        }
    }
}

pub open spec fn found_ops_view(ops: Seq<(OperationId, Option<Vec<IndexedOp>>)>) -> Seq<
    (OperationId, Option<Seq<(usize, OpView)>>),
> {
    ops.map_values(|o: (OperationId, Option<Vec<IndexedOp>>)| (o.0, option_nodes_view(o.1)))
}

/// Adds the nodes found for each operation to the tree, in the order of
/// `operations` (see [`spec_extend_with_operations`]). On an error the
/// operations before the failing one stay added.
#[verifier::loop_isolation(false)]
pub fn ast_extend_with_operation(
    tree: &mut IndexTree,
    operations: Vec<(OperationId, Option<Vec<IndexedOp>>)>,
) -> (r: Result<(), String>)
    ensures
        match spec_extend_with_operations(tree_view(old(tree)@), found_ops_view(operations@)) {
            Ok(m) => r is Ok && tree_view(final(tree)@) == m,
            Err(e) => r matches Err(x) && x@ == e,
        },
{
    let ghost all = found_ops_view(operations@);
    let ghost start = tree_view(tree@);
    let mut operations = operations;
    let mut done: usize = 0;
    assert(all.skip(0) =~= all);
    let total = operations.len();
    assert(all.len() == total);
    while operations.len() > 0
        invariant
            done + operations@.len() == all.len(),
            all.len() <= usize::MAX,
            found_ops_view(operations@) =~= all.skip(done as int),
            spec_extend_with_operations(start, all) == spec_extend_with_operations(
                tree_view(tree@),
                all.skip(done as int),
            ),
        decreases operations.len(),
    {
        let ghost before = found_ops_view(operations@);
        let (id, values) = operations.remove(0);
        assert(before =~= seq![(id, option_nodes_view(values))] + found_ops_view(operations@));
        let ghost rest = all.skip(done as int);
        assert(rest[0] == before[0]);
        let argc = id.takes_number_of_arguments();
        let ghost cur = tree_view(tree@);
        let ghost vview = option_nodes_view(values);
        match tree_extend(tree, values, argc) {
            Err(e) => {
                assert(spec_tree_extend(cur, vview, arity(id)) == Err::<Map<usize, OpView>, Seq<char>>(e@));
                assert(spec_extend_with_operations(cur, rest) == Err::<Map<usize, OpView>, Seq<char>>(e@));
                return Err(e);
            },
            Ok(()) => {},
        }
        assert(rest.drop_first() =~= all.skip(done + 1));
        assert(found_ops_view(operations@) =~= all.skip(done + 1));
        done += 1;
    }
    assert(all.skip(done as int) =~= Seq::<(OperationId, Option<Seq<(usize, OpView)>>)>::empty());
    Ok(())
}

/// `s` lists the entries of `m` in increasing order of their keys.
pub open spec fn is_ordered_listing(s: Seq<(usize, OpView)>, m: Map<usize, OpView>) -> bool {
    &&& forall|i: int, j: int| 0 <= i < j < s.len() ==> s[i].0 < s[j].0
    &&& forall|i: int| 0 <= i < s.len() ==> m.contains_key(#[trigger] s[i].0) && m[s[i].0] == s[i].1
    &&& forall|k: usize| m.contains_key(k) ==> exists|i: int| 0 <= i < s.len() && #[trigger] s[i].0 == k
}

proof fn lemma_listing_drop_first(s: Seq<(usize, OpView)>, m: Map<usize, OpView>)
    requires
        is_ordered_listing(s, m),
        s.len() > 0,
    ensures
        is_ordered_listing(s.drop_first(), m.remove(s[0].0)),
{
    let t = s.drop_first();
    let m2 = m.remove(s[0].0);
    assert forall|i: int| 0 <= i < t.len() implies m2.contains_key(#[trigger] t[i].0) && m2[t[i].0]
        == t[i].1 by {
        assert(t[i] == s[i + 1]);
        assert(s[0].0 < s[i + 1].0);
    }
    assert forall|k: usize| m2.contains_key(k) implies exists|i: int|
        0 <= i < t.len() && #[trigger] t[i].0 == k by {
        assert(m.contains_key(k));
        let i = choose|i: int| 0 <= i < s.len() && #[trigger] s[i].0 == k;
        assert(i != 0);
        assert(t[i - 1].0 == k);
    }
    assert forall|i: int, j: int| 0 <= i < j < t.len() implies t[i].0 < t[j].0 by {
        assert(t[i] == s[i + 1] && t[j] == s[j + 1]);
    }
}

/// The order in which the tree's operations are turned into statements is
/// determined by the tree: two listings of the same map in increasing order
/// of positions are the same.
pub proof fn lemma_ordered_listing_unique(
    s1: Seq<(usize, OpView)>,
    s2: Seq<(usize, OpView)>,
    m: Map<usize, OpView>,
)
    requires
        is_ordered_listing(s1, m),
        is_ordered_listing(s2, m),
    ensures
        s1 == s2,
    decreases s1.len(),
{
    if s1.len() == 0 || s2.len() == 0 {
        if s2.len() > 0 {
            assert(m.contains_key(s2[0].0));
        }
        if s1.len() > 0 {
            assert(m.contains_key(s1[0].0));
        }
        assert(s1 =~= s2);
    } else {
        let k1 = s1[0].0;
        let k2 = s2[0].0;
        assert(m.contains_key(k1));
        assert(m.contains_key(k2));
        let j2 = choose|i: int| 0 <= i < s2.len() && #[trigger] s2[i].0 == k1;
        let j1 = choose|i: int| 0 <= i < s1.len() && #[trigger] s1[i].0 == k2;
        assert(j2 == 0 || s2[0].0 < s2[j2].0);
        assert(j1 == 0 || s1[0].0 < s1[j1].0);
        assert(k1 == k2);
        lemma_listing_drop_first(s1, m);
        lemma_listing_drop_first(s2, m);
        lemma_ordered_listing_unique(s1.drop_first(), s2.drop_first(), m.remove(k1));
        assert(s1[0] == s2[0]);
        assert(s1 =~= seq![s1[0]] + s1.drop_first());
        assert(s2 =~= seq![s2[0]] + s2.drop_first());
    }
}

proof fn lemma_usize_keys_ordered()
    ensures
        vstd::std_specs::btree::key_obeys_cmp_spec::<usize>(),
        forall|s: Seq<usize>|
            #[trigger] vstd::std_specs::btree::increasing_seq(s) ==> forall|i: int, j: int|
                0 <= i < j < s.len() ==> s[i] < s[j],
{
    broadcast use vstd::std_specs::btree::group_btree_axioms, vstd::laws_cmp::group_laws_cmp;

    assert(obeys_cmp::<usize>());
    assert forall|s: Seq<usize>| #[trigger] vstd::std_specs::btree::increasing_seq(s) implies forall|i: int, j: int|
        0 <= i < j < s.len() ==> s[i] < s[j] by {
        assert forall|i: int, j: int| 0 <= i < j < s.len() implies s[i] < s[j] by {
            assert(s[i].cmp_spec(&s[j]) is Less);
        }
    }
}

fn tree_keys(tree: &IndexTree) -> (r: Vec<usize>)
    ensures
        forall|i: int, j: int| 0 <= i < j < r@.len() ==> r@[i] < r@[j],
        forall|i: int| 0 <= i < r@.len() ==> tree@.contains_key(#[trigger] r@[i]),
        forall|k: usize| tree@.contains_key(k) ==> r@.contains(k),
{
    broadcast use vstd::std_specs::btree::group_btree_axioms;

    proof {
        lemma_usize_keys_ordered();
    }
    let iter = tree.iter();
    let ghost rem = iter.remaining();
    let ghost ks = rem.map_values(|p: (&usize, &Op)| *p.0);
    assert(vstd::std_specs::btree::increasing_seq(ks));
    let mut out: Vec<usize> = Vec::new();
    for kv in it: iter
        invariant
            it.seq() == rem,
            ks == rem.map_values(|p: (&usize, &Op)| *p.0),
            out@ == ks.take(it.index()),
    {
        out.push(*kv.0);
        assert(ks.take(it.index() + 1) =~= ks.take(it.index()).push(*kv.0));
    }
    proof {
        assert(ks.take(rem.len() as int) =~= ks);
        assert forall|k: usize| tree@.contains_key(k) implies out@.contains(k) by {
            assert(rem.contains((&k, &tree@[k])));
            let i = choose|i: int| 0 <= i < rem.len() && rem[i] == (&k, &tree@[k]);
            assert(out@[i] == k);
        }
    }
    out
}

fn tree_entries_raw(tree: &IndexTree) -> (r: Vec<IndexedOp>)
    ensures
        forall|i: int, j: int| 0 <= i < j < r@.len() ==> r@[i].0 < r@[j].0,
        forall|i: int|
            0 <= i < r@.len() ==> tree@.contains_key(#[trigger] r@[i].0) && tree@[r@[i].0]@
                == r@[i].1@,
        forall|k: usize| tree@.contains_key(k) ==> exists|i: int| 0 <= i < r@.len() && #[trigger] r@[i].0 == k,
{
    broadcast use vstd::std_specs::btree::group_btree_axioms, vstd::laws_cmp::group_laws_cmp;

    let keys = tree_keys(tree);
    let mut out: Vec<IndexedOp> = Vec::new();
    let mut i: usize = 0;
    while i < keys.len()
        invariant
            i <= keys.len(),
            out@.len() == i,
            forall|j: int, l: int| 0 <= j < l < keys@.len() ==> keys@[j] < keys@[l],
            forall|j: int| 0 <= j < keys@.len() ==> tree@.contains_key(#[trigger] keys@[j]),
            forall|j: int| 0 <= j < i ==> (#[trigger] out@[j]).0 == keys@[j] && tree@[keys@[j]]@ == out@[j].1@,
        decreases keys.len() - i,
    {
        let k = keys[i];
        assert(tree@.contains_key(k));
        match tree.get(&k) {
            Some(v) => {
                out.push((k, v.duplicate()));
            },
            None => {
                assert(false);
            },
        }
        i += 1;
    }
    proof {
        assert forall|k: usize| tree@.contains_key(k) implies exists|j: int| 0 <= j < out@.len() && #[trigger] out@[j].0 == k by {
            assert(keys@.contains(k));
            let j = choose|j: int| 0 <= j < keys@.len() && keys@[j] == k;
            assert(out@[j].0 == k);
        }
    }
    out
}

/// The entries of the tree in increasing order of their positions.
pub fn tree_entries(tree: &IndexTree) -> (r: Vec<IndexedOp>)
    ensures
        is_ordered_listing(nodes_view(r@), tree_view(tree@)),
{
    let r = tree_entries_raw(tree);
    proof {
        let s = nodes_view(r@);
        let m = tree_view(tree@);
        assert forall|k: usize| m.contains_key(k) implies exists|i: int|
            0 <= i < s.len() && #[trigger] s[i].0 == k by {
            assert(tree@.contains_key(k));
            let i = choose|i: int| 0 <= i < r@.len() && #[trigger] r@[i].0 == k;
            assert(s[i].0 == k);
        }
        assert forall|i: int| 0 <= i < s.len() implies m.contains_key(#[trigger] s[i].0) && m[s[i].0] == s[i].1 by {
            assert(s[i] == node_view(r@[i]));
            assert(tree@.contains_key(r@[i].0));
        }
    }
    r
}

// ---------------------------------------------------------------------------
// From operations to statements
// ---------------------------------------------------------------------------

pub open spec fn missing_value_message() -> Seq<char> {
    "Unable to parse image operation: too few values were provided"@
}

pub open spec fn invalid_value_message(v: Seq<char>) -> Seq<char> {
    "Unable to parse image operation value: "@ + v
}

pub open spec fn filter_not_found_message() -> Seq<char> {
    "Error: resize sampling filter not found."@
}

pub open spec fn value_at(vs: Seq<Seq<char>>, i: int) -> Result<Seq<char>, Seq<char>> {
    if 0 <= i < vs.len() {
        Ok(vs[i])
    } else {
        Err(missing_value_message())
    }
}

/// Value `i` read as an `f32` (kept as its literal).
pub open spec fn float_value(vs: Seq<Seq<char>>, i: int) -> Result<Seq<char>, Seq<char>> {
    match value_at(vs, i) {
        Err(e) => Err(e),
        Ok(v) => if is_float_text(v) {
            Ok(v)
        } else {
            Err(invalid_value_message(v))
        },
    }
}

/// Value `i` read as an `i32`.
pub open spec fn i32_value(vs: Seq<Seq<char>>, i: int) -> Result<i32, Seq<char>> {
    match value_at(vs, i) {
        Err(e) => Err(e),
        Ok(v) => match spec_parse_signed(v, i32::MAX as nat) {
            Some(n) => Ok(n as i32),
            None => Err(invalid_value_message(v)),
        },
    }
}

/// Value `i` read as a `u32`.
pub open spec fn u32_value(vs: Seq<Seq<char>>, i: int) -> Result<u32, Seq<char>> {
    match value_at(vs, i) {
        Err(e) => Err(e),
        Ok(v) => match spec_parse_unsigned(v, u32::MAX as nat) {
            Some(n) => Ok(n as u32),
            None => Err(invalid_value_message(v)),
        },
    }
}

/// Value `i` read as a `bool`: `true` or `false`.
pub open spec fn bool_value(vs: Seq<Seq<char>>, i: int) -> Result<bool, Seq<char>> {
    match value_at(vs, i) {
        Err(e) => Err(e),
        Ok(v) => if v == "true"@ {
            Ok(true)
        } else if v == "false"@ {
            Ok(false)
        } else {
            Err(invalid_value_message(v))
        },
    }
}

/// The first `n` values read as `f32`s; the first that fails decides the error.
pub open spec fn float_values(vs: Seq<Seq<char>>, n: nat) -> Result<Seq<Seq<char>>, Seq<char>>
    decreases n,
{
    if n == 0 {
        Ok(seq![])
    } else {
        match float_values(vs, (n - 1) as nat) {
            Err(e) => Err(e),
            Ok(fs) => match float_value(vs, n - 1) {
                Err(e) => Err(e),
                Ok(f) => Ok(fs.push(f)),
            },
        }
    }
}

/// The statement an operation stands for, its values read in order; the
/// first value that cannot be read decides the error.
pub open spec fn spec_mk_statement(id: OperationId, vs: Seq<Seq<char>>) -> Result<
    StatementView,
    Seq<char>,
> {
    match id {
        OperationId::Blur => match float_value(vs, 0) {
            Ok(f) => Ok(StatementView::Operation(OperationView::Blur(f))),
            Err(e) => Err(e),
        },
        OperationId::Brighten => match i32_value(vs, 0) {
            Ok(v) => Ok(StatementView::Operation(OperationView::Brighten(v))),
            Err(e) => Err(e),
        },
        OperationId::Contrast => match float_value(vs, 0) {
            Ok(f) => Ok(StatementView::Operation(OperationView::Contrast(f))),
            Err(e) => Err(e),
        },
        OperationId::Crop => match (u32_value(vs, 0), u32_value(vs, 1), u32_value(vs, 2), u32_value(vs, 3)) {
            (Ok(a), Ok(b), Ok(c), Ok(d)) => Ok(StatementView::Operation(OperationView::Crop(a, b, c, d))),
            (Err(e), _, _, _) => Err(e),
            (Ok(_), Err(e), _, _) => Err(e),
            (Ok(_), Ok(_), Err(e), _) => Err(e),
            (Ok(_), Ok(_), Ok(_), Err(e)) => Err(e),
        },
        OperationId::Filter3x3 => match float_values(vs, 9) {
            Ok(fs) => Ok(StatementView::Operation(OperationView::Filter3x3(fs))),
            Err(e) => Err(e),
        },
        OperationId::FlipH => Ok(StatementView::Operation(OperationView::FlipHorizontal)),
        OperationId::FlipV => Ok(StatementView::Operation(OperationView::FlipVertical)),
        OperationId::Grayscale => Ok(StatementView::Operation(OperationView::GrayScale)),
        OperationId::HueRotate => match i32_value(vs, 0) {
            Ok(v) => Ok(StatementView::Operation(OperationView::HueRotate(v))),
            Err(e) => Err(e),
        },
        OperationId::Invert => Ok(StatementView::Operation(OperationView::Invert)),
        OperationId::Resize => match (u32_value(vs, 0), u32_value(vs, 1)) {
            (Ok(a), Ok(b)) => Ok(StatementView::Operation(OperationView::Resize(a, b))),
            (Err(e), _) => Err(e),
            (Ok(_), Err(e)) => Err(e),
        },
        OperationId::Rotate90 => Ok(StatementView::Operation(OperationView::Rotate90)),
        OperationId::Rotate180 => Ok(StatementView::Operation(OperationView::Rotate180)),
        OperationId::Rotate270 => Ok(StatementView::Operation(OperationView::Rotate270)),
        OperationId::Unsharpen => match (float_value(vs, 0), i32_value(vs, 1)) {
            (Ok(f), Ok(v)) => Ok(StatementView::Operation(OperationView::Unsharpen(f, v))),
            (Err(e), _) => Err(e),
            (Ok(_), Err(e)) => Err(e),
        },
        OperationId::ModResizePreserveAspectRatio => match bool_value(vs, 0) {
            Ok(true) => Ok(StatementView::RegisterEnvironmentItem(EnvironmentItem::PreserveAspectRatio)),
            Ok(false) => Ok(StatementView::DeregisterEnvironmentItem(EnvironmentKind::OptResizePreserveAspectRatio)),
            Err(e) => Err(e),
        },
        OperationId::ModResizeSamplingFilter => match value_at(vs, 0) {
            Err(e) => Err(e),
            Ok(v) => match filter_of_name(v) {
                Some(f) => Ok(StatementView::RegisterEnvironmentItem(EnvironmentItem::OptResizeSamplingFilter(f))),
                None => Err(filter_not_found_message()),
            },
        },
    }
}

/// An operation given with the decimal text of a number it reads as an
/// `i32` stands for exactly that number, negative ones included: for every
/// `n`, `--brighten n` brightens by `n` and `--hue-rotate n` rotates by `n`.
pub proof fn lemma_int_argument_read_back(n: i32)
    ensures
        spec_mk_statement(OperationId::Brighten, seq![signed_text(n as int)])
            == Ok::<StatementView, Seq<char>>(StatementView::Operation(OperationView::Brighten(n))),
        spec_mk_statement(OperationId::HueRotate, seq![signed_text(n as int)])
            == Ok::<StatementView, Seq<char>>(StatementView::Operation(OperationView::HueRotate(n))),
{
    lemma_parse_signed_text(n as int, i32::MAX as nat);
}

/// An operation given with the decimal texts of the numbers it reads as
/// `u32`s stands for exactly those numbers: `--resize x y` resizes to `x`
/// by `y`, and `--crop a b c d` crops from (`a`, `b`) to (`c`, `d`).
pub proof fn lemma_uint_arguments_read_back(a: u32, b: u32, c: u32, d: u32)
    ensures
        spec_mk_statement(OperationId::Resize, seq![decimal_text(a as nat), decimal_text(b as nat)])
            == Ok::<StatementView, Seq<char>>(StatementView::Operation(OperationView::Resize(a, b))),
        spec_mk_statement(
            OperationId::Crop,
            seq![decimal_text(a as nat), decimal_text(b as nat), decimal_text(c as nat), decimal_text(d as nat)],
        ) == Ok::<StatementView, Seq<char>>(StatementView::Operation(OperationView::Crop(a, b, c, d))),
{
    lemma_parse_unsigned_text(a as nat, u32::MAX as nat);
    lemma_parse_unsigned_text(b as nat, u32::MAX as nat);
    lemma_parse_unsigned_text(c as nat, u32::MAX as nat);
    lemma_parse_unsigned_text(d as nat, u32::MAX as nat);
}

/// The sampling-filter modifier given a filter's name, in any (ASCII)
/// case, sets exactly that filter.
pub proof fn lemma_sampling_filter_by_name(f: FilterType, w: Seq<char>)
    requires
        ascii_lower(w) == filter_name(f),
    ensures
        spec_mk_statement(OperationId::ModResizeSamplingFilter, seq![w]) == Ok::<StatementView, Seq<char>>(
            StatementView::RegisterEnvironmentItem(EnvironmentItem::OptResizeSamplingFilter(f)),
        ),
{
    lemma_filter_name_round_trip(f, w);
}

fn invalid_value(v: &String) -> (r: String)
    ensures
        r@ == invalid_value_message(v@),
{
    concat_text("Unable to parse image operation value: ", v.as_str())
}

fn missing_value() -> (r: String)
    ensures
        r@ == missing_value_message(),
{
    String::from_str("Unable to parse image operation: too few values were provided")
}

fn float_arg(vs: &Vec<String>, i: usize) -> (r: Result<FloatLit, String>)
    ensures
        match (r, float_value(strings_view(vs@), i as int)) {
            (Ok(a), Ok(b)) => a@ == b,
            (Err(a), Err(b)) => a@ == b,
            _ => false,
        },
{
    if i >= vs.len() {
        return Err(missing_value());
    }
    assert(strings_view(vs@)[i as int] == vs@[i as int]@);
    match FloatLit::parse(vs[i].as_str()) {
        Some(f) => Ok(f),
        None => Err(invalid_value(&vs[i])),
    }
}

fn i32_arg(vs: &Vec<String>, i: usize) -> (r: Result<i32, String>)
    ensures
        match (r, i32_value(strings_view(vs@), i as int)) {
            (Ok(a), Ok(b)) => a == b,
            (Err(a), Err(b)) => a@ == b,
            _ => false,
        },
{
    if i >= vs.len() {
        return Err(missing_value());
    }
    assert(strings_view(vs@)[i as int] == vs@[i as int]@);
    let cs = chars_of(vs[i].as_str());
    match parse_i32(&cs) {
        Some(v) => Ok(v),
        None => Err(invalid_value(&vs[i])),
    }
}

fn u32_arg(vs: &Vec<String>, i: usize) -> (r: Result<u32, String>)
    ensures
        match (r, u32_value(strings_view(vs@), i as int)) {
            (Ok(a), Ok(b)) => a == b,
            (Err(a), Err(b)) => a@ == b,
            _ => false,
        },
{
    if i >= vs.len() {
        return Err(missing_value());
    }
    assert(strings_view(vs@)[i as int] == vs@[i as int]@);
    let cs = chars_of(vs[i].as_str());
    match parse_u32(&cs) {
        Some(v) => Ok(v),
        None => Err(invalid_value(&vs[i])),
    }
}

fn bool_arg(vs: &Vec<String>, i: usize) -> (r: Result<bool, String>)
    ensures
        match (r, bool_value(strings_view(vs@), i as int)) {
            (Ok(a), Ok(b)) => a == b,
            (Err(a), Err(b)) => a@ == b,
            _ => false,
        },
{
    if i >= vs.len() {
        return Err(missing_value());
    }
    assert(strings_view(vs@)[i as int] == vs@[i as int]@);
    let t = String::from_str("true");
    let f = String::from_str("false");
    if vs[i] == t {
        Ok(true)
    } else if vs[i] == f {
        Ok(false)
    } else {
        Err(invalid_value(&vs[i]))
    }
}

fn float_args(vs: &Vec<String>, n: usize) -> (r: Result<Vec<FloatLit>, String>)
    ensures
        match (r, float_values(strings_view(vs@), n as nat)) {
            (Ok(a), Ok(b)) => a@.map_values(|f: FloatLit| f@) == b,
            (Err(a), Err(b)) => a@ == b,
            _ => false,
        },
{
    let mut out: Vec<FloatLit> = Vec::new();
    let mut i: usize = 0;
    assert(out@.map_values(|f: FloatLit| f@) =~= Seq::<Seq<char>>::empty());
    while i < n
        invariant
            i <= n,
            float_values(strings_view(vs@), i as nat) == Ok::<Seq<Seq<char>>, Seq<char>>(
                out@.map_values(|f: FloatLit| f@),
            ),
        decreases n - i,
    {
        match float_arg(vs, i) {
            Ok(f) => {
                let ghost before = out@.map_values(|f: FloatLit| f@);
                out.push(f);
                assert(out@.map_values(|f: FloatLit| f@) =~= before.push(f@));
            },
            Err(e) => {
                proof {
                    lemma_float_values_fail(strings_view(vs@), (i + 1) as nat, n as nat);
                }
                return Err(e);
            },
        }
        i += 1;
    }
    Ok(out)
}

proof fn lemma_float_values_fail(vs: Seq<Seq<char>>, m: nat, n: nat)
    requires
        m <= n,
        float_values(vs, m) is Err,
    ensures
        float_values(vs, n) == float_values(vs, m),
    decreases n - m,
{
    if m < n {
        lemma_float_values_fail(vs, m, (n - 1) as nat);
    }
}

fn filter_from_name(v: &String) -> (r: Option<FilterType>)
    ensures
        r == filter_of_name(v@),
{
    let cs = chars_of(v.as_str());
    let names: Vec<Vec<char>> = vec![
        vec!['c', 'a', 't', 'm', 'u', 'l', 'l', 'r', 'o', 'm'],
        vec!['g', 'a', 'u', 's', 's', 'i', 'a', 'n'],
        vec!['l', 'a', 'n', 'c', 'z', 'o', 's', '3'],
        vec!['n', 'e', 'a', 'r', 'e', 's', 't'],
        vec!['t', 'r', 'i', 'a', 'n', 'g', 'l', 'e'],
    ];
    proof {
        reveal_strlit("catmullrom");
        reveal_strlit("gaussian");
        reveal_strlit("lanczos3");
        reveal_strlit("nearest");
        reveal_strlit("triangle");
        assert(names@[0]@ =~= "catmullrom"@);
        assert(names@[1]@ =~= "gaussian"@);
        assert(names@[2]@ =~= "lanczos3"@);
        assert(names@[3]@ =~= "nearest"@);
        assert(names@[4]@ =~= "triangle"@);
        assert(cs@.skip(0) == cs@);
    }
    if lower_equals(&cs, 0, &names[0]) {
        Some(FilterType::CatmullRom)
    } else if lower_equals(&cs, 0, &names[1]) {
        Some(FilterType::Gaussian)
    } else if lower_equals(&cs, 0, &names[2]) {
        Some(FilterType::Lanczos3)
    } else if lower_equals(&cs, 0, &names[3]) {
        Some(FilterType::Nearest)
    } else if lower_equals(&cs, 0, &names[4]) {
        Some(FilterType::Triangle)
    } else {
        None
    }
}

impl OperationId {
    /// The statement this operation stands for with the given values (see
    /// [`spec_mk_statement`]).
    pub fn mk_statement(&self, inputs: &Vec<String>) -> (r: Result<Statement, String>)
        ensures
            match (r, spec_mk_statement(*self, strings_view(inputs@))) {
                (Ok(a), Ok(b)) => a@ == b,
                (Err(a), Err(b)) => a@ == b,
                _ => false,
            },
    {
        let vs = inputs;
        match self {
            OperationId::Blur => match float_arg(vs, 0) {
                Ok(f) => Ok(Statement::Operation(Operation::Blur(f))),
                Err(e) => Err(e),
            },
            OperationId::Brighten => match i32_arg(vs, 0) {
                Ok(v) => Ok(Statement::Operation(Operation::Brighten(v))),
                Err(e) => Err(e),
            },
            OperationId::Contrast => match float_arg(vs, 0) {
                Ok(f) => Ok(Statement::Operation(Operation::Contrast(f))),
                Err(e) => Err(e),
            },
            OperationId::Crop => {
                let a = match u32_arg(vs, 0) {
                    Ok(a) => a,
                    Err(e) => return Err(e),
                };
                let b = match u32_arg(vs, 1) {
                    Ok(b) => b,
                    Err(e) => return Err(e),
                };
                let c = match u32_arg(vs, 2) {
                    Ok(c) => c,
                    Err(e) => return Err(e),
                };
                let d = match u32_arg(vs, 3) {
                    Ok(d) => d,
                    Err(e) => return Err(e),
                };
                Ok(Statement::Operation(Operation::Crop(a, b, c, d)))
            },
            OperationId::Filter3x3 => match float_args(vs, 9) {
                Ok(fs) => Ok(Statement::Operation(Operation::Filter3x3(fs))),
                Err(e) => Err(e),
            },
            OperationId::FlipH => Ok(Statement::Operation(Operation::FlipHorizontal)),
            OperationId::FlipV => Ok(Statement::Operation(Operation::FlipVertical)),
            OperationId::Grayscale => Ok(Statement::Operation(Operation::GrayScale)),
            OperationId::HueRotate => match i32_arg(vs, 0) {
                Ok(v) => Ok(Statement::Operation(Operation::HueRotate(v))),
                Err(e) => Err(e),
            },
            OperationId::Invert => Ok(Statement::Operation(Operation::Invert)),
            OperationId::Resize => {
                let a = match u32_arg(vs, 0) {
                    Ok(a) => a,
                    Err(e) => return Err(e),
                };
                let b = match u32_arg(vs, 1) {
                    Ok(b) => b,
                    Err(e) => return Err(e),
                };
                Ok(Statement::Operation(Operation::Resize(a, b)))
            },
            OperationId::Rotate90 => Ok(Statement::Operation(Operation::Rotate90)),
            OperationId::Rotate180 => Ok(Statement::Operation(Operation::Rotate180)),
            OperationId::Rotate270 => Ok(Statement::Operation(Operation::Rotate270)),
            OperationId::Unsharpen => {
                let f = match float_arg(vs, 0) {
                    Ok(f) => f,
                    Err(e) => return Err(e),
                };
                let v = match i32_arg(vs, 1) {
                    Ok(v) => v,
                    Err(e) => return Err(e),
                };
                Ok(Statement::Operation(Operation::Unsharpen(f, v)))
            },
            OperationId::ModResizePreserveAspectRatio => match bool_arg(vs, 0) {
                Ok(true) => Ok(Statement::RegisterEnvironmentItem(EnvironmentItem::PreserveAspectRatio)),
                Ok(false) => Ok(Statement::DeregisterEnvironmentItem(EnvironmentKind::OptResizePreserveAspectRatio)),
                Err(e) => Err(e),
            },
            OperationId::ModResizeSamplingFilter => {
                if vs.len() == 0 {
                    return Err(missing_value());
                }
                assert(strings_view(vs@)[0] == vs@[0]@);
                match filter_from_name(&vs[0]) {
                    Some(f) => Ok(Statement::RegisterEnvironmentItem(EnvironmentItem::OptResizeSamplingFilter(f))),
                    None => Err(String::from_str("Error: resize sampling filter not found.")),
                }
            },
        }
    }
}

/// The statement of an operation node.
pub open spec fn op_statement(o: OpView) -> Result<StatementView, Seq<char>> {
    match o {
        OpView::Bare(_, id) => spec_mk_statement(id, seq![]),
        OpView::WithValues(_, id, vs) => spec_mk_statement(id, vs),
    }
}

/// The statements of the nodes, in order; the first node whose statement
/// fails decides the error.
pub open spec fn statements_of(s: Seq<(usize, OpView)>) -> Result<Seq<StatementView>, Seq<char>>
    decreases s.len(),
{
    if s.len() == 0 {
        Ok(seq![])
    } else {
        match op_statement(s[0].1) {
            Err(e) => Err(e),
            Ok(st) => match statements_of(s.drop_first()) {
                Ok(rest) => Ok(seq![st] + rest),
                Err(e) => Err(e),
            },
        }
    }
}

/// The statements of the operations in the tree, in the order of their
/// positions (see [`statements_of`]).
pub fn ast_from_index_tree(tree: &IndexTree) -> (r: Result<Vec<Statement>, String>)
    ensures
        exists|s: Seq<(usize, OpView)>|
            is_ordered_listing(s, tree_view(tree@)) && match (r, statements_of(s)) {
                (Ok(a), Ok(b)) => statements_view(a@) == b,
                (Err(a), Err(b)) => a@ == b,
                _ => false,
            },
{
    let entries = tree_entries(tree);
    let ghost s = nodes_view(entries@);
    let mut out: Vec<Statement> = Vec::new();
    let mut i: usize = 0;
    proof {
        assert(s.skip(0) == s);
        match statements_of(s) {
            Ok(b) => {
                assert(statements_view(out@) + b =~= b);
            },
            Err(_) => {},
        }
    }
    while i < entries.len()
        invariant
            i <= entries.len(),
            s == nodes_view(entries@),
            is_ordered_listing(s, tree_view(tree@)),
            statements_of(s) == match statements_of(s.skip(i as int)) {
                Ok(rest) => Ok(statements_view(out@) + rest),
                Err(e) => Err(e),
            },
        decreases entries.len() - i,
    {
        let ghost rest = s.skip(i as int);
        assert(rest[0] == node_view(entries@[i as int]));
        assert(rest.drop_first() == s.skip(i + 1));
        let st = match &entries[i].1 {
            Op::Bare(_, id) => {
                let empty: Vec<String> = Vec::new();
                assert(strings_view(empty@) =~= Seq::<Seq<char>>::empty());
                id.mk_statement(&empty)
            },
            Op::WithValues(_, id, values) => id.mk_statement(values),
        };
        match st {
            Err(e) => {
                assert(op_statement(rest[0].1) == Err::<StatementView, Seq<char>>(e@));
                assert(statements_of(rest) == Err::<Seq<StatementView>, Seq<char>>(e@));
                assert(statements_of(s) == Err::<Seq<StatementView>, Seq<char>>(e@));
                return Err(e);
            },
            Ok(st) => {
                let ghost before = statements_view(out@);
                out.push(st);
                assert(statements_view(out@) =~= before.push(st@));
                proof {
                    match statements_of(s.skip(i + 1)) {
                        Ok(r2) => {
                            assert(before + (seq![st@] + r2) =~= statements_view(out@) + r2);
                        },
                        Err(_) => {},
                    }
                }
            },
        }
        i += 1;
    }
    assert(s.skip(i as int) =~= Seq::<(usize, OpView)>::empty());
    assert(statements_view(out@) + Seq::<StatementView>::empty() =~= statements_view(out@));
    Ok(out)
}

/// The operations that can be given as arguments, in the order in which
/// their nodes are added to the tree: the image operations, then the
/// modifiers.
pub open spec fn argument_operations() -> Seq<OperationId> {
    seq![
        OperationId::Blur,
        OperationId::Brighten,
        OperationId::Contrast,
        OperationId::Crop,
        OperationId::Filter3x3,
        OperationId::FlipH,
        OperationId::FlipV,
        OperationId::Grayscale,
        OperationId::HueRotate,
        OperationId::Invert,
        OperationId::Resize,
        OperationId::Rotate90,
        OperationId::Rotate180,
        OperationId::Rotate270,
        OperationId::Unsharpen,
        OperationId::ModResizeSamplingFilter,
        OperationId::ModResizePreserveAspectRatio,
    ]
}

/// The operations that can be given as arguments (see [`argument_operations`]).
pub fn argument_operation_order() -> (r: Vec<OperationId>)
    ensures
        r@ == argument_operations(),
{
    let r = vec![
        OperationId::Blur,
        OperationId::Brighten,
        OperationId::Contrast,
        OperationId::Crop,
        OperationId::Filter3x3,
        OperationId::FlipH,
        OperationId::FlipV,
        OperationId::Grayscale,
        OperationId::HueRotate,
        OperationId::Invert,
        OperationId::Resize,
        OperationId::Rotate90,
        OperationId::Rotate180,
        OperationId::Rotate270,
        OperationId::Unsharpen,
        OperationId::ModResizeSamplingFilter,
        OperationId::ModResizePreserveAspectRatio,
    ];
    assert(r@ =~= argument_operations());
    r
}

/// Adds the nodes found for the operations to the tree and builds the
/// statements from it, in the order of the positions.
pub fn build_ast(
    tree: &mut IndexTree,
    operations: Vec<(OperationId, Option<Vec<IndexedOp>>)>,
) -> (r: Result<Vec<Statement>, String>)
    ensures
        match spec_extend_with_operations(tree_view(old(tree)@), found_ops_view(operations@)) {
            Err(e) => r matches Err(x) && x@ == e,
            Ok(m) => tree_view(final(tree)@) == m && exists|s: Seq<(usize, OpView)>|
                is_ordered_listing(s, m) && match (r, statements_of(s)) {
                    (Ok(a), Ok(b)) => statements_view(a@) == b,
                    (Err(a), Err(b)) => a@ == b,
                    _ => false,
                },
        },
{
    match ast_extend_with_operation(tree, operations) {
        Err(e) => Err(e),
        Ok(()) => ast_from_index_tree(tree),
    }
}

} // verus!
