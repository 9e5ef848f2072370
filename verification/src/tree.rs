//! The binary expression tree and its builder.
//!
//! `build_tree` consumes the tokens left to right: it parses one operand
//! and one operator, builds the tree for the remaining tokens first, and
//! then combines the operator with that tree, descending its left spine
//! to the deepest node that the operator still binds at least as tightly
//! as.  The finished tree is the left-associative precedence parse: every
//! inner node's right child binds strictly tighter than the node, and its
//! left child at least as tightly.

use vstd::prelude::*;

use crate::ops::CalcError;
use crate::ops::Op;
use crate::ops::get_operator_fn_and_symbol;
use crate::ops::get_operator_priority;
use crate::ops::spec_op_of;
use crate::ops::spec_priority;
use crate::parse::parse_isize;
use crate::parse::spec_parse_int;

verus! {

/// One node of the expression tree: a bare operand, or an operator with
/// exactly two children, each owned by its parent alone.
#[derive(Debug, PartialEq, Eq)]
pub enum Node {
    /// A single operand.
    Leaf(isize),
    /// An operator applied to two sub-expressions.
    Inner { op: Op, left: Box<Node>, right: Box<Node> },
}

/// A rejected build, as ghost data: which failure, and the token at
/// fault where one token is.
pub enum BuildFault {
    /// The token sequence is empty or of even length.
    MalformedInput,
    /// The token in an operand position that does not parse as an integer.
    InvalidOperand(Seq<char>),
    /// The token in an operator position outside the closed operator set.
    UnrecognizedOperator(Seq<char>),
}

/// Whether the error `e` reports exactly the fault `f`: the same kind,
/// and the same offending token where the fault names one.
pub open spec fn matches_fault(e: CalcError, f: BuildFault) -> bool {
    match f {
        BuildFault::MalformedInput => e == CalcError::MalformedInput,
        BuildFault::InvalidOperand(t) => e matches CalcError::InvalidOperand(s) && s@ == t,
        BuildFault::UnrecognizedOperator(t) => e matches CalcError::UnrecognizedOperator(s) && s@
            == t,
    }
}

/// The number of leaves of a tree.
pub open spec fn leaf_count(n: Node) -> nat
    decreases n,
{
    match n {
        Node::Leaf(_) => 1,
        Node::Inner { op: _, left, right } => leaf_count(*left) + leaf_count(*right),
    }
}

/// The number of inner (operator) nodes of a tree.
pub open spec fn inner_count(n: Node) -> nat
    decreases n,
{
    match n {
        Node::Leaf(_) => 0,
        Node::Inner { op: _, left, right } => 1 + inner_count(*left) + inner_count(*right),
    }
}

/// The operand values of a tree, in left-to-right order.
pub open spec fn operands_inorder(t: Node) -> Seq<isize>
    decreases t,
{
    match t {
        Node::Leaf(v) => seq![v],
        Node::Inner { op: _, left, right } => operands_inorder(*left) + operands_inorder(*right),
    }
}

/// The operators of a tree, in left-to-right order.
pub open spec fn operators_inorder(t: Node) -> Seq<Op>
    decreases t,
{
    match t {
        Node::Leaf(_) => Seq::empty(),
        Node::Inner { op, left, right } => operators_inorder(*left) + seq![op]
            + operators_inorder(*right),
    }
}

/// The parsed values of the tokens in operand (even) positions.
pub open spec fn operand_values(toks: Seq<Seq<char>>) -> Seq<isize>
    decreases toks.len(),
{
    if toks.len() == 0 {
        Seq::empty()
    } else if toks.len() == 1 {
        seq![spec_parse_int(toks[0])->0 as isize]
    } else {
        seq![spec_parse_int(toks[0])->0 as isize] + operand_values(toks.skip(2))
    }
}

/// The operators the tokens in operator (odd) positions stand for.
pub open spec fn operator_tags(toks: Seq<Seq<char>>) -> Seq<Op>
    decreases toks.len(),
{
    if toks.len() <= 1 {
        Seq::empty()
    } else {
        seq![spec_op_of(toks[1])->0] + operator_tags(toks.skip(2))
    }
}

/// How tightly a tree's root binds: an inner node binds as its operator's
/// priority class; a leaf binds tighter than any operator.
pub open spec fn root_class(t: Node) -> int {
    match t {
        Node::Leaf(_) => 3,
        Node::Inner { op, left: _, right: _ } => spec_priority(op),
    }
}

/// The precedence shape of a left-associative parse: at every inner node,
/// the right child binds strictly tighter than the node (an equal or
/// looser operator to the right would belong above it), and the left
/// child binds at least as tightly (an equal operator to the left nests
/// below, left-associatively).
pub open spec fn well_shaped(t: Node) -> bool
    decreases t,
{
    match t {
        Node::Leaf(_) => true,
        Node::Inner { op, left, right } => root_class(*left) >= spec_priority(op) && root_class(
            *right,
        ) > spec_priority(op) && well_shaped(*left) && well_shaped(*right),
    }
}

/// Combines the operand `leftv` and the operator `op` with the tree built
/// for the tokens to their right: descends the tree's left spine past
/// every node that `op` binds at least as tightly as, and becomes the
/// parent of the first subtree that binds tighter than `op`.
pub open spec fn spec_combine(op: Op, leftv: isize, right: Node) -> Node
    decreases right,
{
    match right {
        Node::Leaf(_) => Node::Inner {
            op,
            left: Box::new(Node::Leaf(leftv)),
            right: Box::new(right),
        },
        Node::Inner { op: rop, left: rleft, right: rright } => {
            if spec_priority(op) < spec_priority(rop) {
                Node::Inner { op, left: Box::new(Node::Leaf(leftv)), right: Box::new(right) }
            } else {
                Node::Inner {
                    op: rop,
                    left: Box::new(spec_combine(op, leftv, *rleft)),
                    right: rright,
                }
            }
        },
    }
}

/// The tree the builder returns for a token sequence, or the fault that
/// rejects it: sequences of even length (a trailing operator) and the
/// empty sequence are malformed; otherwise tokens in operand positions
/// must parse as integers and tokens in operator positions must be drawn
/// from the closed operator set, checked left to right.
pub open spec fn spec_build(toks: Seq<Seq<char>>) -> Result<Node, BuildFault>
    decreases toks.len(),
{
    if toks.len() == 0 || toks.len() % 2 == 0 {
        Err(BuildFault::MalformedInput)
    } else if spec_parse_int(toks[0]) is None {
        Err(BuildFault::InvalidOperand(toks[0]))
    } else {
        let v = spec_parse_int(toks[0])->0 as isize;
        if toks.len() == 1 {
            Ok(Node::Leaf(v))
        } else if spec_op_of(toks[1]) is None {
            Err(BuildFault::UnrecognizedOperator(toks[1]))
        } else {
            match spec_build(toks.skip(2)) {
                Ok(right) => Ok(spec_combine(spec_op_of(toks[1])->0, v, right)),
                Err(f) => Err(f),
            }
        }
    }
}

/// Builds the expression tree for a token sequence, left to right in one
/// pass, or reports the first error that rejects the sequence, naming
/// the offending token.
pub fn build_tree(args: &[String]) -> (r: Result<Node, CalcError>)
    ensures
        match spec_build(crate::toks_of(args@)) {
            Ok(t) => r == Ok::<Node, CalcError>(t),
            Err(f) => r matches Err(e) && matches_fault(e, f),
        },
{
    if args.len() % 2 == 0 {
        return Err(CalcError::MalformedInput);
    }
    proof {
        assert(crate::toks_of(args@).skip(0) =~= crate::toks_of(args@));
    }
    build_suffix(args, 0)
}

/// Builds the tree for the tokens from position `at` on.
fn build_suffix(args: &[String], at: usize) -> (r: Result<Node, CalcError>)
    requires
        at < args.len(),
        (args.len() - at) % 2 == 1,
    ensures
        match spec_build(crate::toks_of(args@).skip(at as int)) {
            Ok(t) => r == Ok::<Node, CalcError>(t),
            Err(f) => r matches Err(e) && matches_fault(e, f),
        },
    decreases args.len() - at,
{
    let ghost toks = crate::toks_of(args@).skip(at as int);
    assert(toks.len() == args.len() - at);
    assert(toks[0] == args@[at as int]@);
    let v = match parse_isize(slice_ref(args, at).as_str()) {
        Ok(v) => v,
        Err(e) => {
            return Err(e);
        },
    };
    if at == args.len() - 1 {
        return Ok(Node::Leaf(v));
    }
    assert(toks[1] == args@[at + 1]@);
    let op = match get_operator_fn_and_symbol(slice_ref(args, at + 1).as_str()) {
        Ok(op) => op,
        Err(e) => {
            return Err(e);
        },
    };
    let right = match build_suffix(args, at + 2) {
        Ok(t) => t,
        Err(e) => {
            proof {
                assert(crate::toks_of(args@).skip(at + 2) =~= toks.skip(2));
            }
            return Err(e);
        },
    };
    proof {
        assert(crate::toks_of(args@).skip(at + 2) =~= toks.skip(2));
    }
    Ok(insert_operator(op, v, right))
}

/// Combines one operand and one operator with the tree built for the
/// tokens to their right, descending the tree's left spine to the
/// position the operator's priority calls for.
fn insert_operator(op: Op, leftv: isize, right: Node) -> (r: Node)
    ensures
        r == spec_combine(op, leftv, right),
    decreases right,
{
    match right {
        Node::Leaf(_) => Node::Inner {
            op,
            left: Box::new(Node::Leaf(leftv)),
            right: Box::new(right),
        },
        Node::Inner { op: rop, left: rleft, right: rright } => {
            if get_operator_priority(op) < get_operator_priority(rop) {
                Node::Inner {
                    op,
                    left: Box::new(Node::Leaf(leftv)),
                    right: Box::new(Node::Inner { op: rop, left: rleft, right: rright }),
                }
            } else {
                Node::Inner {
                    op: rop,
                    left: Box::new(insert_operator(op, leftv, *rleft)),
                    right: rright,
                }
            }
        },
    }
}

/// Reads one element of a slice.
fn slice_ref<'a>(s: &'a [String], i: usize) -> (r: &'a String)
    requires
        i < s@.len(),
    ensures
        *r == s@[i as int],
{
    &s[i]
}

/// The number of leaves of a tree, by traversal.
pub fn count_leaves(n: &Node) -> (r: usize)
    requires
        leaf_count(*n) <= usize::MAX,
    ensures
        r == leaf_count(*n),
    decreases *n,
{
    match n {
        Node::Leaf(_) => 1,
        Node::Inner { op: _, left, right } => count_leaves(left) + count_leaves(right),
    }
}

/// The number of inner (operator) nodes of a tree, by traversal.
pub fn count_inner_nodes(n: &Node) -> (r: usize)
    requires
        inner_count(*n) < usize::MAX,
    ensures
        r == inner_count(*n),
    decreases *n,
{
    match n {
        Node::Leaf(_) => 0,
        Node::Inner { op: _, left, right } => 1 + count_inner_nodes(left) + count_inner_nodes(
            right,
        ),
    }
}

/// An even-length (or empty) token sequence is always rejected as
/// malformed, whatever its tokens hold.
pub proof fn lemma_even_length_malformed(toks: Seq<Seq<char>>)
    requires
        toks.len() % 2 == 0,
    ensures
        spec_build(toks) == Err::<Node, BuildFault>(BuildFault::MalformedInput),
{
}

/// Combining one operand and one operator with a tree adds exactly one
/// leaf and one inner node, however deep the operator is inserted.
proof fn lemma_combine_counts(op: Op, leftv: isize, right: Node)
    ensures
        leaf_count(spec_combine(op, leftv, right)) == 1 + leaf_count(right),
        inner_count(spec_combine(op, leftv, right)) == 1 + inner_count(right),
    decreases right,
{
    reveal_with_fuel(leaf_count, 3);
    reveal_with_fuel(inner_count, 3);
    match right {
        Node::Leaf(_) => {},
        Node::Inner { op: rop, left: rleft, right: _ } => {
            if spec_priority(op) >= spec_priority(rop) {
                lemma_combine_counts(op, leftv, *rleft);
            }
        },
    }
}

/// Combining keeps the in-order content: the new operand and operator
/// come first, and the combined tree's own content follows unchanged,
/// however deep the operator is inserted.
proof fn lemma_combine_inorder(op: Op, leftv: isize, right: Node)
    ensures
        operands_inorder(spec_combine(op, leftv, right)) == seq![leftv] + operands_inorder(right),
        operators_inorder(spec_combine(op, leftv, right)) == seq![op] + operators_inorder(right),
    decreases right,
{
    reveal_with_fuel(operands_inorder, 3);
    reveal_with_fuel(operators_inorder, 3);
    match right {
        Node::Leaf(_) => {},
        Node::Inner { op: rop, left: rleft, right: _ } => {
            if spec_priority(op) >= spec_priority(rop) {
                lemma_combine_inorder(op, leftv, *rleft);
            }
        },
    }
    assert(operands_inorder(spec_combine(op, leftv, right)) =~= seq![leftv] + operands_inorder(
        right,
    ));
    assert(operators_inorder(spec_combine(op, leftv, right)) =~= seq![op] + operators_inorder(
        right,
    ));
}

/// Combining keeps the precedence shape, and the combined tree's root
/// binds as the looser of the new operator and the old root.
proof fn lemma_combine_shape(op: Op, leftv: isize, right: Node)
    requires
        well_shaped(right),
    ensures
        well_shaped(spec_combine(op, leftv, right)),
        root_class(spec_combine(op, leftv, right)) == if spec_priority(op) <= root_class(right) {
            spec_priority(op)
        } else {
            root_class(right)
        },
    decreases right,
{
    reveal_with_fuel(well_shaped, 3);
    match right {
        Node::Leaf(_) => {},
        Node::Inner { op: rop, left: rleft, right: rright } => {
            if spec_priority(op) >= spec_priority(rop) {
                lemma_combine_shape(op, leftv, *rleft);
                // The new left child's root is the looser of `op` and the
                // old left child's root; both bind at least as tightly as
                // the unchanged root `rop`.
                assert(root_class(spec_combine(op, leftv, *rleft)) >= spec_priority(rop));
            }
        },
    }
}

/// In-order content: a tree built from a valid token sequence holds
/// exactly the sequence's operands and its operators, each in input
/// order — the builder reorders nothing and loses nothing.
pub proof fn lemma_tree_inorder(toks: Seq<Seq<char>>, t: Node)
    requires
        spec_build(toks) == Ok::<Node, BuildFault>(t),
    ensures
        operands_inorder(t) == operand_values(toks),
        operators_inorder(t) == operator_tags(toks),
    decreases toks.len(),
{
    if toks.len() == 1 {
        assert(operands_inorder(t) =~= operand_values(toks));
    } else {
        let sub = spec_build(toks.skip(2))->Ok_0;
        lemma_tree_inorder(toks.skip(2), sub);
        lemma_combine_inorder(spec_op_of(toks[1])->0, spec_parse_int(toks[0])->0 as isize, sub);
        assert(seq![spec_parse_int(toks[0])->0 as isize] + operand_values(toks.skip(2))
            == operand_values(toks));
        assert(seq![spec_op_of(toks[1])->0] + operator_tags(toks.skip(2)) == operator_tags(toks));
    }
}

/// Tree shape: a tree built from a valid token sequence of `2n + 1`
/// tokens (`n + 1` operands and `n` operators) has exactly `n + 1` leaves
/// and `n` inner nodes.
pub proof fn lemma_tree_counts(toks: Seq<Seq<char>>, t: Node)
    requires
        spec_build(toks) == Ok::<Node, BuildFault>(t),
    ensures
        leaf_count(t) == (toks.len() + 1) / 2,
        inner_count(t) == toks.len() / 2,
    decreases toks.len(),
{
    if toks.len() == 1 {
    } else {
        let sub = spec_build(toks.skip(2))->Ok_0;
        lemma_tree_counts(toks.skip(2), sub);
        lemma_combine_counts(spec_op_of(toks[1])->0, spec_parse_int(toks[0])->0 as isize, sub);
    }
}

/// Precedence shape: a built tree is the left-associative precedence
/// parse — at every inner node the right child binds strictly tighter
/// than the node and the left child at least as tightly.  Together with
/// the in-order content this pins the tree exactly.
pub proof fn lemma_tree_shape(toks: Seq<Seq<char>>, t: Node)
    requires
        spec_build(toks) == Ok::<Node, BuildFault>(t),
    ensures
        well_shaped(t),
    decreases toks.len(),
{
    if toks.len() == 1 {
    } else {
        let sub = spec_build(toks.skip(2))->Ok_0;
        lemma_tree_shape(toks.skip(2), sub);
        lemma_combine_shape(spec_op_of(toks[1])->0, spec_parse_int(toks[0])->0 as isize, sub);
    }
}

} // verus!
