//! An integer calculator over a flat sequence of string tokens that
//! alternates operands and binary operators (for example `3 + 4 * 2`).
//!
//! The token sequence is turned into a binary expression tree in a single
//! left-to-right pass (`build_tree`): the tree for the tokens to the right
//! of the current operator is built first, and the current operator is
//! then inserted down that tree's left spine, as deep as its priority
//! calls for, so the finished tree is the left-associative precedence
//! parse.  The tree is then reduced bottom-up to one integer (`compute`).

use vstd::prelude::*;

mod eval;
mod ops;
mod parse;
mod tree;

pub use eval::compute;
pub use eval::exp;
pub use eval::fit;
pub use eval::in_isize;
pub use eval::spec_apply;
pub use eval::spec_eval;
pub use eval::trunc_div;
pub use eval::widen;
pub use ops::CalcError;
pub use ops::Op;
pub use ops::get_operator_fn_and_symbol;
pub use ops::get_operator_priority;
pub use ops::spec_op_of;
pub use ops::spec_priority;
pub use parse::all_digits;
pub use parse::digit_val;
pub use parse::digits_val;
pub use parse::is_digit;
pub use parse::parse_isize;
pub use parse::spec_parse_int;
pub use tree::BuildFault;
pub use tree::Node;
pub use tree::build_tree;
pub use tree::count_inner_nodes;
pub use tree::count_leaves;
pub use tree::inner_count;
pub use tree::leaf_count;
pub use tree::lemma_even_length_malformed;
pub use tree::lemma_tree_counts;
pub use tree::lemma_tree_inorder;
pub use tree::lemma_tree_shape;
pub use tree::matches_fault;
pub use tree::operand_values;
pub use tree::operands_inorder;
pub use tree::operator_tags;
pub use tree::operators_inorder;
pub use tree::root_class;
pub use tree::spec_build;
pub use tree::spec_combine;
pub use tree::well_shaped;

verus! {

/// The views of a sequence of string tokens, in order.
pub open spec fn toks_of(args: Seq<String>) -> Seq<Seq<char>> {
    args.map_values(|s: String| s@)
}

/// Builds the expression tree for `args` and reduces it to one integer,
/// or reports the first error that building or reduction hits.
pub fn calc(args: &[String]) -> (r: Result<isize, CalcError>)
    ensures
        match spec_build(toks_of(args@)) {
            Ok(t) => widen(r) == spec_eval(t),
            Err(f) => r matches Err(e) && matches_fault(e, f),
        },
{
    match build_tree(args) {
        Ok(t) => compute(&t),
        Err(e) => Err(e),
    }
}

/// A single valid operand evaluates to itself: a one-token sequence whose
/// token parses as the integer `n` builds a tree that evaluates to `n`.
pub proof fn lemma_single_operand(toks: Seq<Seq<char>>, n: int)
    requires
        toks.len() == 1,
        spec_parse_int(toks[0]) == Some(n),
    ensures
        spec_build(toks) matches Ok(t) && spec_eval(t) == Ok::<int, CalcError>(n),
{
}

} // verus!
