//! Unit tests for the parser, the operator table, the tree builder and
//! the evaluator taken one at a time.

use pemdas::CalcError;
use pemdas::Node;
use pemdas::Op;
use pemdas::build_tree;
use pemdas::compute;
use pemdas::count_inner_nodes;
use pemdas::count_leaves;
use pemdas::exp;
use pemdas::get_operator_fn_and_symbol;
use pemdas::get_operator_priority;
use pemdas::parse_isize;

fn toks(words: &[&str]) -> Vec<String> {
    let mut v: Vec<String> = Vec::new();
    for w in words {
        v.push((*w).to_owned());
    }
    v
}

#[test]
fn parse_plain_and_signed_integers() {
    assert_eq!(parse_isize("42"), Ok(42));
    assert_eq!(parse_isize("+5"), Ok(5));
    assert_eq!(parse_isize("-5"), Ok(-5));
    assert_eq!(parse_isize("0"), Ok(0));
    assert_eq!(parse_isize("-0"), Ok(0));
}

#[test]
fn parse_rejects_non_numbers_and_names_them() {
    for bad in ["", "-", "+", "1a", "a1", " 1", "--1"] {
        assert_eq!(
            parse_isize(bad),
            Err(CalcError::InvalidOperand(bad.to_owned()))
        );
    }
}

#[test]
fn parse_covers_the_whole_isize_range() {
    let max = format!("{}", isize::MAX);
    let min = format!("{}", isize::MIN);
    assert_eq!(parse_isize(&max), Ok(isize::MAX));
    assert_eq!(parse_isize(&min), Ok(isize::MIN));
}

#[test]
fn parse_rejects_values_beyond_the_range() {
    for big in [
        "9223372036854775808000",
        "-9223372036854775809000",
        "99999999999999999999999999999999999999999999",
    ] {
        assert_eq!(
            parse_isize(big),
            Err(CalcError::InvalidOperand(big.to_owned()))
        );
    }
}

#[test]
fn operator_tokens_map_to_their_tags() {
    assert_eq!(get_operator_fn_and_symbol("+"), Ok(Op::Add));
    assert_eq!(get_operator_fn_and_symbol("-"), Ok(Op::Sub));
    assert_eq!(get_operator_fn_and_symbol("*"), Ok(Op::Mul));
    assert_eq!(get_operator_fn_and_symbol("/"), Ok(Op::Div));
    assert_eq!(get_operator_fn_and_symbol("**"), Ok(Op::Pow));
}

#[test]
fn operator_tokens_outside_the_set_are_rejected_and_named() {
    for bad in ["%", "***", "", "+-"] {
        assert_eq!(
            get_operator_fn_and_symbol(bad),
            Err(CalcError::UnrecognizedOperator(bad.to_owned()))
        );
    }
}

#[test]
fn priorities_ascend_from_sum_to_exponent() {
    assert_eq!(get_operator_priority(Op::Add), 0);
    assert_eq!(get_operator_priority(Op::Sub), 0);
    assert_eq!(get_operator_priority(Op::Mul), 1);
    assert_eq!(get_operator_priority(Op::Div), 1);
    assert_eq!(get_operator_priority(Op::Pow), 2);
}

#[test]
fn built_tree_has_one_inner_node_fewer_than_leaves() {
    let t = build_tree(&toks(&["2", "+", "3", "*", "4"])).unwrap();
    assert_eq!(count_leaves(&t), 3);
    assert_eq!(count_inner_nodes(&t), 2);
    let t = build_tree(&toks(&["9"])).unwrap();
    assert_eq!(count_leaves(&t), 1);
    assert_eq!(count_inner_nodes(&t), 0);
    let t = build_tree(&toks(&["1", "-", "2", "-", "3", "-", "4", "-", "5"])).unwrap();
    assert_eq!(count_leaves(&t), 5);
    assert_eq!(count_inner_nodes(&t), 4);
}

#[test]
fn built_tree_shape_encodes_precedence() {
    let t = build_tree(&toks(&["2", "+", "3", "*", "4"])).unwrap();
    match t {
        Node::Inner { op, left, right } => {
            assert_eq!(op, Op::Add);
            assert_eq!(*left, Node::Leaf(2));
            match *right {
                Node::Inner {
                    op: rop,
                    left: rl,
                    right: rr,
                } => {
                    assert_eq!(rop, Op::Mul);
                    assert_eq!(*rl, Node::Leaf(3));
                    assert_eq!(*rr, Node::Leaf(4));
                }
                Node::Leaf(_) => panic!("expected an inner node under the sum"),
            }
        }
        Node::Leaf(_) => panic!("expected an inner node at the root"),
    }
}

#[test]
fn deep_insertion_builds_the_left_associative_shape() {
    let t = build_tree(&toks(&["2", "**", "3", "*", "4", "+", "5"])).unwrap();
    let expected = Node::Inner {
        op: Op::Add,
        left: Box::new(Node::Inner {
            op: Op::Mul,
            left: Box::new(Node::Inner {
                op: Op::Pow,
                left: Box::new(Node::Leaf(2)),
                right: Box::new(Node::Leaf(3)),
            }),
            right: Box::new(Node::Leaf(4)),
        }),
        right: Box::new(Node::Leaf(5)),
    };
    assert_eq!(t, expected);
}

#[test]
fn compute_walks_a_tree_bottom_up() {
    let t = Node::Inner {
        op: Op::Sub,
        left: Box::new(Node::Leaf(10)),
        right: Box::new(Node::Inner {
            op: Op::Div,
            left: Box::new(Node::Leaf(8)),
            right: Box::new(Node::Leaf(2)),
        }),
    };
    assert_eq!(compute(&t), Ok(6));
}

#[test]
fn exponentiation_by_repeated_multiplication() {
    assert_eq!(exp(2, 10), Ok(1024));
    assert_eq!(exp(-2, 3), Ok(-8));
    assert_eq!(exp(-2, 2), Ok(4));
    assert_eq!(exp(7, 1), Ok(7));
    assert_eq!(exp(0, 5), Ok(0));
    assert_eq!(exp(1, 1000), Ok(1));
}

#[test]
fn exponentiation_failures() {
    assert_eq!(exp(2, -1), Err(CalcError::NegativeExponent(-1)));
    assert_eq!(exp(2, 63), Err(CalcError::ArithmeticOverflow));
    assert_eq!(exp(isize::MAX, 2), Err(CalcError::ArithmeticOverflow));
}

#[test]
fn negative_exponent_passes_the_builder_and_fails_evaluation() {
    let t = build_tree(&toks(&["2", "**", "-1"])).unwrap();
    assert_eq!(compute(&t), Err(CalcError::NegativeExponent(-1)));
}

#[test]
fn zero_divisor_passes_the_builder_and_fails_evaluation() {
    let t = build_tree(&toks(&["5", "/", "0"])).unwrap();
    assert_eq!(compute(&t), Err(CalcError::DivideByZero));
}

#[test]
fn errors_carry_a_description_naming_the_token() {
    assert_eq!(CalcError::DivideByZero.message(), "division by zero");
    assert_eq!(CalcError::MalformedInput.message(), "missing operand");
    assert_eq!(
        CalcError::InvalidOperand("x7".to_owned()).message(),
        "unexpected argument: x7, expected a number"
    );
    assert_eq!(
        CalcError::UnrecognizedOperator("%".to_owned()).message(),
        "unrecognized operator %"
    );
}
