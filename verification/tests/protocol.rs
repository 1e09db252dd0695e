//! The fixed reconstruction shapes of the built-in implementations, checked
//! against hand-built expected token trees, and the round-trip reading of
//! simple descriptions.

use struct_baker::bake::{Bake, Bakeable};
use struct_baker::tokens::{Delim, Tok, Tree};

fn word(s: &str) -> Tok {
    Tok::Word(s.to_owned())
}

fn uint(n: u128) -> Tok {
    Tok::LitInt { neg: false, mag: n }
}

fn group(d: Delim, toks: Vec<Tok>) -> Tok {
    Tok::Group(d, toks)
}

fn tree(toks: Vec<Tok>) -> Tree {
    Tree { toks }
}

#[test]
fn unit_is_empty_parens() {
    let t = ().to_stream();
    assert!(t.tree_eq(&tree(vec![group(Delim::Paren, vec![])])));
}

#[test]
fn numbers_are_bare_literals() {
    assert!(5u64.to_stream().tree_eq(&tree(vec![uint(5)])));
    assert!(0u8.to_stream().tree_eq(&tree(vec![uint(0)])));
    assert!((-7i32).to_stream().tree_eq(&tree(vec![Tok::LitInt { neg: true, mag: 7 }])));
    assert!(i64::MIN
        .to_stream()
        .tree_eq(&tree(vec![Tok::LitInt { neg: true, mag: 9223372036854775808 }])));
}

#[test]
fn bools_are_bare_literals() {
    assert!(true.to_stream().tree_eq(&tree(vec![Tok::LitBool(true)])));
    assert!(false.to_stream().tree_eq(&tree(vec![Tok::LitBool(false)])));
}

#[test]
fn owned_text_adds_conversion() {
    let t = "ab".to_owned().to_stream();
    let expected = tree(vec![
        Tok::LitStr("ab".to_owned()),
        Tok::Mark('.'),
        word("to_owned"),
        group(Delim::Paren, vec![]),
    ]);
    assert!(t.tree_eq(&expected));
}

#[test]
fn option_some_and_none() {
    let t = Some(5i32).to_stream();
    assert!(t.tree_eq(&tree(vec![word("Some"), group(Delim::Paren, vec![uint(5)])])));
    let t = None::<i32>.to_stream();
    assert!(t.tree_eq(&tree(vec![word("None")])));
}

#[test]
fn vec_is_literal_sequence_in_order() {
    let t = vec![1u8, 2, 3].to_stream();
    let expected = tree(vec![
        word("vec"),
        Tok::Mark('!'),
        group(Delim::Bracket, vec![uint(1), Tok::Mark(','), uint(2), Tok::Mark(','), uint(3)]),
    ]);
    assert!(t.tree_eq(&expected));
}

#[test]
fn empty_vec() {
    let t = Vec::<u8>::new().to_stream();
    let expected = tree(vec![word("vec"), Tok::Mark('!'), group(Delim::Bracket, vec![])]);
    assert!(t.tree_eq(&expected));
}

#[test]
fn pair_tuple_shape() {
    let t = (1u32, true).to_stream();
    let expected = tree(vec![group(
        Delim::Paren,
        vec![uint(1), Tok::Mark(','), Tok::LitBool(true), Tok::Mark(',')],
    )]);
    assert!(t.tree_eq(&expected));
}

#[test]
fn tuple_arity_one_and_ten() {
    let t = (9u8,).to_stream();
    let expected = tree(vec![group(Delim::Paren, vec![uint(9), Tok::Mark(',')])]);
    assert!(t.tree_eq(&expected));

    let t = (0u8, 1u8, 2u8, 3u8, 4u8, 5u8, 6u8, 7u8, 8u8, 9u8).to_stream();
    let mut inner = Vec::new();
    for i in 0..10u128 {
        inner.push(uint(i));
        inner.push(Tok::Mark(','));
    }
    assert!(t.tree_eq(&tree(vec![group(Delim::Paren, inner)])));
}

#[test]
fn nested_tuple_in_vec() {
    let t = vec![(1u8, 2u8), (3u8, 4u8)].to_stream();
    let expected = tree(vec![
        word("vec"),
        Tok::Mark('!'),
        group(
            Delim::Bracket,
            vec![
                group(Delim::Paren, vec![uint(1), Tok::Mark(','), uint(2), Tok::Mark(',')]),
                Tok::Mark(','),
                group(Delim::Paren, vec![uint(3), Tok::Mark(','), uint(4), Tok::Mark(',')]),
            ],
        ),
    ]);
    assert!(t.tree_eq(&expected));
}

#[test]
fn boxed_value_allocates() {
    let t = Box::new(7u16).to_stream();
    let expected = tree(vec![
        word("Box"),
        Tok::Mark(':'),
        Tok::Mark(':'),
        word("new"),
        group(Delim::Paren, vec![uint(7)]),
    ]);
    assert!(t.tree_eq(&expected));
}

#[test]
fn result_sides_collapse_to_inner() {
    // Both sides flatten to the populated value's own description; the side
    // tag is not preserved.
    let ok = Ok::<u8, u8>(3).to_stream();
    let err = Err::<u8, u8>(3).to_stream();
    assert!(ok.tree_eq(&tree(vec![uint(3)])));
    assert!(err.tree_eq(&tree(vec![uint(3)])));
    assert!(ok.tree_eq(&err));
}

#[test]
fn token_tree_wraps_in_braces() {
    let t = 5u64.to_token_tree();
    assert!(t.tok_eq(&group(Delim::Brace, vec![uint(5)])));
}

#[test]
fn bake_matches_to_stream() {
    let a = 42u32.bake();
    let b = 42u32.to_stream();
    assert!(a.tree_eq(&b));
}

/// Reads the value of a description back: a one-literal tree denotes its
/// literal's value.
fn eval_uint(t: &Tree) -> Option<u128> {
    if t.toks.len() != 1 {
        return None;
    }
    match &t.toks[0] {
        Tok::LitInt { neg: false, mag } => Some(*mag),
        _ => None,
    }
}

#[test]
fn literal_descriptions_evaluate_back() {
    for n in [0u64, 1, 7, 65535, u64::MAX] {
        let t = n.to_stream();
        assert_eq!(eval_uint(&t), Some(n as u128));
    }
}

#[test]
fn array_is_literal_sequence() {
    let t = [1u8, 2, 3].to_stream();
    let expected = tree(vec![group(
        Delim::Bracket,
        vec![uint(1), Tok::Mark(','), uint(2), Tok::Mark(','), uint(3)],
    )]);
    assert!(t.tree_eq(&expected));
}

#[test]
fn deque_constructs_from_sequence() {
    let mut d = std::collections::VecDeque::new();
    d.push_back(1u8);
    d.push_back(2u8);
    let t = d.to_stream();
    let expected = tree(vec![
        word("std"),
        Tok::Mark(':'),
        Tok::Mark(':'),
        word("collections"),
        Tok::Mark(':'),
        Tok::Mark(':'),
        word("VecDeque"),
        Tok::Mark(':'),
        Tok::Mark(':'),
        word("from"),
        group(
            Delim::Paren,
            vec![group(Delim::Bracket, vec![uint(1), Tok::Mark(','), uint(2)])],
        ),
    ]);
    assert!(t.tree_eq(&expected));
}

#[test]
fn duration_components_reconstruct_a_constructor_call() {
    let t = struct_baker::bake::duration_to_stream(3, 500);
    let expected = tree(vec![
        word("std"),
        Tok::Mark(':'),
        Tok::Mark(':'),
        word("time"),
        Tok::Mark(':'),
        Tok::Mark(':'),
        word("Duration"),
        Tok::Mark(':'),
        Tok::Mark(':'),
        word("new"),
        group(Delim::Paren, vec![uint(3), Tok::Mark(','), uint(500)]),
    ]);
    assert!(t.tree_eq(&expected));
}

#[test]
fn range_forms_use_dot_dot() {
    let t = (1u8..5u8).to_stream();
    let expected = tree(vec![uint(1), Tok::Mark('.'), Tok::Mark('.'), uint(5)]);
    assert!(t.tree_eq(&expected));
    let t = (1u8..).to_stream();
    assert!(t.tree_eq(&tree(vec![uint(1), Tok::Mark('.'), Tok::Mark('.')])));
    let t = (..5u8).to_stream();
    assert!(t.tree_eq(&tree(vec![Tok::Mark('.'), Tok::Mark('.'), uint(5)])));
    let t = (..=5u8).to_stream();
    assert!(t.tree_eq(&tree(vec![Tok::Mark('.'), Tok::Mark('.'), Tok::Mark('='), uint(5)])));
}

#[test]
fn control_flow_and_bound_name_their_variant() {
    let t = std::ops::ControlFlow::<u8, u8>::Break(3).to_stream();
    assert!(t.toks[9].tok_eq(&word("Break")));
    let t = std::ops::Bound::Included(2u8).to_stream();
    assert!(t.toks[9].tok_eq(&word("Included")));
    let t = std::ops::Bound::<u8>::Unbounded.to_stream();
    assert!(t.toks[9].tok_eq(&word("Unbounded")));
}
