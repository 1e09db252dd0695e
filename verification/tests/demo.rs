//! End-to-end scenarios: grammar text in, values out, values back to syntax.

use struct_baker::bake::Bake;
use struct_baker::grammar::parse;
use struct_baker::interpolation::Interpolatable;
use struct_baker::samples::{
    EnumTest, Ipol, Json, NodeError, Test, TupleStruct, UnbakedUnit, UnitStruct, WithUnbakedUnit,
};
use struct_baker::text::usize_to_string;
use struct_baker::tokens::{Delim, Tok, Tree};

fn known<T>(v: T) -> Interpolatable<T> {
    Interpolatable::Actual(v)
}

#[test]
fn plain_truth_parses() {
    assert!(parse("true") == Ok(Json::Boolean(known(true))));
    assert!(parse("false") == Ok(Json::Boolean(known(false))));
    assert!(parse("  true  ") == Ok(Json::Boolean(known(true))));
}

#[test]
fn numbers_parse() {
    assert!(parse("42") == Ok(Json::Number(known(42))));
    assert!(parse("0") == Ok(Json::Number(known(0))));
}

#[test]
fn strings_parse() {
    assert!(parse("\"abc123\"") == Ok(Json::String(known("abc123".to_owned()))));
    assert!(parse("\"\"") == Ok(Json::String(known(String::new()))));
}

#[test]
fn lists_parse_in_order() {
    let expected = Json::List(known(vec![
        Json::Number(known(1)),
        Json::Number(known(2)),
        Json::Number(known(3)),
    ]));
    assert!(parse("[1,2,3]") == Ok(expected));
    assert!(parse("[]") == Ok(Json::List(known(Vec::new()))));
    let nested = Json::List(known(vec![Json::List(known(vec![Json::Boolean(known(true))]))]));
    assert!(parse("[[true]]") == Ok(nested));
}

#[test]
fn deferred_element_keeps_the_list_unfit() {
    // The escape parses, the element is deferred, and the list can no
    // longer be fit into a fully concrete value.
    let parsed = parse("[1, ${ 2 + 2 }, 3]").unwrap();
    match parsed {
        Json::List(li) => {
            assert!(matches!(li, Interpolatable::Inter(_)));
            assert!(li.fit().is_err());
        },
        _ => panic!("a list was parsed"),
    }
}

#[test]
fn top_level_escape_cannot_be_fit() {
    assert!(parse("${ 2 + 2 }") == Err(NodeError::Interpolation));
}

#[test]
fn text_outside_the_grammar_is_rejected() {
    assert!(parse("") == Err(NodeError::Parsing));
    assert!(parse("garbage") == Err(NodeError::Parsing));
    assert!(parse("[1,2") == Err(NodeError::Parsing));
    assert!(parse("true extra") == Err(NodeError::Parsing));
    assert!(parse("\"no closing") == Err(NodeError::Parsing));
    assert!(parse("${ unbalanced") == Err(NodeError::Parsing));
    assert!(parse("99999999999999999999") == Err(NodeError::Parsing));
    assert!(parse("caf\u{e9}") == Err(NodeError::Parsing));
}

#[test]
fn truthyness_of_known_values() {
    assert!(!Json::Number(known(0)).truthyness());
    assert!(Json::Number(known(5)).truthyness());
    assert!(Json::Boolean(known(true)).truthyness());
    assert!(!Json::Boolean(known(false)).truthyness());
    assert!(!Json::String(known(String::new())).truthyness());
    assert!(Json::String(known("x".to_owned())).truthyness());
    assert!(!Json::List(known(Vec::new())).truthyness());
    assert!(Json::List(known(vec![Json::Boolean(known(false))])).truthyness());
    assert!(!Json::Dict(known(Vec::new())).truthyness());
    assert!(Json::Dict(known(vec![("k".to_owned(), Box::new(Json::Number(known(1))))]))
        .truthyness());
}

#[test]
fn derived_struct_bakes_with_field_layout() {
    // An unannotated two-field struct reconstructs its own path with each
    // field named and baked.
    let t = Test::new(true, 10).to_stream();
    let expected = Tree {
        toks: vec![
            Tok::Word("struct_baker".to_owned()),
            Tok::Mark(':'),
            Tok::Mark(':'),
            Tok::Word("samples".to_owned()),
            Tok::Mark(':'),
            Tok::Mark(':'),
            Tok::Word("Test".to_owned()),
            Tok::Group(
                Delim::Brace,
                vec![
                    Tok::Word("zahl".to_owned()),
                    Tok::Mark(':'),
                    Tok::LitInt { neg: false, mag: 10 },
                    Tok::Mark(','),
                    Tok::Word("wahrheit".to_owned()),
                    Tok::Mark(':'),
                    Tok::LitBool(true),
                ],
            ),
        ],
    };
    assert!(t.tree_eq(&expected));
}

#[test]
fn deferred_field_bakes_as_its_fragment() {
    // A known field bakes verbatim; the deferred field stands as its
    // stored fragment.
    let v = Ipol {
        field_a: Interpolatable::Actual(10),
        field_b: Interpolatable::new_inter_raw(Tok::Verbatim("later".to_owned())),
    };
    let t = v.to_stream();
    let expected = Tree {
        toks: vec![
            Tok::Word("Test".to_owned()),
            Tok::Group(
                Delim::Brace,
                vec![
                    Tok::Word("field_a".to_owned()),
                    Tok::Mark(':'),
                    Tok::LitInt { neg: false, mag: 10 },
                    Tok::Mark(','),
                    Tok::Word("field_b".to_owned()),
                    Tok::Mark(':'),
                    Tok::Verbatim("later".to_owned()),
                ],
            ),
        ],
    };
    assert!(t.tree_eq(&expected));
}

#[test]
fn enum_variants_bake_their_own_arm() {
    let t = EnumTest::UnitVarient.to_stream();
    assert!(t.toks.last().unwrap().tok_eq(&Tok::Word("UnitVarient".to_owned())));
    let t = EnumTest::TupleVariant(3, false).to_stream();
    match t.toks.last().unwrap() {
        Tok::Group(Delim::Paren, inner) => {
            assert!(inner[0].tok_eq(&Tok::LitInt { neg: false, mag: 3 }));
            assert!(inner[2].tok_eq(&Tok::LitBool(false)));
        },
        _ => panic!("a tuple variant ends in a parenthesized field list"),
    }
}

#[test]
fn substitution_skip_on_the_unit_marker() {
    // The wrapper's field declares its own type as the substitution
    // target, so it bakes through the plain protocol, with no conversion
    // call in the produced syntax.
    let t = WithUnbakedUnit(UnbakedUnit).to_stream();
    fn mentions(toks: &[Tok], w: &str) -> bool {
        toks.iter().any(|t| match t {
            Tok::Word(s) => s == w,
            Tok::Group(_, inner) => mentions(inner, w),
            _ => false,
        })
    }
    assert!(mentions(&t.toks, "UnbakedUnit"));
    assert!(!mentions(&t.toks, "into"));
    assert!(!mentions(&t.toks, "Into"));
}

#[test]
fn tuple_struct_and_unit_struct_bake() {
    let t = UnitStruct.to_stream();
    assert!(t.toks.last().unwrap().tok_eq(&Tok::Word("UnitStruct".to_owned())));
    let t = TupleStruct(1, 2).to_stream();
    match t.toks.last().unwrap() {
        Tok::Group(Delim::Paren, _) => {},
        _ => panic!("a tuple struct ends in a parenthesized field list"),
    }
}

#[test]
fn parsed_values_bake_back_to_syntax() {
    let parsed = parse("[1,true]").unwrap();
    let t = parsed.to_stream();
    fn mentions_lit(toks: &[Tok], mag: u128) -> bool {
        toks.iter().any(|t| match t {
            Tok::LitInt { neg: false, mag: m } => *m == mag,
            Tok::Group(_, inner) => mentions_lit(inner, mag),
            _ => false,
        })
    }
    assert!(mentions_lit(&t.toks, 1));
}

#[test]
fn decimal_spelling() {
    assert_eq!(usize_to_string(0), "0".to_owned());
    assert_eq!(usize_to_string(7), "7".to_owned());
    assert_eq!(usize_to_string(123), "123".to_owned());
    assert_eq!(usize_to_string(1000), "1000".to_owned());
}
