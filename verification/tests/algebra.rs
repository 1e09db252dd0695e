//! The interpolation algebra: merging, promotion, extraction, equality, and
//! mapping.

use struct_baker::bake::Bakeable;
use struct_baker::flatten::FlattenInterpolation;
use struct_baker::functions::BakeableFnOnce;
use struct_baker::interpolation::{parse_interpolation, Interpolatable, Interpolate, IntoInterpolation};
use struct_baker::tokens::{Delim, Tok, Tree};

fn deferred<T>(text: &str) -> Interpolatable<T> {
    Interpolatable::new_inter_raw(Tok::Verbatim(text.to_owned()))
}

#[test]
fn merge_of_no_elements_stays_known() {
    let v: Vec<Interpolatable<u8>> = Vec::new();
    match v.flatten_interpolation() {
        Interpolatable::Actual(out) => assert_eq!(out, Vec::<u8>::new()),
        Interpolatable::Inter(_) => panic!("empty merge must stay known"),
    }
}

#[test]
fn merge_of_one_known_element_stays_known() {
    let v = vec![Interpolatable::Actual(9u8)];
    match v.flatten_interpolation() {
        Interpolatable::Actual(out) => assert_eq!(out, vec![9u8]),
        Interpolatable::Inter(_) => panic!("all-known merge must stay known"),
    }
}

#[test]
fn merge_of_five_known_elements_keeps_order() {
    let v: Vec<Interpolatable<u8>> = (1..=5u8).map(Interpolatable::Actual).collect();
    match v.flatten_interpolation() {
        Interpolatable::Actual(out) => assert_eq!(out, vec![1u8, 2, 3, 4, 5]),
        Interpolatable::Inter(_) => panic!("all-known merge must stay known"),
    }
}

#[test]
fn one_deferred_element_promotes_first_position() {
    let v = vec![deferred::<u8>("x"), Interpolatable::Actual(2u8), Interpolatable::Actual(3u8)];
    let merged = v.flatten_interpolation();
    assert!(matches!(merged, Interpolatable::Inter(_)));
    assert!(merged.fit().is_err());
}

#[test]
fn one_deferred_element_promotes_middle_position() {
    let v = vec![Interpolatable::Actual(1u8), deferred::<u8>("x"), Interpolatable::Actual(3u8)];
    let merged = v.flatten_interpolation();
    assert!(matches!(merged, Interpolatable::Inter(_)));
    assert!(merged.fit().is_err());
}

#[test]
fn one_deferred_element_promotes_last_position() {
    let v = vec![Interpolatable::Actual(1u8), Interpolatable::Actual(2u8), deferred::<u8>("x")];
    let merged = v.flatten_interpolation();
    assert!(matches!(merged, Interpolatable::Inter(_)));
    assert!(merged.fit().is_err());
}

#[test]
fn fit_error_carries_the_fragment() {
    let v: Interpolatable<u8> = deferred("later");
    let err = v.fit().unwrap_err();
    assert!(err.fragment().tok_eq(&Tok::Verbatim("later".to_owned())));
}

#[test]
fn tuple_merge_keeps_known_values() {
    let t = (Interpolatable::Actual(1u8), Interpolatable::Actual(true), Interpolatable::Actual(2u8));
    match t.flatten_interpolation() {
        Interpolatable::Actual((a, b, c)) => {
            assert_eq!(a, 1);
            assert!(b);
            assert_eq!(c, 2);
        },
        Interpolatable::Inter(_) => panic!("all-known tuple must stay known"),
    }
}

#[test]
fn tuple_merge_is_all_or_nothing() {
    // One deferred component re-bakes every component, the known ones
    // included, into the promoted fragment.
    let t = (Interpolatable::Actual(1u8), deferred::<bool>("flag"), Interpolatable::Actual(2u8));
    let frag = match t.flatten_interpolation() {
        Interpolatable::Inter(frag) => frag,
        Interpolatable::Actual(_) => panic!("deferred component must promote"),
    };
    let piece = |toks: Vec<Tok>| -> Vec<Tok> {
        let mut out = toks;
        out.push(Tok::Mark('.'));
        out.push(Tok::Word("into".to_owned()));
        out.push(Tok::Group(Delim::Paren, vec![]));
        out.push(Tok::Mark(','));
        out
    };
    let mut inner = Vec::new();
    inner.extend(piece(vec![Tok::LitInt { neg: false, mag: 1 }]));
    inner.extend(piece(vec![Tok::Verbatim("flag".to_owned())]));
    inner.extend(piece(vec![Tok::LitInt { neg: false, mag: 2 }]));
    let expected = Tok::Group(Delim::Brace, vec![Tok::Group(Delim::Paren, inner)]);
    assert!(frag.tok_eq(&expected));
}

#[test]
fn deferred_values_are_never_equal() {
    let a: Interpolatable<u8> = deferred("same");
    let b: Interpolatable<u8> = deferred("same");
    assert!(a != b);
    let c: Interpolatable<u8> = deferred("same");
    #[allow(clippy::eq_op)]
    {
        assert!(c != c);
    }
}

#[test]
fn known_values_compare_by_contents() {
    assert!(Interpolatable::Actual(1u8) == Interpolatable::Actual(1u8));
    assert!(Interpolatable::Actual(1u8) != Interpolatable::Actual(2u8));
    assert!(Interpolatable::Actual(1u8) != deferred::<u8>("1"));
}

#[test]
fn extraction_of_known_values() {
    let v = Interpolatable::Actual(7u8);
    assert_eq!(v.fit().unwrap(), 7);
    let v = Interpolatable::Actual(7u8);
    assert_eq!(v.force_fit(), 7);
    let v = Interpolatable::Actual(7u8);
    assert_eq!(v.actual(), Some(7));
    let v = Interpolatable::Actual(7u8);
    assert!(v.tree().is_none());
    let v: Interpolatable<u8> = deferred("x");
    assert!(v.actual().is_none());
}

#[test]
fn known_and_deferred_values_bake() {
    let v = Interpolatable::Actual(5u8);
    let t = v.bake();
    assert!(t.tree_eq(&Tree { toks: vec![Tok::LitInt { neg: false, mag: 5 }] }));
    let v: Interpolatable<u8> = deferred("later");
    let t = v.bake();
    assert!(t.tree_eq(&Tree { toks: vec![Tok::Verbatim("later".to_owned())] }));
}

#[test]
fn new_inter_adds_grouped_conversion() {
    let mut stream = Tree { toks: vec![Tok::LitInt { neg: false, mag: 1 }] };
    stream.toks.push(Tok::Mark('+'));
    stream.toks.push(Tok::LitInt { neg: false, mag: 2 });
    let v: Interpolatable<u8> = Interpolatable::new_inter(stream);
    let frag = match v {
        Interpolatable::Inter(frag) => frag,
        Interpolatable::Actual(_) => panic!("a raw stream enters as deferred"),
    };
    let expected = Tok::Group(
        Delim::Brace,
        vec![
            Tok::Group(
                Delim::Brace,
                vec![
                    Tok::LitInt { neg: false, mag: 1 },
                    Tok::Mark('+'),
                    Tok::LitInt { neg: false, mag: 2 },
                ],
            ),
            Tok::Mark('.'),
            Tok::Word("into".to_owned()),
            Tok::Group(Delim::Paren, vec![]),
        ],
    );
    assert!(frag.tok_eq(&expected));
}

fn double(x: u8) -> u8 {
    x.wrapping_mul(2)
}

fn double_path() -> Tree {
    Tree { toks: vec![Tok::Word("double".to_owned())] }
}

#[test]
fn map_applies_eagerly_to_known_values() {
    let f = BakeableFnOnce::_new(double, double_path());
    let v = Interpolatable::Actual(3u8);
    match v.map(f) {
        Interpolatable::Actual(out) => assert_eq!(out, 6),
        Interpolatable::Inter(_) => panic!("mapping a known value stays known"),
    }
}

#[test]
fn map_emits_a_call_for_deferred_values() {
    let f = BakeableFnOnce::_new(double, double_path());
    let v: Interpolatable<u8> = deferred("later");
    let frag = match v.map(f) {
        Interpolatable::Inter(frag) => frag,
        Interpolatable::Actual(_) => panic!("mapping a deferred value stays deferred"),
    };
    let expected = Tok::Group(
        Delim::Brace,
        vec![
            Tok::Word("double".to_owned()),
            Tok::Group(
                Delim::Paren,
                vec![
                    Tok::Verbatim("later".to_owned()),
                    Tok::Mark('.'),
                    Tok::Word("into".to_owned()),
                    Tok::Group(Delim::Paren, vec![]),
                ],
            ),
        ],
    );
    assert!(frag.tok_eq(&expected));
}

#[test]
fn function_values_bake_as_their_path() {
    let f = BakeableFnOnce::_new(double, double_path());
    assert!(f.bake().tree_eq(&double_path()));
    let f = BakeableFnOnce::_new(double, double_path());
    assert_eq!(f.call(4), 8);
}

#[test]
fn polymorphic_extraction_lifts_and_passes_through() {
    // A plain value fits into itself and lifts into the algebra as known.
    let x: u8 = 9;
    let same: u8 = Interpolate::<u8>::fit(x).unwrap();
    assert_eq!(same, 9);
    let lifted: Interpolatable<u8> = Interpolate::<Interpolatable<u8>>::force_fit(9u8);
    assert!(lifted == Interpolatable::Actual(9u8));
    let entered = 4u8.interpolate();
    assert!(entered == Interpolatable::Actual(4u8));
    // A wrapped value passes through unchanged.
    let wrapped: Interpolatable<u8> = Interpolate::<Interpolatable<u8>>::fit(
        Interpolatable::Actual(4u8),
    )
    .unwrap();
    assert!(wrapped == Interpolatable::Actual(4u8));
}

#[test]
fn conversions_enter_the_algebra() {
    let known: Interpolatable<u8> = 3u8.into();
    assert!(known == Interpolatable::Actual(3u8));
    let frag: Interpolatable<u8> = Tok::Verbatim("later".to_owned()).into();
    assert!(matches!(frag, Interpolatable::Inter(_)));
}

#[test]
fn fragment_wrapping_adds_the_conversion_call() {
    let t = parse_interpolation(&Tok::Verbatim("later".to_owned()));
    let expected = Tree {
        toks: vec![
            Tok::Verbatim("later".to_owned()),
            Tok::Mark('.'),
            Tok::Word("into".to_owned()),
            Tok::Group(Delim::Paren, vec![]),
        ],
    };
    assert!(t.tree_eq(&expected));
}
