//! The derivation engine: annotation resolution, binding names, the
//! substitution skip, and the shapes of the emitted code.

use struct_baker::derivation::{
    bake_entry, bake_fn_once, ct_parser, destructure, determine_constructr_arguments,
    determine_idents, field_conversion, find_arg, generate_impl, should_interpolate, to_tokens,
    DataDesc, DeriveError, FieldDesc, FieldsDesc, InterpArg, NewArg, TypeDesc, VariantDesc,
};
use struct_baker::tokens::{Delim, Tok, Tree};

fn ty(name: &str) -> Tree {
    Tree { toks: vec![Tok::Word(name.to_owned())] }
}

fn named_field(name: &str, tyname: &str) -> FieldDesc {
    FieldDesc {
        name: Some(name.to_owned()),
        ty: ty(tyname),
        public: true,
        interpolate: None,
        substitute_via: None,
    }
}

fn positional_field(tyname: &str) -> FieldDesc {
    FieldDesc {
        name: None,
        ty: ty(tyname),
        public: true,
        interpolate: None,
        substitute_via: None,
    }
}

fn plain_struct(name: &str, fields: FieldsDesc) -> TypeDesc {
    TypeDesc {
        public: true,
        name: name.to_owned(),
        generics: Vec::new(),
        alias: None,
        interpolate_all: false,
        emit_to_tokens: false,
        data: DataDesc::Struct(fields),
    }
}

#[test]
fn annotation_resolution_is_three_tier() {
    // A field override wins, else the inherited default decides.
    assert_eq!(should_interpolate(&Some(InterpArg::Bare), false), Ok(true));
    assert_eq!(should_interpolate(&Some(InterpArg::Explicit(false)), true), Ok(false));
    assert_eq!(should_interpolate(&Some(InterpArg::Explicit(true)), false), Ok(true));
    assert_eq!(should_interpolate(&None, true), Ok(true));
    assert_eq!(should_interpolate(&None, false), Ok(false));
}

#[test]
fn non_boolean_annotation_is_fatal() {
    assert_eq!(
        should_interpolate(&Some(InterpArg::Malformed), false),
        Err(DeriveError::NonBooleanInterpolate)
    );
}

#[test]
fn positional_fields_get_indexed_names() {
    let fields = FieldsDesc::Unnamed(vec![positional_field("u8"), positional_field("u32")]);
    let idents = determine_idents(&fields);
    assert_eq!(idents, vec!["x_0".to_owned(), "x_1".to_owned()]);
}

#[test]
fn named_fields_keep_their_names() {
    let fields = FieldsDesc::Named(vec![named_field("zahl", "u32"), named_field("wahrheit", "bool")]);
    let idents = determine_idents(&fields);
    assert_eq!(idents, vec!["zahl".to_owned(), "wahrheit".to_owned()]);
}

#[test]
fn destructure_shapes() {
    let named = FieldsDesc::Named(vec![named_field("a", "u8"), named_field("b", "u8")]);
    let expected = Tree {
        toks: vec![Tok::Group(
            Delim::Brace,
            vec![Tok::Word("a".to_owned()), Tok::Mark(','), Tok::Word("b".to_owned())],
        )],
    };
    assert!(destructure(&named).tree_eq(&expected));

    let unit = FieldsDesc::Unit;
    assert!(destructure(&unit).tree_eq(&Tree { toks: vec![] }));
}

#[test]
fn substitution_skip_bakes_plainly() {
    // A substitution target equal to the declared type is skipped: the
    // emitted conversion equals the plain one, with no conversion call.
    let mut with_sub = named_field("f", "Target");
    with_sub.substitute_via = Some(ty("Target"));
    let without = named_field("f", "Target");
    let a = field_conversion(&with_sub, 0);
    let b = field_conversion(&without, 0);
    assert!(a.tree_eq(&b));
}

#[test]
fn different_substitution_target_converts_first() {
    let mut with_sub = named_field("f", "Source");
    with_sub.substitute_via = Some(ty("Target"));
    let plain = named_field("f", "Source");
    let a = field_conversion(&with_sub, 0);
    let b = field_conversion(&plain, 0);
    assert!(!a.tree_eq(&b));
    // The converting form names the conversion trait.
    assert!(a.toks.iter().any(|t| t.tok_eq(&Tok::Word("Into".to_owned()))));
    assert!(!b.toks.iter().any(|t| t.tok_eq(&Tok::Word("Into".to_owned()))));
}

#[test]
fn restricted_visibility_is_fatal() {
    let mut d = plain_struct("Hidden", FieldsDesc::Unit);
    d.public = false;
    assert!(matches!(generate_impl(&d), Err(DeriveError::RestrictedVisibility)));
}

#[test]
fn union_shapes_are_unsupported() {
    let mut d = plain_struct("U", FieldsDesc::Unit);
    d.data = DataDesc::Union;
    assert!(matches!(generate_impl(&d), Err(DeriveError::UnsupportedUnion)));
    assert!(matches!(bake_entry(&d), Err(DeriveError::UnsupportedUnion)));
}

#[test]
fn generated_impl_has_the_protocol_head() {
    let d = plain_struct("P", FieldsDesc::Named(vec![named_field("a", "u8")]));
    let t = generate_impl(&d).unwrap();
    assert!(t.toks[0].tok_eq(&Tok::Word("impl".to_owned())));
    assert!(t.toks[1].tok_eq(&Tok::Word("bake".to_owned())));
    assert!(t.toks[4].tok_eq(&Tok::Word("Bake".to_owned())));
    assert!(t.toks[5].tok_eq(&Tok::Word("for".to_owned())));
    assert!(t.toks[6].tok_eq(&Tok::Word("P".to_owned())));
}

#[test]
fn enum_impl_dispatches_over_variants() {
    let d = TypeDesc {
        public: true,
        name: "E".to_owned(),
        generics: Vec::new(),
        alias: None,
        interpolate_all: false,
        emit_to_tokens: false,
        data: DataDesc::Enum(vec![
            VariantDesc {
                name: "A".to_owned(),
                interpolate: None,
                fields: FieldsDesc::Unit,
            },
            VariantDesc {
                name: "B".to_owned(),
                interpolate: None,
                fields: FieldsDesc::Unnamed(vec![positional_field("u8")]),
            },
        ]),
    };
    let t = generate_impl(&d).unwrap();
    fn mentions(toks: &[Tok], w: &str) -> bool {
        toks.iter().any(|t| match t {
            Tok::Word(s) => s == w,
            Tok::Group(_, inner) => mentions(inner, w),
            _ => false,
        })
    }
    assert!(mentions(&t.toks, "match"));
    assert!(mentions(&t.toks, "A"));
    assert!(mentions(&t.toks, "B"));
}

#[test]
fn rewriting_wraps_deferred_fields() {
    let mut d = plain_struct("W", FieldsDesc::Named(vec![named_field("a", "u8")]));
    d.interpolate_all = true;
    let t = bake_entry(&d).unwrap();
    fn mentions(toks: &[Tok], w: &str) -> bool {
        toks.iter().any(|t| match t {
            Tok::Word(s) => s == w,
            Tok::Group(_, inner) => mentions(inner, w),
            _ => false,
        })
    }
    assert!(mentions(&t.toks, "Interpolatable"));
}

#[test]
fn rewriting_leaves_plain_fields_alone() {
    let d = plain_struct("W", FieldsDesc::Named(vec![named_field("a", "u8")]));
    let t = bake_entry(&d).unwrap();
    fn mentions(toks: &[Tok], w: &str) -> bool {
        toks.iter().any(|t| match t {
            Tok::Word(s) => s == w,
            Tok::Group(_, inner) => mentions(inner, w),
            _ => false,
        })
    }
    assert!(!mentions(&t.toks, "Interpolatable"));
}

#[test]
fn malformed_variant_annotation_is_fatal() {
    let d = TypeDesc {
        public: true,
        name: "E".to_owned(),
        generics: Vec::new(),
        alias: None,
        interpolate_all: false,
        emit_to_tokens: true,
        data: DataDesc::Enum(vec![VariantDesc {
            name: "A".to_owned(),
            interpolate: Some(InterpArg::Malformed),
            fields: FieldsDesc::Unit,
        }]),
    };
    assert!(matches!(bake_entry(&d), Err(DeriveError::NonBooleanInterpolate)));
}

#[test]
fn render_adapter_is_emitted_on_request() {
    let mut d = plain_struct("W", FieldsDesc::Unit);
    d.emit_to_tokens = true;
    let with_adapter = bake_entry(&d).unwrap();
    let adapter = to_tokens(&d);
    // The adapter's tokens form the tail of the whole output.
    let n = with_adapter.toks.len();
    let m = adapter.toks.len();
    assert!(n > m);
    for k in 0..m {
        assert!(with_adapter.toks[n - m + k].tok_eq(&adapter.toks[k]));
    }
}

#[test]
fn constructor_derivation_bakes_each_field() {
    let d = plain_struct("C", FieldsDesc::Named(vec![named_field("a", "u8"), named_field("b", "u8")]));
    let t = determine_constructr_arguments(&d, &Vec::new()).unwrap();
    assert!(t.toks[0].tok_eq(&Tok::Word("let".to_owned())));
    assert!(t.toks[1].tok_eq(&Tok::Word("a".to_owned())));
    fn mentions(toks: &[Tok], w: &str) -> bool {
        toks.iter().any(|t| match t {
            Tok::Word(s) => s == w,
            Tok::Group(_, inner) => mentions(inner, w),
            _ => false,
        })
    }
    assert!(mentions(&t.toks, "new"));
}

#[test]
fn constructor_derivation_needs_a_named_struct() {
    let d = plain_struct("C", FieldsDesc::Unnamed(vec![positional_field("u8")]));
    assert!(matches!(
        determine_constructr_arguments(&d, &Vec::new()),
        Err(DeriveError::UnsupportedShape)
    ));
}

#[test]
fn constructor_overrides_replace_fields() {
    let d = plain_struct("C", FieldsDesc::Named(vec![named_field("a", "u8")]));
    let args = vec![
        NewArg { name: "a".to_owned(), init: Some(ty("seven")) },
        NewArg { name: "b".to_owned(), init: None },
    ];
    let t = determine_constructr_arguments(&d, &args).unwrap();
    fn mentions(toks: &[Tok], w: &str) -> bool {
        toks.iter().any(|t| match t {
            Tok::Word(s) => s == w,
            Tok::Group(_, inner) => mentions(inner, w),
            _ => false,
        })
    }
    assert!(mentions(&t.toks, "seven"));
    assert!(mentions(&t.toks, "b"));
}

#[test]
fn find_arg_returns_first_match() {
    let args = vec![
        NewArg { name: "a".to_owned(), init: None },
        NewArg { name: "b".to_owned(), init: None },
    ];
    assert_eq!(find_arg(&args, &"b".to_owned()), Some(1));
    assert_eq!(find_arg(&args, &"c".to_owned()), None);
}

#[test]
fn parser_entry_wraps_the_definition() {
    let def = ty("marker");
    let t = ct_parser(&"demo".to_owned(), &"Demo".to_owned(), def);
    assert!(t.toks[0].tok_eq(&Tok::Mark('#')));
    let last = t.toks.last().unwrap();
    assert!(last.tok_eq(&Tok::Word("marker".to_owned())));
}

#[test]
fn function_value_construction_names_the_path_twice() {
    let t = bake_fn_once(ty("helper"));
    fn count(toks: &[Tok], w: &str) -> usize {
        toks.iter()
            .map(|t| match t {
                Tok::Word(s) => usize::from(s == w),
                Tok::Group(_, inner) => count(inner, w),
                _ => 0,
            })
            .sum()
    }
    assert_eq!(count(&t.toks, "helper"), 2);
}
