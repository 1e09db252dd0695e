//! The derivation engine: from the shape of a struct or enum definition it
//! computes the destructuring pattern, the per-field conversion steps, and
//! the reconstruction expression that together form the type's generated
//! syntax-value implementation. It honors a type-level alias override, a
//! type-level deferred-by-default switch, and per-field overrides for
//! substitution and deferred status.

use vstd::prelude::*;

use crate::bake::{join_comma, lemma_join_comma_push};
use crate::text::{dec_str, push_decimal};
use crate::tokens::{Delim, TokM, Tree};

verus! {

/// The argument of a per-field or per-variant deferred annotation: a bare
/// flag, an explicit boolean, or anything else, which is a misconfiguration.
#[derive(Debug, PartialEq, Eq, Structural)]
pub enum InterpArg {
    Bare,
    Explicit(bool),
    Malformed,
}

/// One field of a struct or of an enum variant, as the definition site
/// declares it.
#[derive(Debug)]
pub struct FieldDesc {
    /// The field's name; positional fields have none.
    pub name: Option<String>,
    /// The declared type, as tokens.
    pub ty: Tree,
    /// Whether the field is public.
    pub public: bool,
    /// The per-field deferred annotation, if present.
    pub interpolate: Option<InterpArg>,
    /// The substitution target the field is converted to before baking, if
    /// any.
    pub substitute_via: Option<Tree>,
}

/// The field layout of a struct or of one enum variant.
#[derive(Debug)]
pub enum FieldsDesc {
    Named(Vec<FieldDesc>),
    Unnamed(Vec<FieldDesc>),
    Unit,
}

/// One variant of an enum definition.
#[derive(Debug)]
pub struct VariantDesc {
    pub name: String,
    /// The variant-level deferred annotation, if present.
    pub interpolate: Option<InterpArg>,
    pub fields: FieldsDesc,
}

/// The data part of a type definition.
#[derive(Debug)]
pub enum DataDesc {
    Struct(FieldsDesc),
    Enum(Vec<VariantDesc>),
    Union,
}

/// A whole type definition, as the derivation engine sees it.
#[derive(Debug)]
pub struct TypeDesc {
    /// Whether the type is public; a restricted type cannot be derived, as
    /// the generated companion code must name it from other modules.
    pub public: bool,
    pub name: String,
    /// The names of the generic parameters, in order.
    pub generics: Vec<String>,
    /// The alternate reconstruction path, if the type carries one.
    pub alias: Option<Tree>,
    /// The type-level deferred-by-default switch.
    pub interpolate_all: bool,
    /// Whether to also emit the direct render-into-stream adapter.
    pub emit_to_tokens: bool,
    pub data: DataDesc,
}

/// A fatal configuration error: the definition cannot be derived, and the
/// generation pass must stop rather than emit wrong code.
#[derive(Debug, PartialEq, Eq, Structural)]
pub enum DeriveError {
    /// The type has restricted visibility.
    RestrictedVisibility,
    /// Union-shaped types are unsupported.
    UnsupportedUnion,
    /// A deferred annotation carried a non-boolean argument.
    NonBooleanInterpolate,
    /// The shape cannot be handled by the requested derivation.
    UnsupportedShape,
}

/// The binding name of the field at position `i`: its own name, or a
/// positional name derived from its index.
pub open spec fn field_ident_m(f: FieldDesc, i: int) -> Seq<char> {
    match f.name {
        Some(n) => n@,
        None => "x_"@ + dec_str(i as nat),
    }
}

/// The deferred-status of one annotation under a given default: a bare
/// annotation turns the field on, an explicit boolean decides, any other
/// argument is a misconfiguration, and an absent annotation inherits the
/// default.
pub open spec fn should_interpolate_m(ann: Option<InterpArg>, default: bool) -> Result<
    bool,
    DeriveError,
> {
    match ann {
        Some(InterpArg::Bare) => Ok(true),
        Some(InterpArg::Explicit(b)) => Ok(b),
        Some(InterpArg::Malformed) => Err(DeriveError::NonBooleanInterpolate),
        None => Ok(default),
    }
}

/// Resolves one deferred annotation against the inherited default.
pub fn should_interpolate(ann: &Option<InterpArg>, default: bool) -> (r: Result<bool, DeriveError>)
    ensures
        r == should_interpolate_m(*ann, default),
{
    match ann {
        Some(InterpArg::Bare) => Ok(true),
        Some(InterpArg::Explicit(b)) => Ok(*b),
        Some(InterpArg::Malformed) => Err(DeriveError::NonBooleanInterpolate),
        None => Ok(default),
    }
}

/// Computes the binding name of the field at position `i`.
pub fn field_ident(f: &FieldDesc, i: usize) -> (r: String)
    ensures
        r@ == field_ident_m(*f, i as int),
{
    match &f.name {
        Some(n) => n.clone(),
        None => {
            let mut s = String::from_str("x_");
            push_decimal(&mut s, i);
            s
        },
    }
}

/// The binding names of all fields, in order.
pub open spec fn field_idents_m(fs: Seq<FieldDesc>) -> Seq<Seq<char>> {
    Seq::new(fs.len(), |i: int| field_ident_m(fs[i], i))
}

/// Determines the binding names for every field of the layout.
pub fn determine_idents(fields: &FieldsDesc) -> (r: Vec<String>)
    ensures
        match fields {
            FieldsDesc::Named(fs) => r.deep_view() == field_idents_m(fs@),
            FieldsDesc::Unnamed(fs) => r.deep_view() == field_idents_m(fs@),
            FieldsDesc::Unit => r.deep_view() == Seq::<Seq<char>>::empty(),
        },
{
    let mut r: Vec<String> = Vec::new();
    match fields {
        FieldsDesc::Named(fs) | FieldsDesc::Unnamed(fs) => {
            let mut i: usize = 0;
            while i < fs.len()
                invariant
                    i <= fs.len(),
                    r@.len() == i,
                    forall|j: int| 0 <= j < i ==> (#[trigger] r@[j])@ == field_ident_m(fs@[j], j),
                decreases fs.len() - i,
            {
                r.push(field_ident(&fs[i], i));
                i = i + 1;
            }
            proof {
                assert(r.deep_view() =~= field_idents_m(fs@));
            }
        },
        FieldsDesc::Unit => {
            proof {
                assert(r.deep_view() =~= Seq::<Seq<char>>::empty());
            }
        },
    }
    r
}

/// The identifiers as single-token parts, ready for comma-joining.
pub open spec fn ident_parts_m(fs: Seq<FieldDesc>) -> Seq<Seq<TokM>> {
    Seq::new(fs.len(), |i: int| seq![TokM::Word(field_ident_m(fs[i], i))])
}

/// The destructuring pattern for the layout, without the type's name:
/// named fields in braces, positional fields in parentheses, nothing for a
/// unit layout.
pub open spec fn destructure_m(fields: FieldsDesc) -> Seq<TokM> {
    match fields {
        FieldsDesc::Named(fs) => seq![TokM::Group(Delim::Brace, join_comma(ident_parts_m(fs@)))],
        FieldsDesc::Unnamed(fs) => seq![TokM::Group(Delim::Paren, join_comma(ident_parts_m(fs@)))],
        FieldsDesc::Unit => Seq::empty(),
    }
}

fn push_ident_list(t: &mut Tree, fs: &Vec<FieldDesc>)
    ensures
        final(t)@ == old(t)@ + join_comma(ident_parts_m(fs@)),
{
    let mut inner = Tree::new();
    let mut i: usize = 0;
    while i < fs.len()
        invariant
            i <= fs.len(),
            inner@ == join_comma(ident_parts_m(fs@.take(i as int))),
        decreases fs.len() - i,
    {
        proof {
            lemma_join_comma_push(
                ident_parts_m(fs@.take(i as int)),
                seq![TokM::Word(field_ident_m(fs@[i as int], i as int))],
            );
            assert(fs@.take(i as int + 1)[i as int] == fs@[i as int]);
            assert(ident_parts_m(fs@.take(i as int)).push(
                seq![TokM::Word(field_ident_m(fs@[i as int], i as int))],
            ) =~= ident_parts_m(fs@.take(i as int + 1)));
        }
        if i > 0 {
            inner.push_mark(',');
        }
        let id = field_ident(&fs[i], i);
        inner.push_word(id.as_str());
        proof {
            if i == 0 {
                assert(ident_parts_m(fs@.take(0)).len() == 0);
                assert(inner@ =~= join_comma(ident_parts_m(fs@.take(1))));
            }
        }
        i = i + 1;
    }
    proof {
        assert(fs@.take(fs@.len() as int) =~= fs@);
    }
    t.append(inner);
}

/// Emits the destructuring pattern for the layout.
pub fn destructure(fields: &FieldsDesc) -> (r: Tree)
    ensures
        r@ == destructure_m(*fields),
{
    let mut t = Tree::new();
    match fields {
        FieldsDesc::Named(fs) => {
            let mut inner = Tree::new();
            push_ident_list(&mut inner, fs);
            t.push_group(Delim::Brace, inner);
        },
        FieldsDesc::Unnamed(fs) => {
            let mut inner = Tree::new();
            push_ident_list(&mut inner, fs);
            t.push_group(Delim::Paren, inner);
        },
        FieldsDesc::Unit => {
            proof {
                assert(t@ =~= destructure_m(*fields));
            }
        },
    }
    t
}

/// The fields of a layout, as a sequence; a unit layout has none.
pub open spec fn fields_seq_m(fields: FieldsDesc) -> Seq<FieldDesc> {
    match fields {
        FieldsDesc::Named(fs) => fs@,
        FieldsDesc::Unnamed(fs) => fs@,
        FieldsDesc::Unit => Seq::empty(),
    }
}

/// The plain protocol conversion of one binding: `let id = id.bake();`.
pub open spec fn plain_conversion_m(id: Seq<char>) -> Seq<TokM> {
    seq![
        TokM::Word("let"@),
        TokM::Word(id),
        TokM::Mark('='),
        TokM::Word(id),
        TokM::Mark('.'),
        TokM::Word("bake"@),
        TokM::Group(Delim::Paren, Seq::empty()),
        TokM::Mark(';'),
    ]
}

/// The substituting conversion of one binding:
/// `let id = Into::<target>::into(id).bake();`.
pub open spec fn substituted_conversion_m(id: Seq<char>, target: Seq<TokM>) -> Seq<TokM> {
    seq![
        TokM::Word("let"@),
        TokM::Word(id),
        TokM::Mark('='),
        TokM::Word("Into"@),
        TokM::Mark(':'),
        TokM::Mark(':'),
        TokM::Mark('<'),
    ] + target + seq![
        TokM::Mark('>'),
        TokM::Mark(':'),
        TokM::Mark(':'),
        TokM::Word("into"@),
        TokM::Group(Delim::Paren, seq![TokM::Word(id)]),
        TokM::Mark('.'),
        TokM::Word("bake"@),
        TokM::Group(Delim::Paren, Seq::empty()),
        TokM::Mark(';'),
    ]
}

/// The conversion step for the field at position `i`: a substitution target
/// equal to the declared type is skipped, so the field bakes through the
/// plain protocol conversion; a different target converts first; no target
/// bakes plainly.
pub open spec fn field_conversion_m(f: FieldDesc, i: int) -> Seq<TokM> {
    let id = field_ident_m(f, i);
    match f.substitute_via {
        Some(p) => if p@ == f.ty@ {
            plain_conversion_m(id)
        } else {
            substituted_conversion_m(id, p@)
        },
        None => plain_conversion_m(id),
    }
}

/// A substitution target equal to the declared type produces exactly the
/// plain conversion: the value is not wrapped in a redundant conversion
/// call.
pub proof fn lemma_substitution_skip(f: FieldDesc, i: int)
    requires
        f.substitute_via matches Some(p) && p@ == f.ty@,
    ensures
        field_conversion_m(f, i) == plain_conversion_m(field_ident_m(f, i)),
{
}

/// The conversion steps for all fields, in order.
pub open spec fn convert_m(fs: Seq<FieldDesc>) -> Seq<TokM>
    decreases fs.len(),
{
    if fs.len() == 0 {
        Seq::empty()
    } else {
        convert_m(fs.drop_last()) + field_conversion_m(fs.last(), fs.len() - 1)
    }
}

pub proof fn lemma_convert_push(fs: Seq<FieldDesc>, f: FieldDesc)
    ensures
        convert_m(fs.push(f)) == convert_m(fs) + field_conversion_m(f, fs.len() as int),
{
    assert(fs.push(f).drop_last() =~= fs);
    assert(fs.push(f).last() == f);
}

/// Emits the conversion step for the field at position `i`.
pub fn field_conversion(f: &FieldDesc, i: usize) -> (r: Tree)
    ensures
        r@ == field_conversion_m(*f, i as int),
{
    let id = field_ident(f, i);
    let mut t = Tree::new();
    let substitute = match &f.substitute_via {
        Some(p) => !p.tree_eq(&f.ty),
        None => false,
    };
    t.push_word("let");
    t.push_word(id.as_str());
    t.push_mark('=');
    if substitute {
        match &f.substitute_via {
            Some(p) => {
                t.push_word("Into");
                t.push_mark(':');
                t.push_mark(':');
                t.push_mark('<');
                t.append(p.deep_clone());
                t.push_mark('>');
                t.push_mark(':');
                t.push_mark(':');
                t.push_word("into");
                let mut arg = Tree::new();
                arg.push_word(id.as_str());
                t.push_group(Delim::Paren, arg);
            },
            None => {
                proof {
                    assert(false);
                }
            },
        }
    } else {
        t.push_word(id.as_str());
    }
    t.push_mark('.');
    t.push_word("bake");
    t.push_group(Delim::Paren, Tree::new());
    t.push_mark(';');
    proof {
        if substitute {
            assert(t@ =~= substituted_conversion_m(
                field_ident_m(*f, i as int),
                f.substitute_via->0@,
            ));
        } else {
            assert(t@ =~= plain_conversion_m(field_ident_m(*f, i as int)));
        }
    }
    t
}

/// Emits the conversion steps for every field of the layout, in order.
pub fn convert(fields: &FieldsDesc) -> (r: Tree)
    ensures
        r@ == convert_m(fields_seq_m(*fields)),
{
    let mut t = Tree::new();
    match fields {
        FieldsDesc::Named(fs) | FieldsDesc::Unnamed(fs) => {
            let mut i: usize = 0;
            while i < fs.len()
                invariant
                    i <= fs.len(),
                    t@ == convert_m(fs@.take(i as int)),
                decreases fs.len() - i,
            {
                proof {
                    lemma_convert_push(fs@.take(i as int), fs@[i as int]);
                    assert(fs@.take(i as int).push(fs@[i as int]) =~= fs@.take(i as int + 1));
                }
                t.append(field_conversion(&fs[i], i));
                i = i + 1;
            }
            proof {
                assert(fs@.take(fs@.len() as int) =~= fs@);
            }
        },
        FieldsDesc::Unit => {
            proof {
                assert(t@ =~= convert_m(fields_seq_m(*fields)));
            }
        },
    }
    t
}

/// One named field in the reconstruction expression: `id: #id`.
pub open spec fn named_restructure_part_m(id: Seq<char>) -> Seq<TokM> {
    seq![TokM::Word(id), TokM::Mark(':'), TokM::Mark('#'), TokM::Word(id)]
}

/// One positional field in the reconstruction expression: `#id`.
pub open spec fn unnamed_restructure_part_m(id: Seq<char>) -> Seq<TokM> {
    seq![TokM::Mark('#'), TokM::Word(id)]
}

/// The reconstruction field layout: named fields as `id: #id` in braces,
/// positional fields as `#id` in parentheses, nothing for a unit layout.
pub open spec fn restructure_m(fields: FieldsDesc) -> Seq<TokM> {
    match fields {
        FieldsDesc::Named(fs) => seq![
            TokM::Group(
                Delim::Brace,
                join_comma(
                    Seq::new(fs@.len(), |i: int| named_restructure_part_m(field_ident_m(fs@[i], i))),
                ),
            ),
        ],
        FieldsDesc::Unnamed(fs) => seq![
            TokM::Group(
                Delim::Paren,
                join_comma(
                    Seq::new(
                        fs@.len(),
                        |i: int| unnamed_restructure_part_m(field_ident_m(fs@[i], i)),
                    ),
                ),
            ),
        ],
        FieldsDesc::Unit => Seq::empty(),
    }
}

/// Emits the reconstruction field layout.
#[verifier::loop_isolation(false)]
pub fn restructure(fields: &FieldsDesc) -> (r: Tree)
    ensures
        r@ == restructure_m(*fields),
{
    let mut t = Tree::new();
    match fields {
        FieldsDesc::Named(fs) => {
            let ghost parts = Seq::new(
                fs@.len(),
                |i: int| named_restructure_part_m(field_ident_m(fs@[i], i)),
            );
            let mut inner = Tree::new();
            let mut i: usize = 0;
            while i < fs.len()
                invariant
                    i <= fs.len(),
                    inner@ == join_comma(parts.take(i as int)),
                decreases fs.len() - i,
            {
                proof {
                    lemma_join_comma_push(parts.take(i as int), parts[i as int]);
                    assert(parts.take(i as int).push(parts[i as int]) =~= parts.take(i as int + 1));
                }
                if i > 0 {
                    inner.push_mark(',');
                }
                let id = field_ident(&fs[i], i);
                inner.push_word(id.as_str());
                inner.push_mark(':');
                inner.push_mark('#');
                inner.push_word(id.as_str());
                proof {
                    if i == 0 {
                        assert(parts.take(0).len() == 0);
                        assert(inner@ =~= join_comma(parts.take(1)));
                    }
                }
                i = i + 1;
            }
            proof {
                assert(parts.take(fs@.len() as int) =~= parts);
            }
            t.push_group(Delim::Brace, inner);
        },
        FieldsDesc::Unnamed(fs) => {
            let ghost parts = Seq::new(
                fs@.len(),
                |i: int| unnamed_restructure_part_m(field_ident_m(fs@[i], i)),
            );
            let mut inner = Tree::new();
            let mut i: usize = 0;
            while i < fs.len()
                invariant
                    i <= fs.len(),
                    inner@ == join_comma(parts.take(i as int)),
                decreases fs.len() - i,
            {
                proof {
                    lemma_join_comma_push(parts.take(i as int), parts[i as int]);
                    assert(parts.take(i as int).push(parts[i as int]) =~= parts.take(i as int + 1));
                }
                if i > 0 {
                    inner.push_mark(',');
                }
                let id = field_ident(&fs[i], i);
                inner.push_mark('#');
                inner.push_word(id.as_str());
                proof {
                    if i == 0 {
                        assert(parts.take(0).len() == 0);
                        assert(inner@ =~= join_comma(parts.take(1)));
                    }
                }
                i = i + 1;
            }
            proof {
                assert(parts.take(fs@.len() as int) =~= parts);
            }
            t.push_group(Delim::Paren, inner);
        },
        FieldsDesc::Unit => {
            proof {
                assert(t@ =~= restructure_m(*fields));
            }
        },
    }
    t
}

/// The emitted runtime-support path `bake :: util :: <last>`.
pub open spec fn util_path_m(last: Seq<char>) -> Seq<TokM> {
    seq![
        TokM::Word("bake"@),
        TokM::Mark(':'),
        TokM::Mark(':'),
        TokM::Word("util"@),
        TokM::Mark(':'),
        TokM::Mark(':'),
        TokM::Word(last),
    ]
}

fn push_util_path(t: &mut Tree, last: &str)
    ensures
        final(t)@ == old(t)@ + util_path_m(last@),
{
    t.push_word("bake");
    t.push_mark(':');
    t.push_mark(':');
    t.push_word("util");
    t.push_mark(':');
    t.push_mark(':');
    t.push_word(last);
    proof {
        assert(t@ =~= old(t)@ + util_path_m(last@));
    }
}

/// The generic-parameter list as emitted, empty when there are none.
pub open spec fn generics_m(gs: Seq<Seq<char>>) -> Seq<TokM> {
    if gs.len() == 0 {
        Seq::empty()
    } else {
        seq![TokM::Mark('<')] + join_comma(Seq::new(gs.len(), |i: int| seq![TokM::Word(gs[i])]))
            + seq![TokM::Mark('>')]
    }
}

#[verifier::loop_isolation(false)]
fn push_generics(t: &mut Tree, gs: &Vec<String>)
    ensures
        final(t)@ == old(t)@ + generics_m(gs.deep_view()),
{
    if gs.len() == 0 {
        proof {
            assert(old(t)@ + generics_m(gs.deep_view()) =~= t@);
        }
        return ;
    }
    let ghost parts = Seq::new(gs@.len(), |i: int| seq![TokM::Word(gs@[i]@)]);
    proof {
        assert(parts =~= Seq::new(gs.deep_view().len(), |i: int| seq![TokM::Word(gs.deep_view()[i])]));
    }
    let mut inner = Tree::new();
    let mut i: usize = 0;
    while i < gs.len()
        invariant
            i <= gs.len(),
            inner@ == join_comma(parts.take(i as int)),
        decreases gs.len() - i,
    {
        proof {
            lemma_join_comma_push(parts.take(i as int), parts[i as int]);
            assert(parts.take(i as int).push(parts[i as int]) =~= parts.take(i as int + 1));
        }
        if i > 0 {
            inner.push_mark(',');
        }
        inner.push_word(gs[i].as_str());
        proof {
            if i == 0 {
                assert(parts.take(0).len() == 0);
                assert(inner@ =~= join_comma(parts.take(1)));
            }
        }
        i = i + 1;
    }
    proof {
        assert(parts.take(gs@.len() as int) =~= parts);
    }
    t.push_mark('<');
    t.append(inner);
    t.push_mark('>');
    proof {
        assert(t@ =~= old(t)@ + generics_m(gs.deep_view()));
    }
}

/// The destructuring binding emitted at the head of a struct body:
/// `let Name { .. } = object;`.
pub open spec fn object_binding_m(name: Seq<char>, fields: FieldsDesc) -> Seq<TokM> {
    seq![TokM::Word("let"@), TokM::Word(name)] + destructure_m(fields) + seq![
        TokM::Mark('='),
        TokM::Word("object"@),
        TokM::Mark(';'),
    ]
}

/// The binding that resolves the defining module's path at the generated
/// code's expansion site, so reconstruction names the type correctly from
/// any call site.
pub open spec fn path_binding_m() -> Seq<TokM> {
    seq![TokM::Word("let"@), TokM::Word("__path"@), TokM::Mark(':')] + util_path_m("Path"@)
        + seq![TokM::Mark('=')] + util_path_m("parse_str"@) + seq![
        TokM::Group(
            Delim::Paren,
            seq![TokM::Word("module_path"@), TokM::Mark('!'), TokM::Group(Delim::Paren, Seq::empty())],
        ),
        TokM::Mark('.'),
        TokM::Word("unwrap"@),
        TokM::Group(Delim::Paren, Seq::empty()),
        TokM::Mark(';'),
    ]
}

fn push_path_binding(t: &mut Tree)
    ensures
        final(t)@ == old(t)@ + path_binding_m(),
{
    t.push_word("let");
    t.push_word("__path");
    t.push_mark(':');
    push_util_path(t, "Path");
    t.push_mark('=');
    push_util_path(t, "parse_str");
    let mut arg = Tree::new();
    arg.push_word("module_path");
    arg.push_mark('!');
    arg.push_group(Delim::Paren, Tree::new());
    proof {
        assert(arg@ =~= seq![
            TokM::Word("module_path"@),
            TokM::Mark('!'),
            TokM::Group(Delim::Paren, Seq::<TokM>::empty()),
        ]);
    }
    t.push_group(Delim::Paren, arg);
    t.push_mark('.');
    t.push_word("unwrap");
    t.push_group(Delim::Paren, Tree::new());
    t.push_mark(';');
    proof {
        assert(t@ =~= old(t)@ + path_binding_m());
    }
}

/// A `bake::util::quote!( .. )` call around the reconstruction expression.
pub open spec fn quote_util_call_m(inner: Seq<TokM>) -> Seq<TokM> {
    util_path_m("quote"@) + seq![TokM::Mark('!'), TokM::Group(Delim::Paren, inner)]
}

/// A plain `quote!( .. )` call around the reconstruction expression.
pub open spec fn quote_call_m(inner: Seq<TokM>) -> Seq<TokM> {
    seq![TokM::Word("quote"@), TokM::Mark('!'), TokM::Group(Delim::Paren, inner)]
}

/// The whole generated body for a struct: destructure the value, resolve
/// the reconstruction path unless an alias overrides it, convert each
/// binding, and rebuild the reconstruction expression.
pub open spec fn inplace_struct_m(name: Seq<char>, alias: Option<Tree>, fields: FieldsDesc) -> Seq<
    TokM,
> {
    match alias {
        Some(a) => object_binding_m(name, fields) + convert_m(fields_seq_m(fields))
            + quote_util_call_m(a@ + restructure_m(fields)),
        None => object_binding_m(name, fields) + path_binding_m() + convert_m(
            fields_seq_m(fields),
        ) + quote_util_call_m(
            seq![
                TokM::Mark('#'),
                TokM::Word("__path"@),
                TokM::Mark(':'),
                TokM::Mark(':'),
                TokM::Word(name),
            ] + restructure_m(fields),
        ),
    }
}

/// Emits the generated body for a struct.
pub fn inplace_struct(name: &String, alias: &Option<Tree>, fields: &FieldsDesc) -> (r: Tree)
    ensures
        r@ == inplace_struct_m(name@, *alias, *fields),
{
    let mut t = Tree::new();
    t.push_word("let");
    t.push_word(name.as_str());
    t.append(destructure(fields));
    t.push_mark('=');
    t.push_word("object");
    t.push_mark(';');
    proof {
        assert(t@ =~= object_binding_m(name@, *fields));
    }
    match alias {
        Some(a) => {
            t.append(convert(fields));
            let mut inner = a.deep_clone();
            inner.append(restructure(fields));
            push_util_path(&mut t, "quote");
            t.push_mark('!');
            t.push_group(Delim::Paren, inner);
            proof {
                assert(t@ =~= inplace_struct_m(name@, *alias, *fields));
            }
        },
        None => {
            push_path_binding(&mut t);
            t.append(convert(fields));
            let mut inner = Tree::new();
            inner.push_mark('#');
            inner.push_word("__path");
            inner.push_mark(':');
            inner.push_mark(':');
            inner.push_word(name.as_str());
            inner.append(restructure(fields));
            proof {
                assert(inner@ =~= seq![
                    TokM::Mark('#'),
                    TokM::Word("__path"@),
                    TokM::Mark(':'),
                    TokM::Mark(':'),
                    TokM::Word(name@),
                ] + restructure_m(*fields));
            }
            push_util_path(&mut t, "quote");
            t.push_mark('!');
            t.push_group(Delim::Paren, inner);
            proof {
                assert(t@ =~= inplace_struct_m(name@, *alias, *fields));
            }
        },
    }
    t
}

/// One dispatch arm of the generated enum body, for one variant.
pub open spec fn variant_arm_m(ename: Seq<char>, alias: Option<Tree>, v: VariantDesc) -> Seq<
    TokM,
> {
    seq![TokM::Word("Self"@), TokM::Mark(':'), TokM::Mark(':'), TokM::Word(v.name@)]
        + destructure_m(v.fields) + seq![TokM::Mark('='), TokM::Mark('>')] + match alias {
        Some(a) => seq![
            TokM::Group(
                Delim::Brace,
                convert_m(fields_seq_m(v.fields)) + quote_call_m(
                    a@ + seq![TokM::Mark(':'), TokM::Mark(':'), TokM::Word(v.name@)]
                        + restructure_m(v.fields),
                ),
            ),
        ],
        None => seq![
            TokM::Group(
                Delim::Brace,
                convert_m(fields_seq_m(v.fields)) + path_binding_m() + quote_call_m(
                    seq![
                        TokM::Mark('#'),
                        TokM::Word("__path"@),
                        TokM::Mark(':'),
                        TokM::Mark(':'),
                        TokM::Word(ename),
                        TokM::Mark(':'),
                        TokM::Mark(':'),
                        TokM::Word(v.name@),
                    ] + restructure_m(v.fields),
                ),
            ),
        ],
    }
}

fn variant_arm(ename: &String, alias: &Option<Tree>, v: &VariantDesc) -> (r: Tree)
    ensures
        r@ == variant_arm_m(ename@, *alias, *v),
{
    let mut t = Tree::new();
    t.push_word("Self");
    t.push_mark(':');
    t.push_mark(':');
    t.push_word(v.name.as_str());
    t.append(destructure(&v.fields));
    t.push_mark('=');
    t.push_mark('>');
    let mut body = convert(&v.fields);
    match alias {
        Some(a) => {
            let mut inner = a.deep_clone();
            inner.push_mark(':');
            inner.push_mark(':');
            inner.push_word(v.name.as_str());
            inner.append(restructure(&v.fields));
            proof {
                assert(inner@ =~= alias->0@ + seq![
                    TokM::Mark(':'),
                    TokM::Mark(':'),
                    TokM::Word(v.name@),
                ] + restructure_m(v.fields));
            }
            body.push_word("quote");
            body.push_mark('!');
            body.push_group(Delim::Paren, inner);
            proof {
                assert(body@ =~= convert_m(fields_seq_m(v.fields)) + quote_call_m(
                    alias->0@ + seq![TokM::Mark(':'), TokM::Mark(':'), TokM::Word(v.name@)]
                        + restructure_m(v.fields),
                ));
            }
            t.push_group(Delim::Brace, body);
            proof {
                assert(t@ =~= variant_arm_m(ename@, *alias, *v));
            }
        },
        None => {
            push_path_binding(&mut body);
            let mut inner = Tree::new();
            inner.push_mark('#');
            inner.push_word("__path");
            inner.push_mark(':');
            inner.push_mark(':');
            inner.push_word(ename.as_str());
            inner.push_mark(':');
            inner.push_mark(':');
            inner.push_word(v.name.as_str());
            inner.append(restructure(&v.fields));
            body.push_word("quote");
            body.push_mark('!');
            proof {
                assert(inner@ =~= seq![
                    TokM::Mark('#'),
                    TokM::Word("__path"@),
                    TokM::Mark(':'),
                    TokM::Mark(':'),
                    TokM::Word(ename@),
                    TokM::Mark(':'),
                    TokM::Mark(':'),
                    TokM::Word(v.name@),
                ] + restructure_m(v.fields));
            }
            body.push_group(Delim::Paren, inner);
            proof {
                assert(body@ =~= convert_m(fields_seq_m(v.fields)) + path_binding_m()
                    + quote_call_m(
                    seq![
                        TokM::Mark('#'),
                        TokM::Word("__path"@),
                        TokM::Mark(':'),
                        TokM::Mark(':'),
                        TokM::Word(ename@),
                        TokM::Mark(':'),
                        TokM::Mark(':'),
                        TokM::Word(v.name@),
                    ] + restructure_m(v.fields),
                ));
            }
            t.push_group(Delim::Brace, body);
            proof {
                assert(t@ =~= variant_arm_m(ename@, *alias, *v));
            }
        },
    }
    t
}

/// Every dispatch arm, in declaration order.
pub open spec fn variant_arms_m(ename: Seq<char>, alias: Option<Tree>, vs: Seq<VariantDesc>) -> Seq<
    Seq<TokM>,
> {
    Seq::new(vs.len(), |i: int| variant_arm_m(ename, alias, vs[i]))
}

/// Emits one arm per variant of the enum.
#[verifier::loop_isolation(false)]
pub fn enum_variants(ename: &String, alias: &Option<Tree>, vs: &Vec<VariantDesc>) -> (r: Vec<Tree>)
    ensures
        r@.len() == vs@.len(),
        forall|i: int| 0 <= i < vs@.len() ==> (#[trigger] r@[i])@ == variant_arm_m(
            ename@,
            *alias,
            vs@[i],
        ),
{
    let mut r: Vec<Tree> = Vec::new();
    let mut i: usize = 0;
    while i < vs.len()
        invariant
            i <= vs.len(),
            r@.len() == i,
            forall|j: int| 0 <= j < i ==> (#[trigger] r@[j])@ == variant_arm_m(
                ename@,
                *alias,
                vs@[j],
            ),
        decreases vs.len() - i,
    {
        r.push(variant_arm(ename, alias, &vs[i]));
        i = i + 1;
    }
    r
}

/// The whole generated body for an enum: a dispatch over the value's
/// current variant, each variant handled independently.
pub open spec fn inplace_enum_m(ename: Seq<char>, alias: Option<Tree>, vs: Seq<VariantDesc>) -> Seq<
    TokM,
> {
    seq![
        TokM::Word("match"@),
        TokM::Word("object"@),
        TokM::Group(Delim::Brace, join_comma(variant_arms_m(ename, alias, vs))),
    ]
}

/// Emits the generated body for an enum.
#[verifier::loop_isolation(false)]
pub fn inplace_enum(ename: &String, alias: &Option<Tree>, vs: &Vec<VariantDesc>) -> (r: Tree)
    ensures
        r@ == inplace_enum_m(ename@, *alias, vs@),
{
    let ghost parts = variant_arms_m(ename@, *alias, vs@);
    let arms = enum_variants(ename, alias, vs);
    let mut inner = Tree::new();
    let mut i: usize = 0;
    while i < arms.len()
        invariant
            i <= arms.len(),
            arms@.len() == vs@.len(),
            forall|j: int| 0 <= j < vs@.len() ==> (#[trigger] arms@[j])@ == variant_arm_m(
                ename@,
                *alias,
                vs@[j],
            ),
            inner@ == join_comma(parts.take(i as int)),
        decreases arms.len() - i,
    {
        proof {
            lemma_join_comma_push(parts.take(i as int), parts[i as int]);
            assert(parts.take(i as int).push(parts[i as int]) =~= parts.take(i as int + 1));
        }
        if i > 0 {
            inner.push_mark(',');
        }
        let arm = arms[i].deep_clone();
        inner.append(arm);
        proof {
            if i == 0 {
                assert(parts.take(0).len() == 0);
                assert(inner@ =~= join_comma(parts.take(1)));
            }
        }
        i = i + 1;
    }
    proof {
        assert(parts.take(vs@.len() as int) =~= parts);
    }
    let mut t = Tree::new();
    t.push_word("match");
    t.push_word("object");
    t.push_group(Delim::Brace, inner);
    proof {
        assert(t@ =~= inplace_enum_m(ename@, *alias, vs@));
    }
    t
}

/// The generated body for the type's data, struct or enum.
pub open spec fn impl_body_m(d: TypeDesc) -> Seq<TokM> {
    match d.data {
        DataDesc::Struct(fields) => inplace_struct_m(d.name@, d.alias, fields),
        DataDesc::Enum(vs) => inplace_enum_m(d.name@, d.alias, vs@),
        DataDesc::Union => Seq::empty(),
    }
}

/// The whole generated implementation of the syntax-value protocol for a
/// definition: an implementation block whose one method destructures the
/// value, converts each field, and rebuilds the reconstruction expression.
pub open spec fn generate_impl_m(d: TypeDesc) -> Seq<TokM> {
    seq![TokM::Word("impl"@)] + generics_m(d.generics.deep_view()) + seq![
        TokM::Word("bake"@),
        TokM::Mark(':'),
        TokM::Mark(':'),
        TokM::Word("Bake"@),
        TokM::Word("for"@),
        TokM::Word(d.name@),
    ] + generics_m(d.generics.deep_view()) + seq![
        TokM::Group(
            Delim::Brace,
            seq![
                TokM::Word("fn"@),
                TokM::Word("to_stream"@),
                TokM::Group(Delim::Paren, seq![TokM::Mark('&'), TokM::Word("self"@)]),
                TokM::Mark('-'),
                TokM::Mark('>'),
            ] + util_path_m("TokenStream"@) + seq![
                TokM::Group(
                    Delim::Brace,
                    seq![
                        TokM::Word("let"@),
                        TokM::Word("object"@),
                        TokM::Mark('='),
                        TokM::Word("self"@),
                        TokM::Mark(';'),
                    ] + impl_body_m(d) + seq![
                        TokM::Mark('.'),
                        TokM::Word("into"@),
                        TokM::Group(Delim::Paren, Seq::empty()),
                    ],
                ),
            ],
        ),
    ]
}

/// Derives the syntax-value implementation for a definition. A type with
/// restricted visibility or a union shape cannot be derived; such a
/// definition is a fatal configuration error and nothing is emitted.
pub fn generate_impl(d: &TypeDesc) -> (r: Result<Tree, DeriveError>)
    ensures
        r is Ok <==> d.public && !(d.data is Union),
        !d.public ==> r == Result::<Tree, DeriveError>::Err(DeriveError::RestrictedVisibility),
        d.public && d.data is Union ==> r == Result::<Tree, DeriveError>::Err(
            DeriveError::UnsupportedUnion,
        ),
        r matches Ok(t) ==> t@ == generate_impl_m(*d),
{
    if !d.public {
        return Err(DeriveError::RestrictedVisibility);
    }
    let body = match &d.data {
        DataDesc::Struct(fields) => inplace_struct(&d.name, &d.alias, fields),
        DataDesc::Enum(vs) => inplace_enum(&d.name, &d.alias, vs),
        DataDesc::Union => {
            return Err(DeriveError::UnsupportedUnion);
        },
    };
    proof {
        assert(body@ == impl_body_m(*d));
    }
    let ghost body_m = body@;
    let mut t = Tree::new();
    t.push_word("impl");
    push_generics(&mut t, &d.generics);
    t.push_word("bake");
    t.push_mark(':');
    t.push_mark(':');
    t.push_word("Bake");
    t.push_word("for");
    t.push_word(d.name.as_str());
    push_generics(&mut t, &d.generics);
    let mut inner_fn = Tree::new();
    inner_fn.push_word("let");
    inner_fn.push_word("object");
    inner_fn.push_mark('=');
    inner_fn.push_word("self");
    inner_fn.push_mark(';');
    inner_fn.append(body);
    inner_fn.push_mark('.');
    inner_fn.push_word("into");
    inner_fn.push_group(Delim::Paren, Tree::new());
    proof {
        assert(inner_fn@ =~= seq![
            TokM::Word("let"@),
            TokM::Word("object"@),
            TokM::Mark('='),
            TokM::Word("self"@),
            TokM::Mark(';'),
        ] + body_m + seq![
            TokM::Mark('.'),
            TokM::Word("into"@),
            TokM::Group(Delim::Paren, Seq::<TokM>::empty()),
        ]);
    }
    let mut blk = Tree::new();
    blk.push_word("fn");
    blk.push_word("to_stream");
    let mut args = Tree::new();
    args.push_mark('&');
    args.push_word("self");
    proof {
        assert(args@ =~= seq![TokM::Mark('&'), TokM::Word("self"@)]);
    }
    blk.push_group(Delim::Paren, args);
    blk.push_mark('-');
    blk.push_mark('>');
    push_util_path(&mut blk, "TokenStream");
    blk.push_group(Delim::Brace, inner_fn);
    proof {
        assert(blk@ =~= seq![
            TokM::Word("fn"@),
            TokM::Word("to_stream"@),
            TokM::Group(Delim::Paren, seq![TokM::Mark('&'), TokM::Word("self"@)]),
            TokM::Mark('-'),
            TokM::Mark('>'),
        ] + util_path_m("TokenStream"@) + seq![
            TokM::Group(
                Delim::Brace,
                seq![
                    TokM::Word("let"@),
                    TokM::Word("object"@),
                    TokM::Mark('='),
                    TokM::Word("self"@),
                    TokM::Mark(';'),
                ] + impl_body_m(*d) + seq![
                    TokM::Mark('.'),
                    TokM::Word("into"@),
                    TokM::Group(Delim::Paren, Seq::<TokM>::empty()),
                ],
            ),
        ]);
    }
    t.push_group(Delim::Brace, blk);
    proof {
        assert(t@ =~= generate_impl_m(*d));
    }
    Ok(t)
}

/// The visibility prefix of an emitted item.
pub open spec fn vis_m(public: bool) -> Seq<TokM> {
    if public {
        seq![TokM::Word("pub"@)]
    } else {
        Seq::empty()
    }
}

/// A field type wrapped for deferral:
/// `struct_baker :: interpolation :: Interpolatable < ty >`.
pub open spec fn wrapped_ty_m(ty: Seq<TokM>) -> Seq<TokM> {
    seq![
        TokM::Word("struct_baker"@),
        TokM::Mark(':'),
        TokM::Mark(':'),
        TokM::Word("interpolation"@),
        TokM::Mark(':'),
        TokM::Mark(':'),
        TokM::Word("Interpolatable"@),
        TokM::Mark('<'),
    ] + ty + seq![TokM::Mark('>')]
}

fn push_wrapped_ty(t: &mut Tree, ty: &Tree)
    ensures
        final(t)@ == old(t)@ + wrapped_ty_m(ty@),
{
    t.push_word("struct_baker");
    t.push_mark(':');
    t.push_mark(':');
    t.push_word("interpolation");
    t.push_mark(':');
    t.push_mark(':');
    t.push_word("Interpolatable");
    t.push_mark('<');
    t.append(ty.deep_clone());
    t.push_mark('>');
    proof {
        assert(t@ =~= old(t)@ + wrapped_ty_m(ty@));
    }
}

/// One rewritten field of the definition: its visibility, its name where it
/// has one, and its type, wrapped when the field is deferred; always
/// comma-terminated.
pub open spec fn interpolate_field_m(f: FieldDesc, deferred: bool, named: bool) -> Seq<TokM> {
    vis_m(f.public) + (if named {
        seq![TokM::Word(f.name->0@), TokM::Mark(':')]
    } else {
        Seq::empty()
    }) + (if deferred {
        wrapped_ty_m(f.ty@)
    } else {
        f.ty@
    }) + seq![TokM::Mark(',')]
}

/// All rewritten fields in order; the first misconfigured deferred
/// annotation stops the rewriting.
pub open spec fn interpolate_fields_m(fs: Seq<FieldDesc>, default: bool, named: bool) -> Result<
    Seq<TokM>,
    DeriveError,
>
    decreases fs.len(),
{
    if fs.len() == 0 {
        Ok(Seq::empty())
    } else {
        match interpolate_fields_m(fs.drop_last(), default, named) {
            Ok(rest) => match should_interpolate_m(fs.last().interpolate, default) {
                Ok(d) => Ok(rest + interpolate_field_m(fs.last(), d, named)),
                Err(e) => Err(e),
            },
            Err(e) => Err(e),
        }
    }
}

pub proof fn lemma_interpolate_fields_push(
    fs: Seq<FieldDesc>,
    f: FieldDesc,
    default: bool,
    named: bool,
)
    ensures
        interpolate_fields_m(fs.push(f), default, named) == match (
        interpolate_fields_m(fs, default, named),
        should_interpolate_m(f.interpolate, default),
        ) {
            (Ok(rest), Ok(d)) => Ok::<Seq<TokM>, DeriveError>(rest + interpolate_field_m(
                f,
                d,
                named,
            )),
            (Ok(rest), Err(e)) => Err(e),
            (Err(e), _) => Err(e),
        },
{
    assert(fs.push(f).drop_last() =~= fs);
    assert(fs.push(f).last() == f);
}

/// Emits one rewritten field.
fn interpolate_field(f: &FieldDesc, deferred: bool, named: bool) -> (r: Tree)
    requires
        named ==> f.name is Some,
    ensures
        r@ == interpolate_field_m(*f, deferred, named),
{
    let mut t = Tree::new();
    if f.public {
        t.push_word("pub");
    }
    if named {
        match &f.name {
            Some(n) => {
                t.push_word(n.as_str());
                t.push_mark(':');
            },
            None => {
                proof {
                    assert(false);
                }
            },
        }
    }
    if deferred {
        push_wrapped_ty(&mut t, &f.ty);
    } else {
        t.append(f.ty.deep_clone());
    }
    t.push_mark(',');
    proof {
        assert(t@ =~= interpolate_field_m(*f, deferred, named));
    }
    t
}

/// Emits the rewritten field block of a struct or of one variant: named
/// fields in braces, positional fields in parentheses, nothing for a unit
/// layout.
pub open spec fn interpolate_struct_content_m(fields: FieldsDesc, default: bool) -> Result<
    Seq<TokM>,
    DeriveError,
> {
    match fields {
        FieldsDesc::Named(fs) => match interpolate_fields_m(fs@, default, true) {
            Ok(inner) => Ok(seq![TokM::Group(Delim::Brace, inner)]),
            Err(e) => Err(e),
        },
        FieldsDesc::Unnamed(fs) => match interpolate_fields_m(fs@, default, false) {
            Ok(inner) => Ok(seq![TokM::Group(Delim::Paren, inner)]),
            Err(e) => Err(e),
        },
        FieldsDesc::Unit => Ok(Seq::empty()),
    }
}

/// A layout is well formed when its named fields all carry names.
pub open spec fn fields_named_wf(fields: FieldsDesc) -> bool {
    match fields {
        FieldsDesc::Named(fs) => forall|i: int|
            0 <= i < fs@.len() ==> (#[trigger] fs@[i]).name is Some,
        _ => true,
    }
}

#[verifier::loop_isolation(false)]
fn interpolate_fields(fs: &Vec<FieldDesc>, default: bool, named: bool) -> (r: Result<
    Tree,
    DeriveError,
>)
    requires
        named ==> forall|i: int| 0 <= i < fs@.len() ==> (#[trigger] fs@[i]).name is Some,
    ensures
        match r {
            Ok(t) => interpolate_fields_m(fs@, default, named) == Ok::<Seq<TokM>, DeriveError>(t@),
            Err(e) => interpolate_fields_m(fs@, default, named) == Err::<Seq<TokM>, DeriveError>(
                e,
            ),
        },
{
    let mut t = Tree::new();
    let mut i: usize = 0;
    while i < fs.len()
        invariant
            i <= fs.len(),
            interpolate_fields_m(fs@.take(i as int), default, named) == Ok::<
                Seq<TokM>,
                DeriveError,
            >(t@),
        decreases fs.len() - i,
    {
        proof {
            lemma_interpolate_fields_push(fs@.take(i as int), fs@[i as int], default, named);
            assert(fs@.take(i as int).push(fs@[i as int]) =~= fs@.take(i as int + 1));
        }
        let d = match should_interpolate(&fs[i].interpolate, default) {
            Ok(d) => d,
            Err(e) => {
                proof {
                    assert(interpolate_fields_m(fs@.take(i as int + 1), default, named)
                        == Err::<Seq<TokM>, DeriveError>(e));
                    lemma_interpolate_fields_prefix_err(fs@, i as int + 1, default, named);
                }
                return Err(e);
            },
        };
        t.append(interpolate_field(&fs[i], d, named));
        i = i + 1;
    }
    proof {
        assert(fs@.take(fs@.len() as int) =~= fs@);
    }
    Ok(t)
}

/// An error in a prefix of the fields is an error for the whole list.
proof fn lemma_interpolate_fields_prefix_err(
    fs: Seq<FieldDesc>,
    k: int,
    default: bool,
    named: bool,
)
    requires
        0 <= k <= fs.len(),
        interpolate_fields_m(fs.take(k), default, named) is Err,
    ensures
        interpolate_fields_m(fs, default, named) == interpolate_fields_m(fs.take(k), default, named),
    decreases fs.len() - k,
{
    if k < fs.len() {
        lemma_interpolate_fields_push(fs.take(k), fs[k], default, named);
        assert(fs.take(k).push(fs[k]) =~= fs.take(k + 1));
        lemma_interpolate_fields_prefix_err(fs, k + 1, default, named);
    } else {
        assert(fs.take(k) =~= fs);
    }
}

/// Emits the rewritten field block of a layout.
pub fn interpolate_struct_content(fields: &FieldsDesc, default: bool) -> (r: Result<
    Tree,
    DeriveError,
>)
    requires
        fields_named_wf(*fields),
    ensures
        match r {
            Ok(t) => interpolate_struct_content_m(*fields, default) == Ok::<Seq<TokM>, DeriveError>(
                t@,
            ),
            Err(e) => interpolate_struct_content_m(*fields, default) == Err::<
                Seq<TokM>,
                DeriveError,
            >(e),
        },
{
    let mut t = Tree::new();
    match fields {
        FieldsDesc::Named(fs) => {
            let inner = match interpolate_fields(fs, default, true) {
                Ok(inner) => inner,
                Err(e) => {
                    return Err(e);
                },
            };
            t.push_group(Delim::Brace, inner);
        },
        FieldsDesc::Unnamed(fs) => {
            let inner = match interpolate_fields(fs, default, false) {
                Ok(inner) => inner,
                Err(e) => {
                    return Err(e);
                },
            };
            t.push_group(Delim::Paren, inner);
        },
        FieldsDesc::Unit => {
            proof {
                assert(t@ =~= Seq::<TokM>::empty());
            }
        },
    }
    Ok(t)
}

/// The rewritten struct definition: same visibility, name and generics,
/// with every deferred field's type wrapped.
pub open spec fn interpolate_struct_m(d: TypeDesc, fields: FieldsDesc) -> Result<
    Seq<TokM>,
    DeriveError,
> {
    match interpolate_struct_content_m(fields, d.interpolate_all) {
        Ok(content) => Ok(
            vis_m(d.public) + seq![TokM::Word("struct"@), TokM::Word(d.name@)] + generics_m(
                d.generics.deep_view(),
            ) + content,
        ),
        Err(e) => Err(e),
    }
}

/// Emits the rewritten struct definition.
pub fn interpolate_struct(d: &TypeDesc, fields: &FieldsDesc) -> (r: Result<Tree, DeriveError>)
    requires
        fields_named_wf(*fields),
    ensures
        match r {
            Ok(t) => interpolate_struct_m(*d, *fields) == Ok::<Seq<TokM>, DeriveError>(t@),
            Err(e) => interpolate_struct_m(*d, *fields) == Err::<Seq<TokM>, DeriveError>(e),
        },
{
    let content = match interpolate_struct_content(fields, d.interpolate_all) {
        Ok(c) => c,
        Err(e) => {
            return Err(e);
        },
    };
    let mut t = Tree::new();
    if d.public {
        t.push_word("pub");
    }
    t.push_word("struct");
    t.push_word(d.name.as_str());
    push_generics(&mut t, &d.generics);
    t.append(content);
    proof {
        assert(interpolate_struct_m(*d, *fields) == Ok::<Seq<TokM>, DeriveError>(t@)) by {
            assert(t@ =~= vis_m(d.public) + seq![TokM::Word("struct"@), TokM::Word(d.name@)]
                + generics_m(d.generics.deep_view())
                + interpolate_struct_content_m(*fields, d.interpolate_all)->Ok_0);
        }
    }
    Ok(t)
}

/// One rewritten enum variant: its name, its rewritten field block, and a
/// terminating comma. The variant's own deferred annotation, resolved
/// against the type-level default, becomes the default for its fields.
pub open spec fn interpolate_variant_m(v: VariantDesc, default: bool) -> Result<
    Seq<TokM>,
    DeriveError,
> {
    match should_interpolate_m(v.interpolate, default) {
        Ok(vd) => match interpolate_struct_content_m(v.fields, vd) {
            Ok(content) => Ok(seq![TokM::Word(v.name@)] + content + seq![TokM::Mark(',')]),
            Err(e) => Err(e),
        },
        Err(e) => Err(e),
    }
}

/// All rewritten variants in order; the first misconfiguration stops the
/// rewriting.
pub open spec fn interpolate_variants_m(vs: Seq<VariantDesc>, default: bool) -> Result<
    Seq<TokM>,
    DeriveError,
>
    decreases vs.len(),
{
    if vs.len() == 0 {
        Ok(Seq::empty())
    } else {
        match interpolate_variants_m(vs.drop_last(), default) {
            Ok(rest) => match interpolate_variant_m(vs.last(), default) {
                Ok(one) => Ok(rest + one),
                Err(e) => Err(e),
            },
            Err(e) => Err(e),
        }
    }
}

pub proof fn lemma_interpolate_variants_push(vs: Seq<VariantDesc>, v: VariantDesc, default: bool)
    ensures
        interpolate_variants_m(vs.push(v), default) == match (
        interpolate_variants_m(vs, default),
        interpolate_variant_m(v, default),
        ) {
            (Ok(rest), Ok(one)) => Ok::<Seq<TokM>, DeriveError>(rest + one),
            (Ok(rest), Err(e)) => Err(e),
            (Err(e), _) => Err(e),
        },
{
    assert(vs.push(v).drop_last() =~= vs);
    assert(vs.push(v).last() == v);
}

proof fn lemma_interpolate_variants_prefix_err(vs: Seq<VariantDesc>, k: int, default: bool)
    requires
        0 <= k <= vs.len(),
        interpolate_variants_m(vs.take(k), default) is Err,
    ensures
        interpolate_variants_m(vs, default) == interpolate_variants_m(vs.take(k), default),
    decreases vs.len() - k,
{
    if k < vs.len() {
        lemma_interpolate_variants_push(vs.take(k), vs[k], default);
        assert(vs.take(k).push(vs[k]) =~= vs.take(k + 1));
        lemma_interpolate_variants_prefix_err(vs, k + 1, default);
    } else {
        assert(vs.take(k) =~= vs);
    }
}

/// Every variant's named fields all carry names.
pub open spec fn variants_named_wf(vs: Seq<VariantDesc>) -> bool {
    forall|i: int| 0 <= i < vs.len() ==> fields_named_wf((#[trigger] vs[i]).fields)
}

/// The rewritten enum definition: same visibility, name and generics, each
/// variant rewritten independently.
pub open spec fn interpolate_enum_m(d: TypeDesc, vs: Seq<VariantDesc>) -> Result<
    Seq<TokM>,
    DeriveError,
> {
    match interpolate_variants_m(vs, d.interpolate_all) {
        Ok(inner) => Ok(
            vis_m(d.public) + seq![TokM::Word("enum"@), TokM::Word(d.name@)] + generics_m(
                d.generics.deep_view(),
            ) + seq![TokM::Group(Delim::Brace, inner)],
        ),
        Err(e) => Err(e),
    }
}

/// Emits the rewritten enum definition.
#[verifier::loop_isolation(false)]
pub fn interpolate_enum(d: &TypeDesc, vs: &Vec<VariantDesc>) -> (r: Result<Tree, DeriveError>)
    requires
        variants_named_wf(vs@),
    ensures
        match r {
            Ok(t) => interpolate_enum_m(*d, vs@) == Ok::<Seq<TokM>, DeriveError>(t@),
            Err(e) => interpolate_enum_m(*d, vs@) == Err::<Seq<TokM>, DeriveError>(e),
        },
{
    let mut inner = Tree::new();
    let mut i: usize = 0;
    while i < vs.len()
        invariant
            i <= vs.len(),
            interpolate_variants_m(vs@.take(i as int), d.interpolate_all) == Ok::<
                Seq<TokM>,
                DeriveError,
            >(inner@),
        decreases vs.len() - i,
    {
        proof {
            lemma_interpolate_variants_push(vs@.take(i as int), vs@[i as int], d.interpolate_all);
            assert(vs@.take(i as int).push(vs@[i as int]) =~= vs@.take(i as int + 1));
        }
        let vd = match should_interpolate(&vs[i].interpolate, d.interpolate_all) {
            Ok(vd) => vd,
            Err(e) => {
                proof {
                    lemma_interpolate_variants_prefix_err(vs@, i as int + 1, d.interpolate_all);
                }
                return Err(e);
            },
        };
        let content = match interpolate_struct_content(&vs[i].fields, vd) {
            Ok(c) => c,
            Err(e) => {
                proof {
                    lemma_interpolate_variants_prefix_err(vs@, i as int + 1, d.interpolate_all);
                }
                return Err(e);
            },
        };
        let ghost inner0 = inner@;
        let ghost cm = content@;
        inner.push_word(vs[i].name.as_str());
        inner.append(content);
        inner.push_mark(',');
        proof {
            assert(interpolate_variant_m(vs@[i as int], d.interpolate_all) == Ok::<
                Seq<TokM>,
                DeriveError,
            >(seq![TokM::Word(vs@[i as int].name@)] + cm + seq![TokM::Mark(',')]));
            assert(inner@ =~= inner0 + (seq![TokM::Word(vs@[i as int].name@)] + cm + seq![
                TokM::Mark(','),
            ]));
        }
        i = i + 1;
    }
    proof {
        assert(vs@.take(vs@.len() as int) =~= vs@);
    }
    let mut t = Tree::new();
    if d.public {
        t.push_word("pub");
    }
    t.push_word("enum");
    t.push_word(d.name.as_str());
    push_generics(&mut t, &d.generics);
    t.push_group(Delim::Brace, inner);
    proof {
        assert(interpolate_enum_m(*d, vs@) == Ok::<Seq<TokM>, DeriveError>(t@)) by {
            assert(t@ =~= vis_m(d.public) + seq![TokM::Word("enum"@), TokM::Word(d.name@)]
                + generics_m(d.generics.deep_view()) + seq![
                TokM::Group(
                    Delim::Brace,
                    interpolate_variants_m(vs@, d.interpolate_all)->Ok_0,
                ),
            ]);
        }
    }
    Ok(t)
}

/// The direct render adapter: an implementation that extends a caller's
/// stream with the value's own baked syntax.
pub open spec fn to_tokens_m(d: TypeDesc) -> Seq<TokM> {
    seq![TokM::Word("impl"@)] + generics_m(d.generics.deep_view()) + util_path_m("ToTokens"@)
        + seq![TokM::Word("for"@), TokM::Word(d.name@)] + generics_m(d.generics.deep_view()) + seq![
        TokM::Group(
            Delim::Brace,
            seq![
                TokM::Word("fn"@),
                TokM::Word("to_tokens"@),
                TokM::Group(
                    Delim::Paren,
                    seq![
                        TokM::Mark('&'),
                        TokM::Word("self"@),
                        TokM::Mark(','),
                        TokM::Word("tokens"@),
                        TokM::Mark(':'),
                        TokM::Mark('&'),
                        TokM::Word("mut"@),
                    ] + util_path_m("TokenStream"@),
                ),
                TokM::Group(
                    Delim::Brace,
                    seq![
                        TokM::Word("tokens"@),
                        TokM::Mark('.'),
                        TokM::Word("extend"@),
                        TokM::Group(
                            Delim::Paren,
                            seq![
                                TokM::Word("self"@),
                                TokM::Mark('.'),
                                TokM::Word("bake"@),
                                TokM::Group(Delim::Paren, Seq::empty()),
                            ],
                        ),
                    ],
                ),
            ],
        ),
    ]
}

/// Emits the direct render adapter.
pub fn to_tokens(d: &TypeDesc) -> (r: Tree)
    ensures
        r@ == to_tokens_m(*d),
{
    let mut t = Tree::new();
    t.push_word("impl");
    push_generics(&mut t, &d.generics);
    push_util_path(&mut t, "ToTokens");
    t.push_word("for");
    t.push_word(d.name.as_str());
    push_generics(&mut t, &d.generics);
    let mut args = Tree::new();
    args.push_mark('&');
    args.push_word("self");
    args.push_mark(',');
    args.push_word("tokens");
    args.push_mark(':');
    args.push_mark('&');
    args.push_word("mut");
    push_util_path(&mut args, "TokenStream");
    proof {
        assert(args@ =~= seq![
            TokM::Mark('&'),
            TokM::Word("self"@),
            TokM::Mark(','),
            TokM::Word("tokens"@),
            TokM::Mark(':'),
            TokM::Mark('&'),
            TokM::Word("mut"@),
        ] + util_path_m("TokenStream"@));
    }
    let mut call = Tree::new();
    call.push_word("self");
    call.push_mark('.');
    call.push_word("bake");
    call.push_group(Delim::Paren, Tree::new());
    proof {
        assert(call@ =~= seq![
            TokM::Word("self"@),
            TokM::Mark('.'),
            TokM::Word("bake"@),
            TokM::Group(Delim::Paren, Seq::<TokM>::empty()),
        ]);
    }
    let mut body = Tree::new();
    body.push_word("tokens");
    body.push_mark('.');
    body.push_word("extend");
    body.push_group(Delim::Paren, call);
    proof {
        assert(body@ =~= seq![
            TokM::Word("tokens"@),
            TokM::Mark('.'),
            TokM::Word("extend"@),
            TokM::Group(
                Delim::Paren,
                seq![
                    TokM::Word("self"@),
                    TokM::Mark('.'),
                    TokM::Word("bake"@),
                    TokM::Group(Delim::Paren, Seq::<TokM>::empty()),
                ],
            ),
        ]);
    }
    let mut blk = Tree::new();
    blk.push_word("fn");
    blk.push_word("to_tokens");
    blk.push_group(Delim::Paren, args);
    blk.push_group(Delim::Brace, body);
    proof {
        assert(blk@ =~= seq![
            TokM::Word("fn"@),
            TokM::Word("to_tokens"@),
            TokM::Group(
                Delim::Paren,
                seq![
                    TokM::Mark('&'),
                    TokM::Word("self"@),
                    TokM::Mark(','),
                    TokM::Word("tokens"@),
                    TokM::Mark(':'),
                    TokM::Mark('&'),
                    TokM::Word("mut"@),
                ] + util_path_m("TokenStream"@),
            ),
            TokM::Group(
                Delim::Brace,
                seq![
                    TokM::Word("tokens"@),
                    TokM::Mark('.'),
                    TokM::Word("extend"@),
                    TokM::Group(
                        Delim::Paren,
                        seq![
                            TokM::Word("self"@),
                            TokM::Mark('.'),
                            TokM::Word("bake"@),
                            TokM::Group(Delim::Paren, Seq::<TokM>::empty()),
                        ],
                    ),
                ],
            ),
        ]);
    }
    t.push_group(Delim::Brace, blk);
    proof {
        assert(t@ =~= to_tokens_m(*d));
    }
    t
}

/// The whole output of the deferred-capability rewriting: the rewritten
/// definition, followed by the render adapter where it was requested.
pub open spec fn bake_entry_m(d: TypeDesc) -> Result<Seq<TokM>, DeriveError> {
    let main = match d.data {
        DataDesc::Struct(fields) => interpolate_struct_m(d, fields),
        DataDesc::Enum(vs) => interpolate_enum_m(d, vs@),
        DataDesc::Union => Err(DeriveError::UnsupportedUnion),
    };
    match main {
        Ok(m) => Ok(
            m + if d.emit_to_tokens {
                to_tokens_m(d)
            } else {
                Seq::empty()
            },
        ),
        Err(e) => Err(e),
    }
}

/// A definition is well formed when every named field carries a name.
pub open spec fn parsed_tyd_wf(d: TypeDesc) -> bool {
    match d.data {
        DataDesc::Struct(fields) => fields_named_wf(fields),
        DataDesc::Enum(vs) => variants_named_wf(vs@),
        DataDesc::Union => true,
    }
}

/// Rewrites a definition for deferred capability: every field resolved as
/// deferred has its type wrapped, and the render adapter is appended where
/// requested. A union shape or a non-boolean deferred annotation is a
/// fatal configuration error.
pub fn bake_entry(d: &TypeDesc) -> (r: Result<Tree, DeriveError>)
    requires
        parsed_tyd_wf(*d),
    ensures
        match r {
            Ok(t) => bake_entry_m(*d) == Ok::<Seq<TokM>, DeriveError>(t@),
            Err(e) => bake_entry_m(*d) == Err::<Seq<TokM>, DeriveError>(e),
        },
        d.data is Union ==> r == Result::<Tree, DeriveError>::Err(DeriveError::UnsupportedUnion),
{
    let mut t = match &d.data {
        DataDesc::Struct(fields) => match interpolate_struct(d, fields) {
            Ok(t) => t,
            Err(e) => {
                return Err(e);
            },
        },
        DataDesc::Enum(vs) => match interpolate_enum(d, vs) {
            Ok(t) => t,
            Err(e) => {
                return Err(e);
            },
        },
        DataDesc::Union => {
            return Err(DeriveError::UnsupportedUnion);
        },
    };
    if d.emit_to_tokens {
        t.append(to_tokens(d));
    } else {
        proof {
            assert(t@ + Seq::<TokM>::empty() =~= t@);
        }
    }
    Ok(t)
}

/// One constructor-argument override of the constructor-based derivation:
/// the argument's name, and the expression whose baked value fills it; an
/// absent expression reads the same-named field of the value.
#[derive(Debug)]
pub struct NewArg {
    pub name: String,
    pub init: Option<Tree>,
}

/// Finds the first override with the given name.
pub fn find_arg(args: &Vec<NewArg>, name: &String) -> (r: Option<usize>)
    ensures
        match r {
            Some(i) => i < args@.len() && args@[i as int].name@ == name@,
            None => forall|j: int| 0 <= j < args@.len() ==> (#[trigger] args@[j]).name@ != name@,
        },
{
    let mut i: usize = 0;
    while i < args.len()
        invariant
            i <= args.len(),
            forall|j: int| 0 <= j < i ==> (#[trigger] args@[j]).name@ != name@,
        decreases args.len() - i,
    {
        if args[i].name.eq(name) {
            return Some(i);
        }
        i = i + 1;
    }
    None
}

/// The binding that bakes one same-named field of the value:
/// `let name = self.name.bake();`.
pub open spec fn new_field_binding_m(fname: Seq<char>) -> Seq<TokM> {
    seq![
        TokM::Word("let"@),
        TokM::Word(fname),
        TokM::Mark('='),
        TokM::Word("self"@),
        TokM::Mark('.'),
        TokM::Word(fname),
        TokM::Mark('.'),
        TokM::Word("bake"@),
        TokM::Group(Delim::Paren, Seq::empty()),
        TokM::Mark(';'),
    ]
}

fn push_new_field_binding(t: &mut Tree, fname: &str)
    ensures
        final(t)@ == old(t)@ + new_field_binding_m(fname@),
{
    t.push_word("let");
    t.push_word(fname);
    t.push_mark('=');
    t.push_word("self");
    t.push_mark('.');
    t.push_word(fname);
    t.push_mark('.');
    t.push_word("bake");
    t.push_group(Delim::Paren, Tree::new());
    t.push_mark(';');
    proof {
        assert(t@ =~= old(t)@ + new_field_binding_m(fname@));
    }
}

/// The binding for one constructor argument: an override expression is
/// baked in place of the field; otherwise the same-named field is baked.
pub open spec fn arg_binding_m(a: NewArg) -> Seq<TokM> {
    match a.init {
        Some(e) => seq![TokM::Word("let"@), TokM::Word(a.name@), TokM::Mark('=')] + e@ + seq![
            TokM::Mark('.'),
            TokM::Word("bake"@),
            TokM::Group(Delim::Paren, Seq::empty()),
            TokM::Mark(';'),
        ],
        None => new_field_binding_m(a.name@),
    }
}

/// The names whose baked values feed the constructor call, in order.
pub open spec fn new_call_m(tyname: Seq<char>, names: Seq<Seq<char>>) -> Seq<TokM> {
    seq![TokM::Word(tyname), TokM::Mark(':'), TokM::Mark(':'), TokM::Word("new"@), TokM::Group(
        Delim::Paren,
        join_comma(Seq::new(names.len(), |i: int| seq![TokM::Mark('#'), TokM::Word(names[i])])),
    )]
}

#[verifier::loop_isolation(false)]
fn push_new_call(t: &mut Tree, tyname: &str, names: &Vec<String>)
    ensures
        final(t)@ == old(t)@ + new_call_m(tyname@, names.deep_view()),
{
    let ghost parts = Seq::new(
        names@.len(),
        |i: int| seq![TokM::Mark('#'), TokM::Word(names@[i]@)],
    );
    proof {
        assert(parts =~= Seq::new(
            names.deep_view().len(),
            |i: int| seq![TokM::Mark('#'), TokM::Word(names.deep_view()[i])],
        ));
    }
    let mut inner = Tree::new();
    let mut i: usize = 0;
    while i < names.len()
        invariant
            i <= names.len(),
            inner@ == join_comma(parts.take(i as int)),
        decreases names.len() - i,
    {
        proof {
            lemma_join_comma_push(parts.take(i as int), parts[i as int]);
            assert(parts.take(i as int).push(parts[i as int]) =~= parts.take(i as int + 1));
        }
        if i > 0 {
            inner.push_mark(',');
        }
        inner.push_mark('#');
        inner.push_word(names[i].as_str());
        proof {
            if i == 0 {
                assert(parts.take(0).len() == 0);
                assert(inner@ =~= join_comma(parts.take(1)));
            }
        }
        i = i + 1;
    }
    proof {
        assert(parts.take(names@.len() as int) =~= parts);
    }
    t.push_word(tyname);
    t.push_mark(':');
    t.push_mark(':');
    t.push_word("new");
    t.push_group(Delim::Paren, inner);
    proof {
        assert(t@ =~= old(t)@ + new_call_m(tyname@, names.deep_view()));
    }
}

/// The field names of a named layout.
pub open spec fn field_names_m(fs: Seq<FieldDesc>) -> Seq<Seq<char>> {
    Seq::new(fs.len(), |i: int| fs[i].name->0@)
}

/// The bindings of the no-override constructor derivation, one per field.
pub open spec fn new_bindings_m(names: Seq<Seq<char>>) -> Seq<TokM>
    decreases names.len(),
{
    if names.len() == 0 {
        Seq::empty()
    } else {
        new_bindings_m(names.drop_last()) + new_field_binding_m(names.last())
    }
}

proof fn lemma_new_bindings_push(names: Seq<Seq<char>>, n: Seq<char>)
    ensures
        new_bindings_m(names.push(n)) == new_bindings_m(names) + new_field_binding_m(n),
{
    assert(names.push(n).drop_last() =~= names);
    assert(names.push(n).last() == n);
}

/// The bindings of the override mode, one per given argument.
pub open spec fn arg_bindings_m(args: Seq<NewArg>) -> Seq<TokM>
    decreases args.len(),
{
    if args.len() == 0 {
        Seq::empty()
    } else {
        arg_bindings_m(args.drop_last()) + arg_binding_m(args.last())
    }
}

proof fn lemma_arg_bindings_push(args: Seq<NewArg>, a: NewArg)
    ensures
        arg_bindings_m(args.push(a)) == arg_bindings_m(args) + arg_binding_m(a),
{
    assert(args.push(a).drop_last() =~= args);
    assert(args.push(a).last() == a);
}

/// The argument names of the override mode, in order.
pub open spec fn arg_names_m(args: Seq<NewArg>) -> Seq<Seq<char>> {
    Seq::new(args.len(), |i: int| args[i].name@)
}

/// The generated constructor-based body. With no overrides it bakes every
/// field of a named struct and calls the constructor through the support
/// path; with overrides it bakes each named argument, an override
/// expression standing in for its field, and calls the constructor.
pub open spec fn determine_constructr_arguments_m(d: TypeDesc, args: Seq<NewArg>) -> Result<
    Seq<TokM>,
    DeriveError,
> {
    if args.len() == 0 {
        match d.data {
            DataDesc::Struct(FieldsDesc::Named(fs)) => Ok(
                new_bindings_m(field_names_m(fs@)) + quote_util_call_m(
                    new_call_m(d.name@, field_names_m(fs@)),
                ),
            ),
            _ => Err(DeriveError::UnsupportedShape),
        }
    } else {
        Ok(
            arg_bindings_m(args) + seq![
                TokM::Word("quote"@),
                TokM::Mark(':'),
                TokM::Mark(':'),
                TokM::Word("quote"@),
                TokM::Mark('!'),
                TokM::Group(Delim::Paren, new_call_m(d.name@, arg_names_m(args))),
            ],
        )
    }
}

/// Computes the constructor-based body.
#[verifier::loop_isolation(false)]
pub fn determine_constructr_arguments(d: &TypeDesc, args: &Vec<NewArg>) -> (r: Result<
    Tree,
    DeriveError,
>)
    requires
        parsed_tyd_wf(*d),
    ensures
        match r {
            Ok(t) => determine_constructr_arguments_m(*d, args@) == Ok::<Seq<TokM>, DeriveError>(
                t@,
            ),
            Err(e) => determine_constructr_arguments_m(*d, args@) == Err::<Seq<TokM>, DeriveError>(
                e,
            ),
        },
{
    let mut t = Tree::new();
    if args.len() == 0 {
        match &d.data {
            DataDesc::Struct(FieldsDesc::Named(fs)) => {
                let ghost names = field_names_m(fs@);
                let mut i: usize = 0;
                while i < fs.len()
                    invariant
                        i <= fs.len(),
                        t@ == new_bindings_m(names.take(i as int)),
                    decreases fs.len() - i,
                {
                    proof {
                        lemma_new_bindings_push(names.take(i as int), names[i as int]);
                        assert(names.take(i as int).push(names[i as int]) =~= names.take(
                            i as int + 1,
                        ));
                    }
                    match &fs[i].name {
                        Some(n) => {
                            push_new_field_binding(&mut t, n.as_str());
                        },
                        None => {
                            proof {
                                assert(false);
                            }
                        },
                    }
                    i = i + 1;
                }
                proof {
                    assert(names.take(fs@.len() as int) =~= names);
                }
                let mut name_vec: Vec<String> = Vec::new();
                let mut j: usize = 0;
                while j < fs.len()
                    invariant
                        j <= fs.len(),
                        name_vec@.len() == j,
                        forall|k: int|
                            0 <= k < j ==> (#[trigger] name_vec@[k])@ == fs@[k].name->0@,
                    decreases fs.len() - j,
                {
                    match &fs[j].name {
                        Some(n) => {
                            name_vec.push(n.clone());
                        },
                        None => {
                            proof {
                                assert(false);
                            }
                        },
                    }
                    j = j + 1;
                }
                proof {
                    assert(name_vec.deep_view() =~= names);
                }
                let mut call = Tree::new();
                push_util_path(&mut call, "quote");
                call.push_mark('!');
                let mut inner = Tree::new();
                push_new_call(&mut inner, d.name.as_str(), &name_vec);
                call.push_group(Delim::Paren, inner);
                t.append(call);
                proof {
                    assert(t@ =~= new_bindings_m(names) + quote_util_call_m(
                        new_call_m(d.name@, names),
                    ));
                }
            },
            _ => {
                return Err(DeriveError::UnsupportedShape);
            },
        }
    } else {
        let mut i: usize = 0;
        while i < args.len()
            invariant
                i <= args.len(),
                t@ == arg_bindings_m(args@.take(i as int)),
            decreases args.len() - i,
        {
            proof {
                lemma_arg_bindings_push(args@.take(i as int), args@[i as int]);
                assert(args@.take(i as int).push(args@[i as int]) =~= args@.take(i as int + 1));
            }
            match &args[i].init {
                Some(e) => {
                    t.push_word("let");
                    t.push_word(args[i].name.as_str());
                    t.push_mark('=');
                    t.append(e.deep_clone());
                    t.push_mark('.');
                    t.push_word("bake");
                    t.push_group(Delim::Paren, Tree::new());
                    t.push_mark(';');
                    proof {
                        assert(t@ =~= arg_bindings_m(args@.take(i as int)) + arg_binding_m(
                            args@[i as int],
                        ));
                    }
                },
                None => {
                    push_new_field_binding(&mut t, args[i].name.as_str());
                },
            }
            i = i + 1;
        }
        proof {
            assert(args@.take(args@.len() as int) =~= args@);
        }
        let mut name_vec: Vec<String> = Vec::new();
        let mut j: usize = 0;
        while j < args.len()
            invariant
                j <= args.len(),
                name_vec@.len() == j,
                forall|k: int| 0 <= k < j ==> (#[trigger] name_vec@[k])@ == args@[k].name@,
            decreases args.len() - j,
        {
            name_vec.push(args[j].name.clone());
            j = j + 1;
        }
        proof {
            assert(name_vec.deep_view() =~= arg_names_m(args@));
        }
        t.push_word("quote");
        t.push_mark(':');
        t.push_mark(':');
        t.push_word("quote");
        t.push_mark('!');
        let mut inner = Tree::new();
        push_new_call(&mut inner, d.name.as_str(), &name_vec);
        t.push_group(Delim::Paren, inner);
        proof {
            assert(t@ =~= arg_bindings_m(args@) + seq![
                TokM::Word("quote"@),
                TokM::Mark(':'),
                TokM::Mark(':'),
                TokM::Word("quote"@),
                TokM::Mark('!'),
                TokM::Group(Delim::Paren, new_call_m(d.name@, arg_names_m(args@))),
            ]);
        }
    }
    Ok(t)
}

/// The whole output of the constructor-based derivation: the definition,
/// passed through unchanged, followed by a protocol implementation whose
/// body is the constructor-based reconstruction.
pub open spec fn bake_new_m(d: TypeDesc, base: Seq<TokM>, args: Seq<NewArg>) -> Result<
    Seq<TokM>,
    DeriveError,
> {
    match determine_constructr_arguments_m(d, args) {
        Ok(body) => Ok(
            base + seq![TokM::Word("impl"@)] + generics_m(d.generics.deep_view()) + seq![
                TokM::Word("bake"@),
                TokM::Mark(':'),
                TokM::Mark(':'),
                TokM::Word("Bake"@),
                TokM::Word("for"@),
                TokM::Word(d.name@),
            ] + generics_m(d.generics.deep_view()) + seq![
                TokM::Group(
                    Delim::Brace,
                    seq![
                        TokM::Word("fn"@),
                        TokM::Word("to_stream"@),
                        TokM::Group(Delim::Paren, seq![TokM::Mark('&'), TokM::Word("self"@)]),
                        TokM::Mark('-'),
                        TokM::Mark('>'),
                    ] + util_path_m("TokenStream"@) + seq![
                        TokM::Group(
                            Delim::Brace,
                            body + seq![
                                TokM::Mark('.'),
                                TokM::Word("into"@),
                                TokM::Group(Delim::Paren, Seq::empty()),
                            ],
                        ),
                    ],
                ),
            ],
        ),
        Err(e) => Err(e),
    }
}

/// Emits the constructor-based derivation: the definition itself, then a
/// protocol implementation that rebuilds the value through its `new`
/// constructor.
pub fn bake_new(d: &TypeDesc, base: Tree, args: &Vec<NewArg>) -> (r: Result<Tree, DeriveError>)
    requires
        parsed_tyd_wf(*d),
    ensures
        match r {
            Ok(t) => bake_new_m(*d, base@, args@) == Ok::<Seq<TokM>, DeriveError>(t@),
            Err(e) => bake_new_m(*d, base@, args@) == Err::<Seq<TokM>, DeriveError>(e),
        },
{
    let body = match determine_constructr_arguments(d, args) {
        Ok(b) => b,
        Err(e) => {
            return Err(e);
        },
    };
    let ghost body_m = body@;
    let mut t = base;
    t.push_word("impl");
    push_generics(&mut t, &d.generics);
    t.push_word("bake");
    t.push_mark(':');
    t.push_mark(':');
    t.push_word("Bake");
    t.push_word("for");
    t.push_word(d.name.as_str());
    push_generics(&mut t, &d.generics);
    let mut inner_fn = body;
    inner_fn.push_mark('.');
    inner_fn.push_word("into");
    inner_fn.push_group(Delim::Paren, Tree::new());
    proof {
        assert(inner_fn@ =~= body_m + seq![
            TokM::Mark('.'),
            TokM::Word("into"@),
            TokM::Group(Delim::Paren, Seq::<TokM>::empty()),
        ]);
    }
    let mut blk = Tree::new();
    blk.push_word("fn");
    blk.push_word("to_stream");
    let mut fnargs = Tree::new();
    fnargs.push_mark('&');
    fnargs.push_word("self");
    proof {
        assert(fnargs@ =~= seq![TokM::Mark('&'), TokM::Word("self"@)]);
    }
    blk.push_group(Delim::Paren, fnargs);
    blk.push_mark('-');
    blk.push_mark('>');
    push_util_path(&mut blk, "TokenStream");
    blk.push_group(Delim::Brace, inner_fn);
    proof {
        assert(blk@ =~= seq![
            TokM::Word("fn"@),
            TokM::Word("to_stream"@),
            TokM::Group(Delim::Paren, seq![TokM::Mark('&'), TokM::Word("self"@)]),
            TokM::Mark('-'),
            TokM::Mark('>'),
        ] + util_path_m("TokenStream"@) + seq![
            TokM::Group(
                Delim::Brace,
                body_m + seq![
                    TokM::Mark('.'),
                    TokM::Word("into"@),
                    TokM::Group(Delim::Paren, Seq::<TokM>::empty()),
                ],
            ),
        ]);
    }
    t.push_group(Delim::Brace, blk);
    proof {
        assert(bake_new_m(*d, base@, args@) == Ok::<Seq<TokM>, DeriveError>(t@)) by {
            assert(t@ =~= bake_new_m(*d, base@, args@)->Ok_0);
        }
    }
    Ok(t)
}

/// The generated compile-time parser entry: a function-like macro that
/// parses its input with the type's own text parser and bakes the result,
/// followed by the type definition itself.
pub open spec fn ct_parser_m(macro_name: Seq<char>, parsed_ty: Seq<char>, def: Seq<TokM>) -> Seq<
    TokM,
> {
    seq![
        TokM::Mark('#'),
        TokM::Group(Delim::Bracket, seq![TokM::Word("proc_macro"@)]),
        TokM::Word("pub"@),
        TokM::Word("fn"@),
        TokM::Word(macro_name),
        TokM::Group(
            Delim::Paren,
            seq![
                TokM::Word("input"@),
                TokM::Mark(':'),
                TokM::Word("proc_macro"@),
                TokM::Mark(':'),
                TokM::Mark(':'),
                TokM::Word("TokenStream"@),
            ],
        ),
        TokM::Mark('-'),
        TokM::Mark('>'),
        TokM::Word("proc_macro"@),
        TokM::Mark(':'),
        TokM::Mark(':'),
        TokM::Word("TokenStream"@),
        TokM::Group(
            Delim::Brace,
            seq![
                TokM::Word("quote"@),
                TokM::Mark(':'),
                TokM::Mark(':'),
                TokM::Word("quote"@),
                TokM::Mark('!'),
                TokM::Group(
                    Delim::Paren,
                    seq![
                        TokM::Mark('<'),
                        TokM::Word(parsed_ty),
                        TokM::Word("as"@),
                        TokM::Word("FromStr"@),
                        TokM::Mark('>'),
                        TokM::Mark(':'),
                        TokM::Mark(':'),
                        TokM::Word("from_str"@),
                        TokM::Group(
                            Delim::Paren,
                            seq![
                                TokM::Word("stringify"@),
                                TokM::Mark('!'),
                                TokM::Group(Delim::Paren, seq![TokM::Word("input"@)]),
                            ],
                        ),
                        TokM::Mark('.'),
                        TokM::Word("unwrap"@),
                        TokM::Group(Delim::Paren, Seq::empty()),
                        TokM::Mark('.'),
                        TokM::Word("bake"@),
                        TokM::Group(Delim::Paren, Seq::empty()),
                    ],
                ),
                TokM::Mark('.'),
                TokM::Word("into"@),
                TokM::Group(Delim::Paren, Seq::empty()),
            ],
        ),
    ] + def
}

/// Emits the compile-time parser entry around a definition.
pub fn ct_parser(macro_name: &String, parsed_ty: &String, def: Tree) -> (r: Tree)
    ensures
        r@ == ct_parser_m(macro_name@, parsed_ty@, def@),
{
    let mut t = Tree::new();
    t.push_mark('#');
    let mut attr = Tree::new();
    attr.push_word("proc_macro");
    proof {
        assert(attr@ =~= seq![TokM::Word("proc_macro"@)]);
    }
    t.push_group(Delim::Bracket, attr);
    t.push_word("pub");
    t.push_word("fn");
    t.push_word(macro_name.as_str());
    let mut fnargs = Tree::new();
    fnargs.push_word("input");
    fnargs.push_mark(':');
    fnargs.push_word("proc_macro");
    fnargs.push_mark(':');
    fnargs.push_mark(':');
    fnargs.push_word("TokenStream");
    proof {
        assert(fnargs@ =~= seq![
            TokM::Word("input"@),
            TokM::Mark(':'),
            TokM::Word("proc_macro"@),
            TokM::Mark(':'),
            TokM::Mark(':'),
            TokM::Word("TokenStream"@),
        ]);
    }
    t.push_group(Delim::Paren, fnargs);
    t.push_mark('-');
    t.push_mark('>');
    t.push_word("proc_macro");
    t.push_mark(':');
    t.push_mark(':');
    t.push_word("TokenStream");
    let mut parse_call = Tree::new();
    parse_call.push_mark('<');
    parse_call.push_word(parsed_ty.as_str());
    parse_call.push_word("as");
    parse_call.push_word("FromStr");
    parse_call.push_mark('>');
    parse_call.push_mark(':');
    parse_call.push_mark(':');
    parse_call.push_word("from_str");
    let mut strf = Tree::new();
    strf.push_word("stringify");
    strf.push_mark('!');
    let mut strf_arg = Tree::new();
    strf_arg.push_word("input");
    strf.push_group(Delim::Paren, strf_arg);
    proof {
        assert(strf@ =~= seq![
            TokM::Word("stringify"@),
            TokM::Mark('!'),
            TokM::Group(Delim::Paren, seq![TokM::Word("input"@)]),
        ]);
    }
    parse_call.push_group(Delim::Paren, strf);
    parse_call.push_mark('.');
    parse_call.push_word("unwrap");
    parse_call.push_group(Delim::Paren, Tree::new());
    parse_call.push_mark('.');
    parse_call.push_word("bake");
    parse_call.push_group(Delim::Paren, Tree::new());
    proof {
        assert(parse_call@ =~= seq![
            TokM::Mark('<'),
            TokM::Word(parsed_ty@),
            TokM::Word("as"@),
            TokM::Word("FromStr"@),
            TokM::Mark('>'),
            TokM::Mark(':'),
            TokM::Mark(':'),
            TokM::Word("from_str"@),
            TokM::Group(
                Delim::Paren,
                seq![
                    TokM::Word("stringify"@),
                    TokM::Mark('!'),
                    TokM::Group(Delim::Paren, seq![TokM::Word("input"@)]),
                ],
            ),
            TokM::Mark('.'),
            TokM::Word("unwrap"@),
            TokM::Group(Delim::Paren, Seq::<TokM>::empty()),
            TokM::Mark('.'),
            TokM::Word("bake"@),
            TokM::Group(Delim::Paren, Seq::<TokM>::empty()),
        ]);
    }
    let mut body = Tree::new();
    body.push_word("quote");
    body.push_mark(':');
    body.push_mark(':');
    body.push_word("quote");
    body.push_mark('!');
    body.push_group(Delim::Paren, parse_call);
    body.push_mark('.');
    body.push_word("into");
    body.push_group(Delim::Paren, Tree::new());
    proof {
        assert(body@ =~= seq![
            TokM::Word("quote"@),
            TokM::Mark(':'),
            TokM::Mark(':'),
            TokM::Word("quote"@),
            TokM::Mark('!'),
            TokM::Group(
                Delim::Paren,
                seq![
                    TokM::Mark('<'),
                    TokM::Word(parsed_ty@),
                    TokM::Word("as"@),
                    TokM::Word("FromStr"@),
                    TokM::Mark('>'),
                    TokM::Mark(':'),
                    TokM::Mark(':'),
                    TokM::Word("from_str"@),
                    TokM::Group(
                        Delim::Paren,
                        seq![
                            TokM::Word("stringify"@),
                            TokM::Mark('!'),
                            TokM::Group(Delim::Paren, seq![TokM::Word("input"@)]),
                        ],
                    ),
                    TokM::Mark('.'),
                    TokM::Word("unwrap"@),
                    TokM::Group(Delim::Paren, Seq::<TokM>::empty()),
                    TokM::Mark('.'),
                    TokM::Word("bake"@),
                    TokM::Group(Delim::Paren, Seq::<TokM>::empty()),
                ],
            ),
            TokM::Mark('.'),
            TokM::Word("into"@),
            TokM::Group(Delim::Paren, Seq::<TokM>::empty()),
        ]);
    }
    t.push_group(Delim::Brace, body);
    t.append(def);
    proof {
        assert(t@ =~= ct_parser_m(macro_name@, parsed_ty@, def@));
    }
    t
}

/// The generated construction of a bakeable function value: the function
/// path, paired with the same path parsed as syntax, so the two cannot
/// drift apart.
pub open spec fn bake_fn_once_m(path: Seq<TokM>) -> Seq<TokM> {
    seq![
        TokM::Group(
            Delim::Brace,
            seq![
                TokM::Word("bake"@),
                TokM::Mark(':'),
                TokM::Mark(':'),
                TokM::Word("functions"@),
                TokM::Mark(':'),
                TokM::Mark(':'),
                TokM::Word("BakeableFnOnce"@),
                TokM::Mark(':'),
                TokM::Mark(':'),
                TokM::Word("_new"@),
                TokM::Group(
                    Delim::Paren,
                    path + seq![TokM::Mark(',')] + util_path_m("parse_quote"@) + seq![
                        TokM::Mark('!'),
                        TokM::Group(Delim::Paren, path),
                    ],
                ),
            ],
        ),
    ]
}

/// Emits the construction of a bakeable function value from its path.
pub fn bake_fn_once(path: Tree) -> (r: Tree)
    ensures
        r@ == bake_fn_once_m(path@),
{
    let ghost pm = path@;
    let mut call_args = path.deep_clone();
    call_args.push_mark(',');
    push_util_path(&mut call_args, "parse_quote");
    call_args.push_mark('!');
    call_args.push_group(Delim::Paren, path);
    proof {
        assert(call_args@ =~= pm + seq![TokM::Mark(',')] + util_path_m("parse_quote"@) + seq![
            TokM::Mark('!'),
            TokM::Group(Delim::Paren, pm),
        ]);
    }
    let mut inner = Tree::new();
    inner.push_word("bake");
    inner.push_mark(':');
    inner.push_mark(':');
    inner.push_word("functions");
    inner.push_mark(':');
    inner.push_mark(':');
    inner.push_word("BakeableFnOnce");
    inner.push_mark(':');
    inner.push_mark(':');
    inner.push_word("_new");
    inner.push_group(Delim::Paren, call_args);
    proof {
        assert(inner@ =~= seq![
            TokM::Word("bake"@),
            TokM::Mark(':'),
            TokM::Mark(':'),
            TokM::Word("functions"@),
            TokM::Mark(':'),
            TokM::Mark(':'),
            TokM::Word("BakeableFnOnce"@),
            TokM::Mark(':'),
            TokM::Mark(':'),
            TokM::Word("_new"@),
            TokM::Group(
                Delim::Paren,
                pm + seq![TokM::Mark(',')] + util_path_m("parse_quote"@) + seq![
                    TokM::Mark('!'),
                    TokM::Group(Delim::Paren, pm),
                ],
            ),
        ]);
    }
    let mut t = Tree::new();
    t.push_group(Delim::Brace, inner);
    proof {
        assert(t@ =~= bake_fn_once_m(pm));
    }
    t
}

} // verus!
