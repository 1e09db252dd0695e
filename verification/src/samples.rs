//! Demonstration types exercising the protocol and the algebra end to end:
//! plain derived shapes, shapes with deferred-capable fields, and a small
//! JSON-like value type whose textual grammar admits deferred fragments.
//!
//! Each implementation here is written out as the derivation engine would
//! emit it for the type's shape and annotations.

use vstd::prelude::*;

use crate::bake::{
    int_from_toks, int_lit_m, join_comma, lemma_join_comma_push, Bake, BakeRoundTrip, Bakeable,
};
use crate::interpolation::{Interpolatable, InterpM, RuntimeInterpolationError};
use crate::tokens::{Delim, Tok, TokM, Tree};

verus! {

/// The tokens naming this module from any call site.
pub open spec fn mod_path_m() -> Seq<TokM> {
    seq![
        TokM::Word("struct_baker"@),
        TokM::Mark(':'),
        TokM::Mark(':'),
        TokM::Word("samples"@),
    ]
}

fn push_mod_path(t: &mut Tree)
    ensures
        final(t)@ == old(t)@ + mod_path_m(),
{
    t.push_word("struct_baker");
    t.push_mark(':');
    t.push_mark(':');
    t.push_word("samples");
    proof {
        assert(t@ =~= old(t)@ + mod_path_m());
    }
}

/// The reconstruction head `<module> :: <name>`.
pub open spec fn item_path_m(name: Seq<char>) -> Seq<TokM> {
    mod_path_m() + seq![TokM::Mark(':'), TokM::Mark(':'), TokM::Word(name)]
}

fn push_item_path(t: &mut Tree, name: &str)
    ensures
        final(t)@ == old(t)@ + item_path_m(name@),
{
    push_mod_path(t);
    t.push_mark(':');
    t.push_mark(':');
    t.push_word(name);
    proof {
        assert(t@ =~= old(t)@ + item_path_m(name@));
    }
}

/// A plain derived struct of two scalar fields.
#[derive(Debug, PartialEq, Eq, Structural)]
pub struct Test {
    pub zahl: u32,
    pub wahrheit: bool,
}

impl Test {
    pub fn new(wahrheit: bool, zahl: u32) -> (r: Self)
        ensures
            r == (Test { wahrheit, zahl }),
    {
        Self { wahrheit, zahl }
    }
}

impl DeepView for Test {
    type V = Test;

    open spec fn deep_view(&self) -> Test {
        *self
    }
}

impl Bake for Test {
    open spec fn tok_spec(&self) -> Seq<TokM> {
        item_path_m("Test"@) + seq![
            TokM::Group(
                Delim::Brace,
                seq![TokM::Word("zahl"@), TokM::Mark(':'), int_lit_m(self.zahl as int), TokM::Mark(
                    ',',
                ), TokM::Word("wahrheit"@), TokM::Mark(':'), TokM::LitBool(self.wahrheit)],
            ),
        ]
    }

    proof fn tok_spec_wf(&self) {
    }

    fn to_stream(&self) -> (r: Tree) {
        let mut t = Tree::new();
        push_item_path(&mut t, "Test");
        let mut inner = Tree::new();
        inner.push_word("zahl");
        inner.push_mark(':');
        inner.append(self.zahl.to_stream());
        inner.push_mark(',');
        inner.push_word("wahrheit");
        inner.push_mark(':');
        inner.append(self.wahrheit.to_stream());
        proof {
            assert(inner@ =~= seq![
                TokM::Word("zahl"@),
                TokM::Mark(':'),
                int_lit_m(self.zahl as int),
                TokM::Mark(','),
                TokM::Word("wahrheit"@),
                TokM::Mark(':'),
                TokM::LitBool(self.wahrheit),
            ]);
        }
        t.push_group(Delim::Brace, inner);
        proof {
            assert(t@ =~= self.tok_spec());
        }
        t
    }
}

impl BakeRoundTrip for Test {
    open spec fn from_toks(ts: Seq<TokM>) -> Option<Test> {
        if ts.len() == 8 && ts.take(7) == item_path_m("Test"@) {
            match ts[7] {
                TokM::Group(Delim::Brace, inner) => {
                    if inner.len() == 7 && inner[0] == TokM::Word("zahl"@) && inner[1]
                        == TokM::Mark(':') && inner[3] == TokM::Mark(',') && inner[4]
                        == TokM::Word("wahrheit"@) && inner[5] == TokM::Mark(':') {
                        match (int_from_toks(seq![inner[2]], 0, u32::MAX as int), inner[6]) {
                            (Some(z), TokM::LitBool(w)) => Some(
                                Test { zahl: z as u32, wahrheit: w },
                            ),
                            _ => None,
                        }
                    } else {
                        None
                    }
                },
                _ => None,
            }
        } else {
            None
        }
    }

    proof fn round_trip(&self) {
        assert(self.tok_spec().take(7) =~= item_path_m("Test"@));
        assert(seq![self.tok_spec()[7]->Group_1[2]] =~= seq![int_lit_m(self.zahl as int)]);
    }
}

/// The same shape as `Test`, fully public.
#[derive(Debug, PartialEq, Eq, Structural)]
pub struct PubTest {
    pub zahl: u32,
    pub wahrheit: bool,
}

impl Bake for PubTest {
    open spec fn tok_spec(&self) -> Seq<TokM> {
        item_path_m("PubTest"@) + seq![
            TokM::Group(
                Delim::Brace,
                seq![TokM::Word("zahl"@), TokM::Mark(':'), int_lit_m(self.zahl as int), TokM::Mark(
                    ',',
                ), TokM::Word("wahrheit"@), TokM::Mark(':'), TokM::LitBool(self.wahrheit)],
            ),
        ]
    }

    proof fn tok_spec_wf(&self) {
    }

    fn to_stream(&self) -> (r: Tree) {
        let mut t = Tree::new();
        push_item_path(&mut t, "PubTest");
        let mut inner = Tree::new();
        inner.push_word("zahl");
        inner.push_mark(':');
        inner.append(self.zahl.to_stream());
        inner.push_mark(',');
        inner.push_word("wahrheit");
        inner.push_mark(':');
        inner.append(self.wahrheit.to_stream());
        proof {
            assert(inner@ =~= seq![
                TokM::Word("zahl"@),
                TokM::Mark(':'),
                int_lit_m(self.zahl as int),
                TokM::Mark(','),
                TokM::Word("wahrheit"@),
                TokM::Mark(':'),
                TokM::LitBool(self.wahrheit),
            ]);
        }
        t.push_group(Delim::Brace, inner);
        proof {
            assert(t@ =~= self.tok_spec());
        }
        t
    }
}

impl DeepView for PubTest {
    type V = PubTest;

    open spec fn deep_view(&self) -> PubTest {
        *self
    }
}

impl BakeRoundTrip for PubTest {
    open spec fn from_toks(ts: Seq<TokM>) -> Option<PubTest> {
        if ts.len() == 8 && ts.take(7) == item_path_m("PubTest"@) {
            match ts[7] {
                TokM::Group(Delim::Brace, inner) => {
                    if inner.len() == 7 && inner[0] == TokM::Word("zahl"@) && inner[1]
                        == TokM::Mark(':') && inner[3] == TokM::Mark(',') && inner[4]
                        == TokM::Word("wahrheit"@) && inner[5] == TokM::Mark(':') {
                        match (int_from_toks(seq![inner[2]], 0, u32::MAX as int), inner[6]) {
                            (Some(z), TokM::LitBool(w)) => Some(
                                PubTest { zahl: z as u32, wahrheit: w },
                            ),
                            _ => None,
                        }
                    } else {
                        None
                    }
                },
                _ => None,
            }
        } else {
            None
        }
    }

    proof fn round_trip(&self) {
        assert(self.tok_spec().take(7) =~= item_path_m("PubTest"@));
        assert(seq![self.tok_spec()[7]->Group_1[2]] =~= seq![int_lit_m(self.zahl as int)]);
    }
}

/// A derived enum with one variant of each field layout.
#[derive(Debug, PartialEq, Eq, Structural)]
pub enum EnumTest {
    StructVariant { a: u32, b: bool },
    TupleVariant(u32, bool),
    UnitVarient,
}

/// The reconstruction head of one enum variant.
pub open spec fn variant_path_m(ename: Seq<char>, vname: Seq<char>) -> Seq<TokM> {
    item_path_m(ename) + seq![TokM::Mark(':'), TokM::Mark(':'), TokM::Word(vname)]
}

fn push_variant_path(t: &mut Tree, ename: &str, vname: &str)
    ensures
        final(t)@ == old(t)@ + variant_path_m(ename@, vname@),
{
    push_item_path(t, ename);
    t.push_mark(':');
    t.push_mark(':');
    t.push_word(vname);
    proof {
        assert(t@ =~= old(t)@ + variant_path_m(ename@, vname@));
    }
}

impl Bake for EnumTest {
    open spec fn tok_spec(&self) -> Seq<TokM> {
        match *self {
            EnumTest::StructVariant { a, b } => variant_path_m("EnumTest"@, "StructVariant"@)
                + seq![
                TokM::Group(
                    Delim::Brace,
                    seq![TokM::Word("a"@), TokM::Mark(':'), int_lit_m(a as int), TokM::Mark(','), TokM::Word("b"@), TokM::Mark(':'), TokM::LitBool(b)],
                ),
            ],
            EnumTest::TupleVariant(x0, x1) => variant_path_m("EnumTest"@, "TupleVariant"@) + seq![
                TokM::Group(
                    Delim::Paren,
                    seq![int_lit_m(x0 as int), TokM::Mark(','), TokM::LitBool(x1)],
                ),
            ],
            EnumTest::UnitVarient => variant_path_m("EnumTest"@, "UnitVarient"@),
        }
    }

    proof fn tok_spec_wf(&self) {
    }

    fn to_stream(&self) -> (r: Tree) {
        let mut t = Tree::new();
        match self {
            EnumTest::StructVariant { a, b } => {
                push_variant_path(&mut t, "EnumTest", "StructVariant");
                let mut inner = Tree::new();
                inner.push_word("a");
                inner.push_mark(':');
                inner.append(a.to_stream());
                inner.push_mark(',');
                inner.push_word("b");
                inner.push_mark(':');
                inner.append(b.to_stream());
                proof {
                    assert(inner@ =~= seq![
                        TokM::Word("a"@),
                        TokM::Mark(':'),
                        int_lit_m(*a as int),
                        TokM::Mark(','),
                        TokM::Word("b"@),
                        TokM::Mark(':'),
                        TokM::LitBool(*b),
                    ]);
                }
                t.push_group(Delim::Brace, inner);
            },
            EnumTest::TupleVariant(x0, x1) => {
                push_variant_path(&mut t, "EnumTest", "TupleVariant");
                let mut inner = Tree::new();
                inner.append(x0.to_stream());
                inner.push_mark(',');
                inner.append(x1.to_stream());
                proof {
                    assert(inner@ =~= seq![int_lit_m(*x0 as int), TokM::Mark(','), TokM::LitBool(
                        *x1,
                    )]);
                }
                t.push_group(Delim::Paren, inner);
            },
            EnumTest::UnitVarient => {
                push_variant_path(&mut t, "EnumTest", "UnitVarient");
            },
        }
        proof {
            assert(t@ =~= self.tok_spec());
        }
        t
    }
}

impl DeepView for EnumTest {
    type V = EnumTest;

    open spec fn deep_view(&self) -> EnumTest {
        *self
    }
}

impl BakeRoundTrip for EnumTest {
    open spec fn from_toks(ts: Seq<TokM>) -> Option<EnumTest> {
        if ts.len() == 11 && ts.take(10) == variant_path_m("EnumTest"@, "StructVariant"@) {
            match ts[10] {
                TokM::Group(Delim::Brace, inner) => {
                    if inner.len() == 7 && inner[0] == TokM::Word("a"@) && inner[1] == TokM::Mark(
                        ':',
                    ) && inner[3] == TokM::Mark(',') && inner[4] == TokM::Word("b"@) && inner[5]
                        == TokM::Mark(':') {
                        match (int_from_toks(seq![inner[2]], 0, u32::MAX as int), inner[6]) {
                            (Some(a), TokM::LitBool(b)) => Some(
                                EnumTest::StructVariant { a: a as u32, b },
                            ),
                            _ => None,
                        }
                    } else {
                        None
                    }
                },
                _ => None,
            }
        } else if ts.len() == 11 && ts.take(10) == variant_path_m("EnumTest"@, "TupleVariant"@) {
            match ts[10] {
                TokM::Group(Delim::Paren, inner) => {
                    if inner.len() == 3 && inner[1] == TokM::Mark(',') {
                        match (int_from_toks(seq![inner[0]], 0, u32::MAX as int), inner[2]) {
                            (Some(x0), TokM::LitBool(x1)) => Some(
                                EnumTest::TupleVariant(x0 as u32, x1),
                            ),
                            _ => None,
                        }
                    } else {
                        None
                    }
                },
                _ => None,
            }
        } else if ts.len() == 10 && ts == variant_path_m("EnumTest"@, "UnitVarient"@) {
            Some(EnumTest::UnitVarient)
        } else {
            None
        }
    }

    proof fn round_trip(&self) {
        reveal_strlit("StructVariant");
        reveal_strlit("TupleVariant");
        reveal_strlit("UnitVarient");
        assert("StructVariant"@ != "TupleVariant"@) by {
            assert("StructVariant"@[0] == 'S');
            assert("TupleVariant"@[0] == 'T');
        }
        match *self {
            EnumTest::StructVariant { a, b } => {
                assert(self.tok_spec().take(10) =~= variant_path_m("EnumTest"@, "StructVariant"@));
                assert(seq![self.tok_spec()[10]->Group_1[2]] =~= seq![int_lit_m(a as int)]);
            },
            EnumTest::TupleVariant(x0, x1) => {
                assert(self.tok_spec().take(10) =~= variant_path_m("EnumTest"@, "TupleVariant"@));
                assert(variant_path_m("EnumTest"@, "StructVariant"@)[9] == TokM::Word(
                    "StructVariant"@,
                ));
                assert(self.tok_spec().take(10) != variant_path_m("EnumTest"@, "StructVariant"@));
                assert(seq![self.tok_spec()[10]->Group_1[0]] =~= seq![int_lit_m(x0 as int)]);
            },
            EnumTest::UnitVarient => {
                assert("UnitVarient"@ != "StructVariant"@) by {
                    assert("UnitVarient"@.len() == 11);
                    assert("StructVariant"@.len() == 13);
                }
                assert(self.tok_spec() =~= variant_path_m("EnumTest"@, "UnitVarient"@));
            },
        }
    }
}

/// A derived tuple struct.
#[derive(Debug, PartialEq, Eq, Structural)]
pub struct TupleStruct(pub u8, pub u32);

impl Bake for TupleStruct {
    open spec fn tok_spec(&self) -> Seq<TokM> {
        item_path_m("TupleStruct"@) + seq![
            TokM::Group(
                Delim::Paren,
                seq![int_lit_m(self.0 as int), TokM::Mark(','), int_lit_m(self.1 as int)],
            ),
        ]
    }

    proof fn tok_spec_wf(&self) {
    }

    fn to_stream(&self) -> (r: Tree) {
        let mut t = Tree::new();
        push_item_path(&mut t, "TupleStruct");
        let mut inner = Tree::new();
        inner.append(self.0.to_stream());
        inner.push_mark(',');
        inner.append(self.1.to_stream());
        proof {
            assert(inner@ =~= seq![int_lit_m(self.0 as int), TokM::Mark(','), int_lit_m(
                self.1 as int,
            )]);
        }
        t.push_group(Delim::Paren, inner);
        proof {
            assert(t@ =~= self.tok_spec());
        }
        t
    }
}

/// A derived unit struct, reconstructed as its bare path.
#[derive(Debug, PartialEq, Eq, Structural)]
pub struct UnitStruct;

impl Bake for UnitStruct {
    open spec fn tok_spec(&self) -> Seq<TokM> {
        item_path_m("UnitStruct"@)
    }

    proof fn tok_spec_wf(&self) {
    }

    fn to_stream(&self) -> (r: Tree) {
        let mut t = Tree::new();
        push_item_path(&mut t, "UnitStruct");
        proof {
            assert(t@ =~= self.tok_spec());
        }
        t
    }
}

impl DeepView for TupleStruct {
    type V = TupleStruct;

    open spec fn deep_view(&self) -> TupleStruct {
        *self
    }
}

impl BakeRoundTrip for TupleStruct {
    open spec fn from_toks(ts: Seq<TokM>) -> Option<TupleStruct> {
        if ts.len() == 8 && ts.take(7) == item_path_m("TupleStruct"@) {
            match ts[7] {
                TokM::Group(Delim::Paren, inner) => {
                    if inner.len() == 3 && inner[1] == TokM::Mark(',') {
                        match (
                            int_from_toks(seq![inner[0]], 0, u8::MAX as int),
                            int_from_toks(seq![inner[2]], 0, u32::MAX as int),
                        ) {
                            (Some(x0), Some(x1)) => Some(TupleStruct(x0 as u8, x1 as u32)),
                            _ => None,
                        }
                    } else {
                        None
                    }
                },
                _ => None,
            }
        } else {
            None
        }
    }

    proof fn round_trip(&self) {
        assert(self.tok_spec().take(7) =~= item_path_m("TupleStruct"@));
        assert(seq![self.tok_spec()[7]->Group_1[0]] =~= seq![int_lit_m(self.0 as int)]);
        assert(seq![self.tok_spec()[7]->Group_1[2]] =~= seq![int_lit_m(self.1 as int)]);
    }
}

/// A struct nesting other derived shapes; its description composes theirs.
#[derive(Debug, PartialEq, Eq, Structural)]
pub struct NestTest {
    pub test: Test,
    pub tupel: TupleStruct,
    pub unit: UnitStruct,
}

impl Bake for NestTest {
    open spec fn tok_spec(&self) -> Seq<TokM> {
        item_path_m("NestTest"@) + seq![
            TokM::Group(
                Delim::Brace,
                seq![TokM::Word("test"@), TokM::Mark(':')] + self.test.tok_spec() + seq![TokM::Mark(','), TokM::Word("tupel"@), TokM::Mark(':')] + self.tupel.tok_spec() + seq![TokM::Mark(','), TokM::Word("unit"@), TokM::Mark(':')] + self.unit.tok_spec(),
            ),
        ]
    }

    proof fn tok_spec_wf(&self) {
    }

    fn to_stream(&self) -> (r: Tree) {
        let mut t = Tree::new();
        push_item_path(&mut t, "NestTest");
        let mut inner = Tree::new();
        inner.push_word("test");
        inner.push_mark(':');
        inner.append(self.test.to_stream());
        inner.push_mark(',');
        inner.push_word("tupel");
        inner.push_mark(':');
        inner.append(self.tupel.to_stream());
        inner.push_mark(',');
        inner.push_word("unit");
        inner.push_mark(':');
        inner.append(self.unit.to_stream());
        proof {
            assert(inner@ =~= seq![TokM::Word("test"@), TokM::Mark(':')] + self.test.tok_spec()
                + seq![TokM::Mark(','), TokM::Word("tupel"@), TokM::Mark(':')]
                + self.tupel.tok_spec() + seq![TokM::Mark(','), TokM::Word("unit"@), TokM::Mark(
                ':',
            )] + self.unit.tok_spec());
        }
        t.push_group(Delim::Brace, inner);
        proof {
            assert(t@ =~= self.tok_spec());
        }
        t
    }
}

impl DeepView for NestTest {
    type V = NestTest;

    open spec fn deep_view(&self) -> NestTest {
        *self
    }
}

impl BakeRoundTrip for NestTest {
    open spec fn from_toks(ts: Seq<TokM>) -> Option<NestTest> {
        if ts.len() == 8 && ts.take(7) == item_path_m("NestTest"@) {
            match ts[7] {
                TokM::Group(Delim::Brace, inner) => {
                    if inner.len() == 31 && inner[0] == TokM::Word("test"@) && inner[1]
                        == TokM::Mark(':') && inner[10] == TokM::Mark(',') && inner[11]
                        == TokM::Word("tupel"@) && inner[12] == TokM::Mark(':') && inner[21]
                        == TokM::Mark(',') && inner[22] == TokM::Word("unit"@) && inner[23]
                        == TokM::Mark(':') {
                        match (
                            Test::from_toks(inner.subrange(2, 10)),
                            TupleStruct::from_toks(inner.subrange(13, 21)),
                            UnitStruct::from_toks(inner.subrange(24, 31)),
                        ) {
                            (Some(test), Some(tupel), Some(unit)) => Some(
                                NestTest { test, tupel, unit },
                            ),
                            _ => None,
                        }
                    } else {
                        None
                    }
                },
                _ => None,
            }
        } else {
            None
        }
    }

    proof fn round_trip(&self) {
        self.test.round_trip();
        self.tupel.round_trip();
        self.unit.round_trip();
        assert(self.tok_spec().take(7) =~= item_path_m("NestTest"@));
        let inner = self.tok_spec()[7]->Group_1;
        assert(inner.subrange(2, 10) =~= self.test.tok_spec());
        assert(inner.subrange(13, 21) =~= self.tupel.tok_spec());
        assert(inner.subrange(24, 31) =~= self.unit.tok_spec());
    }
}

/// A unit marker whose only description is its own path.
#[derive(Debug, PartialEq, Eq, Structural)]
pub struct UnbakedUnit;

impl Bake for UnbakedUnit {
    open spec fn tok_spec(&self) -> Seq<TokM> {
        item_path_m("UnbakedUnit"@)
    }

    proof fn tok_spec_wf(&self) {
    }

    fn to_stream(&self) -> (r: Tree) {
        let mut t = Tree::new();
        push_item_path(&mut t, "UnbakedUnit");
        proof {
            assert(t@ =~= self.tok_spec());
        }
        t
    }
}

impl DeepView for UnitStruct {
    type V = UnitStruct;

    open spec fn deep_view(&self) -> UnitStruct {
        *self
    }
}

impl BakeRoundTrip for UnitStruct {
    open spec fn from_toks(ts: Seq<TokM>) -> Option<UnitStruct> {
        if ts == item_path_m("UnitStruct"@) {
            Some(UnitStruct)
        } else {
            None
        }
    }

    proof fn round_trip(&self) {
        assert(self.tok_spec() =~= item_path_m("UnitStruct"@));
    }
}

impl DeepView for UnbakedUnit {
    type V = UnbakedUnit;

    open spec fn deep_view(&self) -> UnbakedUnit {
        *self
    }
}

impl BakeRoundTrip for UnbakedUnit {
    open spec fn from_toks(ts: Seq<TokM>) -> Option<UnbakedUnit> {
        if ts == item_path_m("UnbakedUnit"@) {
            Some(UnbakedUnit)
        } else {
            None
        }
    }

    proof fn round_trip(&self) {
        assert(self.tok_spec() =~= item_path_m("UnbakedUnit"@));
    }
}

/// A struct whose field declares a substitution target equal to its own
/// declared type: the substitution is skipped and the field bakes plainly.
#[derive(Debug, PartialEq, Eq, Structural)]
pub struct WithUnbakedUnit(pub UnbakedUnit);

impl Bake for WithUnbakedUnit {
    open spec fn tok_spec(&self) -> Seq<TokM> {
        item_path_m("WithUnbakedUnit"@) + seq![
            TokM::Group(Delim::Paren, self.0.tok_spec()),
        ]
    }

    proof fn tok_spec_wf(&self) {
    }

    fn to_stream(&self) -> (r: Tree) {
        let mut t = Tree::new();
        push_item_path(&mut t, "WithUnbakedUnit");
        t.push_group(Delim::Paren, self.0.to_stream());
        proof {
            assert(t@ =~= self.tok_spec());
        }
        t
    }
}

impl DeepView for WithUnbakedUnit {
    type V = WithUnbakedUnit;

    open spec fn deep_view(&self) -> WithUnbakedUnit {
        *self
    }
}

impl BakeRoundTrip for WithUnbakedUnit {
    open spec fn from_toks(ts: Seq<TokM>) -> Option<WithUnbakedUnit> {
        if ts.len() == 8 && ts.take(7) == item_path_m("WithUnbakedUnit"@) {
            match ts[7] {
                TokM::Group(Delim::Paren, inner) => match UnbakedUnit::from_toks(inner) {
                    Some(u) => Some(WithUnbakedUnit(u)),
                    None => None,
                },
                _ => None,
            }
        } else {
            None
        }
    }

    proof fn round_trip(&self) {
        self.0.round_trip();
        assert(self.tok_spec().take(7) =~= item_path_m("WithUnbakedUnit"@));
    }
}

/// A tuple whose second component alone is deferred-capable.
#[derive(Debug)]
pub struct PartialTuple(pub u64, pub Interpolatable<bool>);

/// The demonstration parser's error: a value still deferred where a plain
/// one was demanded, or text outside the grammar.
#[derive(Debug, PartialEq, Eq, Structural)]
pub enum NodeError {
    Interpolation,
    Parsing,
}

impl From<RuntimeInterpolationError> for NodeError {
    fn from(value: RuntimeInterpolationError) -> (r: Self) {
        NodeError::Interpolation
    }
}

impl vstd::std_specs::convert::FromSpecImpl<RuntimeInterpolationError> for NodeError {
    open spec fn obeys_from_spec() -> bool {
        true
    }

    open spec fn from_spec(value: RuntimeInterpolationError) -> Self {
        NodeError::Interpolation
    }
}

/// The owned-text description: the literal plus the conversion to owned.
pub open spec fn string_toks_m(s: Seq<char>) -> Seq<TokM> {
    seq![
        TokM::LitStr(s),
        TokM::Mark('.'),
        TokM::Word("to_owned"@),
        TokM::Group(Delim::Paren, Seq::empty()),
    ]
}

/// A deferred-capable struct whose reconstruction is redirected to the
/// alias target `Test` instead of its own path, with both fields deferred
/// by the type-level switch.
#[derive(Debug)]
pub struct Ipol {
    pub field_a: Interpolatable<u64>,
    pub field_b: Interpolatable<u64>,
}

impl Bake for Ipol {
    open spec fn tok_spec(&self) -> Seq<TokM> {
        seq![TokM::Word("Test"@)] + seq![
            TokM::Group(
                Delim::Brace,
                seq![TokM::Word("field_a"@), TokM::Mark(':')] + self.field_a.bake_spec() + seq![TokM::Mark(','), TokM::Word("field_b"@), TokM::Mark(':')] + self.field_b.bake_spec(),
            ),
        ]
    }

    proof fn tok_spec_wf(&self) {
    }

    fn to_stream(&self) -> (r: Tree) {
        let mut t = Tree::new();
        t.push_word("Test");
        let mut inner = Tree::new();
        inner.push_word("field_a");
        inner.push_mark(':');
        inner.append(self.field_a.bake());
        inner.push_mark(',');
        inner.push_word("field_b");
        inner.push_mark(':');
        inner.append(self.field_b.bake());
        proof {
            assert(inner@ =~= seq![TokM::Word("field_a"@), TokM::Mark(':')]
                + self.field_a.bake_spec() + seq![TokM::Mark(','), TokM::Word("field_b"@), TokM::Mark(':')] + self.field_b.bake_spec());
        }
        t.push_group(Delim::Brace, inner);
        proof {
            assert(t@ =~= self.tok_spec());
        }
        t
    }
}

/// A deferred-capable enum with no fields actually marked deferred, so its
/// shape stays plain.
#[derive(Debug, PartialEq, Eq, Structural)]
pub enum InterpolatedEnumTest {
    StructVariant { a: u32, b: bool },
    TupleVariant(u32, bool),
    UnitVariant,
}

/// A derived enum of two payload-carrying variants.
#[derive(Debug)]
pub enum InterpolatedEnum {
    Integer(i64),
    String(String),
}

impl Bake for InterpolatedEnum {
    open spec fn tok_spec(&self) -> Seq<TokM> {
        match self {
            InterpolatedEnum::Integer(v) => variant_path_m("InterpolatedEnum"@, "Integer"@) + seq![
                TokM::Group(Delim::Paren, seq![int_lit_m(*v as int)]),
            ],
            InterpolatedEnum::String(s) => variant_path_m("InterpolatedEnum"@, "String"@) + seq![
                TokM::Group(Delim::Paren, string_toks_m(s@)),
            ],
        }
    }

    proof fn tok_spec_wf(&self) {
    }

    fn to_stream(&self) -> (r: Tree) {
        let mut t = Tree::new();
        match self {
            InterpolatedEnum::Integer(v) => {
                push_variant_path(&mut t, "InterpolatedEnum", "Integer");
                t.push_group(Delim::Paren, v.to_stream());
            },
            InterpolatedEnum::String(s) => {
                push_variant_path(&mut t, "InterpolatedEnum", "String");
                t.push_group(Delim::Paren, s.to_stream());
            },
        }
        proof {
            assert(t@ =~= self.tok_spec());
        }
        t
    }
}

/// Mathematical model of an `InterpolatedEnum` value.
pub enum InterpolatedEnumV {
    Integer(i64),
    Text(Seq<char>),
}

impl DeepView for InterpolatedEnum {
    type V = InterpolatedEnumV;

    open spec fn deep_view(&self) -> InterpolatedEnumV {
        match self {
            InterpolatedEnum::Integer(v) => InterpolatedEnumV::Integer(*v),
            InterpolatedEnum::String(st) => InterpolatedEnumV::Text(st@),
        }
    }
}

impl BakeRoundTrip for InterpolatedEnum {
    open spec fn from_toks(ts: Seq<TokM>) -> Option<InterpolatedEnumV> {
        if ts.len() == 11 && ts.take(10) == variant_path_m("InterpolatedEnum"@, "Integer"@) {
            match ts[10] {
                TokM::Group(Delim::Paren, inner) => match int_from_toks(
                    inner,
                    i64::MIN as int,
                    i64::MAX as int,
                ) {
                    Some(v) => Some(InterpolatedEnumV::Integer(v as i64)),
                    None => None,
                },
                _ => None,
            }
        } else if ts.len() == 11 && ts.take(10) == variant_path_m(
            "InterpolatedEnum"@,
            "String"@,
        ) {
            match ts[10] {
                TokM::Group(Delim::Paren, inner) => {
                    if inner.len() == 4 && inner[1] == TokM::Mark('.') && inner[2] == TokM::Word(
                        "to_owned"@,
                    ) && inner[3] == TokM::Group(Delim::Paren, Seq::<TokM>::empty()) {
                        match inner[0] {
                            TokM::LitStr(sq) => Some(InterpolatedEnumV::Text(sq)),
                            _ => None,
                        }
                    } else {
                        None
                    }
                },
                _ => None,
            }
        } else {
            None
        }
    }

    proof fn round_trip(&self) {
        reveal_strlit("Integer");
        reveal_strlit("String");
        assert("Integer"@ != "String"@) by {
            assert("Integer"@[0] == 'I');
            assert("String"@[0] == 'S');
        }
        match self {
            InterpolatedEnum::Integer(v) => {
                assert(self.tok_spec().take(10) =~= variant_path_m(
                    "InterpolatedEnum"@,
                    "Integer"@,
                ));
            },
            InterpolatedEnum::String(st) => {
                assert(self.tok_spec().take(10) =~= variant_path_m(
                    "InterpolatedEnum"@,
                    "String"@,
                ));
                assert(variant_path_m("InterpolatedEnum"@, "Integer"@)[9] == TokM::Word(
                    "Integer"@,
                ));
                assert(self.tok_spec().take(10) != variant_path_m(
                    "InterpolatedEnum"@,
                    "Integer"@,
                ));
            },
        }
    }
}

impl From<i64> for InterpolatedEnum {
    fn from(value: i64) -> (r: Self) {
        InterpolatedEnum::Integer(value)
    }
}

impl vstd::std_specs::convert::FromSpecImpl<i64> for InterpolatedEnum {
    open spec fn obeys_from_spec() -> bool {
        true
    }

    open spec fn from_spec(value: i64) -> Self {
        InterpolatedEnum::Integer(value)
    }
}

impl From<String> for InterpolatedEnum {
    fn from(value: String) -> (r: Self) {
        InterpolatedEnum::String(value)
    }
}

impl vstd::std_specs::convert::FromSpecImpl<String> for InterpolatedEnum {
    open spec fn obeys_from_spec() -> bool {
        true
    }

    open spec fn from_spec(value: String) -> Self {
        InterpolatedEnum::String(value)
    }
}

/// A derived struct nesting the enum above.
#[derive(Debug)]
pub struct WithInterpolatedField {
    pub name: String,
    pub value: InterpolatedEnum,
}

impl Bake for WithInterpolatedField {
    open spec fn tok_spec(&self) -> Seq<TokM> {
        item_path_m("WithInterpolatedField"@) + seq![
            TokM::Group(
                Delim::Brace,
                seq![TokM::Word("name"@), TokM::Mark(':')] + string_toks_m(self.name@) + seq![TokM::Mark(','), TokM::Word("value"@), TokM::Mark(':')] + self.value.tok_spec(),
            ),
        ]
    }

    proof fn tok_spec_wf(&self) {
    }

    fn to_stream(&self) -> (r: Tree) {
        let mut t = Tree::new();
        push_item_path(&mut t, "WithInterpolatedField");
        let mut inner = Tree::new();
        inner.push_word("name");
        inner.push_mark(':');
        inner.append(self.name.to_stream());
        inner.push_mark(',');
        inner.push_word("value");
        inner.push_mark(':');
        inner.append(self.value.to_stream());
        proof {
            assert(inner@ =~= seq![TokM::Word("name"@), TokM::Mark(':')] + string_toks_m(
                self.name@,
            ) + seq![TokM::Mark(','), TokM::Word("value"@), TokM::Mark(':')]
                + self.value.tok_spec());
        }
        t.push_group(Delim::Brace, inner);
        proof {
            assert(t@ =~= self.tok_spec());
        }
        t
    }
}

/// Mathematical model of a `WithInterpolatedField` value.
pub struct WithInterpolatedFieldV {
    pub name: Seq<char>,
    pub value: InterpolatedEnumV,
}

impl DeepView for WithInterpolatedField {
    type V = WithInterpolatedFieldV;

    open spec fn deep_view(&self) -> WithInterpolatedFieldV {
        WithInterpolatedFieldV { name: self.name@, value: self.value.deep_view() }
    }
}

impl BakeRoundTrip for WithInterpolatedField {
    open spec fn from_toks(ts: Seq<TokM>) -> Option<WithInterpolatedFieldV> {
        if ts.len() == 8 && ts.take(7) == item_path_m("WithInterpolatedField"@) {
            match ts[7] {
                TokM::Group(Delim::Brace, inner) => {
                    if inner.len() == 20 && inner[0] == TokM::Word("name"@) && inner[1]
                        == TokM::Mark(':') && inner[6] == TokM::Mark(',') && inner[7]
                        == TokM::Word("value"@) && inner[8] == TokM::Mark(':') && inner[3]
                        == TokM::Mark('.') && inner[4] == TokM::Word("to_owned"@) && inner[5]
                        == TokM::Group(Delim::Paren, Seq::<TokM>::empty()) {
                        match (inner[2], InterpolatedEnum::from_toks(inner.subrange(9, 20))) {
                            (TokM::LitStr(sq), Some(value)) => Some(
                                WithInterpolatedFieldV { name: sq, value },
                            ),
                            _ => None,
                        }
                    } else {
                        None
                    }
                },
                _ => None,
            }
        } else {
            None
        }
    }

    proof fn round_trip(&self) {
        self.value.round_trip();
        self.value.tok_spec_wf();
        assert(self.tok_spec().take(7) =~= item_path_m("WithInterpolatedField"@));
        let inner = self.tok_spec()[7]->Group_1;
        assert(self.value.tok_spec().len() == 11) by {
            match self.value {
                InterpolatedEnum::Integer(_) => {},
                InterpolatedEnum::String(_) => {},
            }
        }
        assert(inner.subrange(9, 20) =~= self.value.tok_spec());
    }
}

/// A JSON-like value whose every field is deferred-capable. The map is an
/// ordered sequence of key-value pairs, so the description of a value is a
/// function of the value alone.
#[derive(Debug, PartialEq)]
pub enum Json {
    Number(Interpolatable<i64>),
    Boolean(Interpolatable<bool>),
    String(Interpolatable<String>),
    List(Interpolatable<Vec<Json>>),
    Dict(Interpolatable<Vec<(String, Box<Json>)>>),
}

/// Mathematical model of a `Json` value.
pub enum JsonV {
    Number(InterpM<i64>),
    Boolean(InterpM<bool>),
    String(InterpM<Seq<char>>),
    List(InterpM<Seq<JsonV>>),
    Dict(InterpM<Seq<(Seq<char>, JsonV)>>),
}

pub open spec fn json_view(j: Json) -> JsonV
    decreases j,
{
    match j {
        Json::Number(x) => JsonV::Number(
            match x {
                Interpolatable::Inter(t) => InterpM::Inter(t@),
                Interpolatable::Actual(v) => InterpM::Actual(v),
            },
        ),
        Json::Boolean(x) => JsonV::Boolean(
            match x {
                Interpolatable::Inter(t) => InterpM::Inter(t@),
                Interpolatable::Actual(v) => InterpM::Actual(v),
            },
        ),
        Json::String(x) => JsonV::String(
            match x {
                Interpolatable::Inter(t) => InterpM::Inter(t@),
                Interpolatable::Actual(v) => InterpM::Actual(v@),
            },
        ),
        Json::List(x) => JsonV::List(
            match x {
                Interpolatable::Inter(t) => InterpM::Inter(t@),
                Interpolatable::Actual(v) => InterpM::Actual(jsons_view(v@)),
            },
        ),
        Json::Dict(x) => JsonV::Dict(
            match x {
                Interpolatable::Inter(t) => InterpM::Inter(t@),
                Interpolatable::Actual(v) => InterpM::Actual(jpairs_view(v@)),
            },
        ),
    }
}

pub open spec fn jsons_view(v: Seq<Json>) -> Seq<JsonV>
    decreases v,
{
    if v.len() == 0 {
        Seq::empty()
    } else {
        seq![json_view(v[0])] + jsons_view(v.drop_first())
    }
}

pub open spec fn jpairs_view(v: Seq<(String, Box<Json>)>) -> Seq<(Seq<char>, JsonV)>
    decreases v,
{
    if v.len() == 0 {
        Seq::empty()
    } else {
        seq![(v[0].0@, json_view(*v[0].1))] + jpairs_view(v.drop_first())
    }
}

impl DeepView for Json {
    type V = JsonV;

    open spec fn deep_view(&self) -> JsonV {
        json_view(*self)
    }
}

/// The description of one key-value pair: a parenthesized owned-key,
/// boxed-value tuple, in the trailing-comma tuple shape.
pub open spec fn jpair_toks_m(p: (String, Box<Json>)) -> Seq<TokM>
    decreases p,
{
    seq![
        TokM::Group(
            Delim::Paren,
            string_toks_m(p.0@) + seq![TokM::Mark(',')] + seq![
                TokM::Word("Box"@),
                TokM::Mark(':'),
                TokM::Mark(':'),
                TokM::Word("new"@),
                TokM::Group(Delim::Paren, json_toks(*p.1)),
            ] + seq![TokM::Mark(',')],
        ),
    ]
}

/// The exact description of a `Json` value: each variant reconstructs its
/// own path with its single field baked; a deferred field stands as its
/// fragment, verbatim.
pub open spec fn json_toks(j: Json) -> Seq<TokM>
    decreases j,
{
    match j {
        Json::Number(x) => variant_path_m("Json"@, "Number"@) + seq![
            TokM::Group(
                Delim::Paren,
                match x {
                    Interpolatable::Inter(t) => seq![t@],
                    Interpolatable::Actual(v) => seq![int_lit_m(v as int)],
                },
            ),
        ],
        Json::Boolean(x) => variant_path_m("Json"@, "Boolean"@) + seq![
            TokM::Group(
                Delim::Paren,
                match x {
                    Interpolatable::Inter(t) => seq![t@],
                    Interpolatable::Actual(v) => seq![TokM::LitBool(v)],
                },
            ),
        ],
        Json::String(x) => variant_path_m("Json"@, "String"@) + seq![
            TokM::Group(
                Delim::Paren,
                match x {
                    Interpolatable::Inter(t) => seq![t@],
                    Interpolatable::Actual(v) => string_toks_m(v@),
                },
            ),
        ],
        Json::List(x) => variant_path_m("Json"@, "List"@) + seq![
            TokM::Group(
                Delim::Paren,
                match x {
                    Interpolatable::Inter(t) => seq![t@],
                    Interpolatable::Actual(v) => seq![
                        TokM::Word("vec"@),
                        TokM::Mark('!'),
                        TokM::Group(Delim::Bracket, join_comma(json_elems_toks(v@))),
                    ],
                },
            ),
        ],
        Json::Dict(x) => variant_path_m("Json"@, "Dict"@) + seq![
            TokM::Group(
                Delim::Paren,
                match x {
                    Interpolatable::Inter(t) => seq![t@],
                    Interpolatable::Actual(v) => seq![
                        TokM::Word("vec"@),
                        TokM::Mark('!'),
                        TokM::Group(Delim::Bracket, join_comma(jpairs_toks(v@))),
                    ],
                },
            ),
        ],
    }
}

pub open spec fn json_elems_toks(v: Seq<Json>) -> Seq<Seq<TokM>>
    decreases v,
{
    if v.len() == 0 {
        Seq::empty()
    } else {
        seq![json_toks(v[0])] + json_elems_toks(v.drop_first())
    }
}

pub open spec fn jpairs_toks(v: Seq<(String, Box<Json>)>) -> Seq<Seq<TokM>>
    decreases v,
{
    if v.len() == 0 {
        Seq::empty()
    } else {
        seq![jpair_toks_m(v[0])] + jpairs_toks(v.drop_first())
    }
}

proof fn lemma_json_elems_toks_len(v: Seq<Json>)
    ensures
        json_elems_toks(v).len() == v.len(),
    decreases v,
{
    if v.len() > 0 {
        lemma_json_elems_toks_len(v.drop_first());
    }
}

proof fn lemma_jpairs_toks_len(v: Seq<(String, Box<Json>)>)
    ensures
        jpairs_toks(v).len() == v.len(),
    decreases v,
{
    if v.len() > 0 {
        lemma_jpairs_toks_len(v.drop_first());
    }
}

proof fn lemma_json_elems_toks_push(v: Seq<Json>, j: Json)
    ensures
        json_elems_toks(v.push(j)) == json_elems_toks(v) + seq![json_toks(j)],
    decreases v,
{
    if v.len() == 0 {
        assert(v.push(j)[0] == j);
        assert(v.push(j).drop_first() =~= Seq::<Json>::empty());
        assert(json_elems_toks(Seq::<Json>::empty()) =~= Seq::<Seq<TokM>>::empty());
        assert(json_elems_toks(v.push(j)) =~= json_elems_toks(v) + seq![json_toks(j)]);
    } else {
        assert(v.push(j).drop_first() =~= v.drop_first().push(j));
        lemma_json_elems_toks_push(v.drop_first(), j);
        assert(json_elems_toks(v.push(j)) =~= json_elems_toks(v) + seq![json_toks(j)]);
    }
}

proof fn lemma_jpairs_toks_push(v: Seq<(String, Box<Json>)>, p: (String, Box<Json>))
    ensures
        jpairs_toks(v.push(p)) == jpairs_toks(v) + seq![jpair_toks_m(p)],
    decreases v,
{
    if v.len() == 0 {
        assert(v.push(p)[0] == p);
        assert(v.push(p).drop_first() =~= Seq::<(String, Box<Json>)>::empty());
        assert(jpairs_toks(Seq::<(String, Box<Json>)>::empty()) =~= Seq::<Seq<TokM>>::empty());
        assert(jpairs_toks(v.push(p)) =~= jpairs_toks(v) + seq![jpair_toks_m(p)]);
    } else {
        assert(v.push(p).drop_first() =~= v.drop_first().push(p));
        lemma_jpairs_toks_push(v.drop_first(), p);
        assert(jpairs_toks(v.push(p)) =~= jpairs_toks(v) + seq![jpair_toks_m(p)]);
    }
}

impl Json {
    /// Describes the value as reconstruction syntax.
    #[verifier::loop_isolation(false)]
    fn stream(&self) -> (r: Tree)
        ensures
            r@ == json_toks(*self),
        decreases self,
    {
        let mut t = Tree::new();
        match self {
            Json::Number(x) => {
                push_variant_path(&mut t, "Json", "Number");
                let mut inner = Tree::new();
                match x {
                    Interpolatable::Inter(tr) => {
                        inner.push(tr.deep_clone());
                    },
                    Interpolatable::Actual(v) => {
                        inner.append(v.to_stream());
                    },
                }
                t.push_group(Delim::Paren, inner);
            },
            Json::Boolean(x) => {
                push_variant_path(&mut t, "Json", "Boolean");
                let mut inner = Tree::new();
                match x {
                    Interpolatable::Inter(tr) => {
                        inner.push(tr.deep_clone());
                    },
                    Interpolatable::Actual(v) => {
                        inner.append(v.to_stream());
                    },
                }
                t.push_group(Delim::Paren, inner);
            },
            Json::String(x) => {
                push_variant_path(&mut t, "Json", "String");
                let mut inner = Tree::new();
                match x {
                    Interpolatable::Inter(tr) => {
                        inner.push(tr.deep_clone());
                    },
                    Interpolatable::Actual(v) => {
                        inner.append(v.to_stream());
                    },
                }
                t.push_group(Delim::Paren, inner);
            },
            Json::List(x) => {
                push_variant_path(&mut t, "Json", "List");
                let mut inner = Tree::new();
                match x {
                    Interpolatable::Inter(tr) => {
                        inner.push(tr.deep_clone());
                    },
                    Interpolatable::Actual(v) => {
                        let mut elems = Tree::new();
                        let mut i: usize = 0;
                        while i < v.len()
                            invariant
                                i <= v.len(),
                                elems@ == join_comma(json_elems_toks(v@.take(i as int))),
                            decreases v.len() - i,
                        {
                            proof {
                                lemma_json_elems_toks_len(v@.take(i as int));
                                lemma_json_elems_toks_push(v@.take(i as int), v@[i as int]);
                                assert(json_elems_toks(v@.take(i as int)).push(
                                    json_toks(v@[i as int]),
                                ) =~= json_elems_toks(v@.take(i as int)) + seq![
                                    json_toks(v@[i as int]),
                                ]);
                                assert(v@.take(i as int).push(v@[i as int]) =~= v@.take(
                                    i as int + 1,
                                ));
                                lemma_join_comma_push(
                                    json_elems_toks(v@.take(i as int)),
                                    json_toks(v@[i as int]),
                                );
                                assert(decreases_to!(*v => v@));
                                assert(decreases_to!(v@ => v@[i as int]));
                            }
                            if i > 0 {
                                elems.push_mark(',');
                            }
                            let e = v[i].stream();
                            elems.append(e);
                            proof {
                                if i == 0 {
                                    assert(json_elems_toks(v@.take(0)).len() == 0);
                                }
                                assert(elems@ =~= join_comma(
                                    json_elems_toks(v@.take(i as int + 1)),
                                ));
                            }
                            i = i + 1;
                        }
                        proof {
                            assert(v@.take(v@.len() as int) =~= v@);
                        }
                        inner.push_word("vec");
                        inner.push_mark('!');
                        inner.push_group(Delim::Bracket, elems);
                        proof {
                            assert(inner@ =~= seq![
                                TokM::Word("vec"@),
                                TokM::Mark('!'),
                                TokM::Group(Delim::Bracket, join_comma(json_elems_toks(v@))),
                            ]);
                        }
                    },
                }
                t.push_group(Delim::Paren, inner);
            },
            Json::Dict(x) => {
                push_variant_path(&mut t, "Json", "Dict");
                let mut inner = Tree::new();
                match x {
                    Interpolatable::Inter(tr) => {
                        inner.push(tr.deep_clone());
                    },
                    Interpolatable::Actual(v) => {
                        let mut elems = Tree::new();
                        let mut i: usize = 0;
                        while i < v.len()
                            invariant
                                i <= v.len(),
                                elems@ == join_comma(jpairs_toks(v@.take(i as int))),
                            decreases v.len() - i,
                        {
                            proof {
                                lemma_jpairs_toks_len(v@.take(i as int));
                                lemma_jpairs_toks_push(v@.take(i as int), v@[i as int]);
                                assert(jpairs_toks(v@.take(i as int)).push(
                                    jpair_toks_m(v@[i as int]),
                                ) =~= jpairs_toks(v@.take(i as int)) + seq![
                                    jpair_toks_m(v@[i as int]),
                                ]);
                                assert(v@.take(i as int).push(v@[i as int]) =~= v@.take(
                                    i as int + 1,
                                ));
                                lemma_join_comma_push(
                                    jpairs_toks(v@.take(i as int)),
                                    jpair_toks_m(v@[i as int]),
                                );
                                assert(decreases_to!(*v => v@));
                                assert(decreases_to!(v@ => v@[i as int]));
                                assert(decreases_to!(v@[i as int] => v@[i as int].1));
                            }
                            if i > 0 {
                                elems.push_mark(',');
                            }
                            let mut pair = Tree::new();
                            pair.append(v[i].0.to_stream());
                            pair.push_mark(',');
                            pair.push_word("Box");
                            pair.push_mark(':');
                            pair.push_mark(':');
                            pair.push_word("new");
                            let e = v[i].1.stream();
                            pair.push_group(Delim::Paren, e);
                            pair.push_mark(',');
                            proof {
                                assert(pair@ =~= string_toks_m(v@[i as int].0@) + seq![
                                    TokM::Mark(','),
                                ] + seq![
                                    TokM::Word("Box"@),
                                    TokM::Mark(':'),
                                    TokM::Mark(':'),
                                    TokM::Word("new"@),
                                    TokM::Group(Delim::Paren, json_toks(*v@[i as int].1)),
                                ] + seq![TokM::Mark(',')]);
                            }
                            let mut pg = Tree::new();
                            pg.push_group(Delim::Paren, pair);
                            proof {
                                assert(pg@ =~= jpair_toks_m(v@[i as int]));
                            }
                            elems.append(pg);
                            proof {
                                if i == 0 {
                                    assert(jpairs_toks(v@.take(0)).len() == 0);
                                }
                                assert(elems@ =~= join_comma(jpairs_toks(v@.take(i as int + 1))));
                            }
                            i = i + 1;
                        }
                        proof {
                            assert(v@.take(v@.len() as int) =~= v@);
                        }
                        inner.push_word("vec");
                        inner.push_mark('!');
                        inner.push_group(Delim::Bracket, elems);
                        proof {
                            assert(inner@ =~= seq![
                                TokM::Word("vec"@),
                                TokM::Mark('!'),
                                TokM::Group(Delim::Bracket, join_comma(jpairs_toks(v@))),
                            ]);
                        }
                    },
                }
                t.push_group(Delim::Paren, inner);
            },
        }
        proof {
            assert(t@ =~= json_toks(*self));
        }
        t
    }

    /// Whether the value counts as true: nonzero, nonempty, or plainly
    /// true. Defined only where the matched payload is concretely known.
    pub fn truthyness(&self) -> (r: bool)
        requires
            json_payload_known(*self),
        ensures
            r == json_truthyness_m(*self),
    {
        match self {
            Json::Number(x) => match x {
                Interpolatable::Actual(v) => *v != 0,
                Interpolatable::Inter(_) => vstd::pervasive::unreached(),
            },
            Json::Boolean(x) => match x {
                Interpolatable::Actual(v) => *v,
                Interpolatable::Inter(_) => vstd::pervasive::unreached(),
            },
            Json::String(x) => match x {
                Interpolatable::Actual(v) => v.as_str().unicode_len() > 0,
                Interpolatable::Inter(_) => vstd::pervasive::unreached(),
            },
            Json::List(x) => match x {
                Interpolatable::Actual(v) => v.len() > 0,
                Interpolatable::Inter(_) => vstd::pervasive::unreached(),
            },
            Json::Dict(x) => match x {
                Interpolatable::Actual(v) => v.len() > 0,
                Interpolatable::Inter(_) => vstd::pervasive::unreached(),
            },
        }
    }
}

/// The matched payload of the value is concretely known.
pub open spec fn json_payload_known(j: Json) -> bool {
    match j {
        Json::Number(x) => x is Actual,
        Json::Boolean(x) => x is Actual,
        Json::String(x) => x is Actual,
        Json::List(x) => x is Actual,
        Json::Dict(x) => x is Actual,
    }
}

/// What `truthyness` returns for each shape of known payload.
pub open spec fn json_truthyness_m(j: Json) -> bool {
    match j {
        Json::Number(x) => x->Actual_0 != 0,
        Json::Boolean(x) => x->Actual_0,
        Json::String(x) => x->Actual_0@.len() > 0,
        Json::List(x) => x->Actual_0@.len() > 0,
        Json::Dict(x) => x->Actual_0@.len() > 0,
    }
}

/// Every payload of the value is concretely known, recursively.
pub open spec fn json_fully_known(j: Json) -> bool
    decreases j,
{
    match j {
        Json::Number(x) => x is Actual,
        Json::Boolean(x) => x is Actual,
        Json::String(x) => x is Actual,
        Json::List(x) => x is Actual && jsons_fully_known(x->Actual_0@),
        Json::Dict(x) => x is Actual && jpairs_fully_known(x->Actual_0@),
    }
}

pub open spec fn jsons_fully_known(v: Seq<Json>) -> bool
    decreases v,
{
    v.len() == 0 || (json_fully_known(v[0]) && jsons_fully_known(v.drop_first()))
}

pub open spec fn jpairs_fully_known(v: Seq<(String, Box<Json>)>) -> bool
    decreases v,
{
    v.len() == 0 || (json_fully_known(*v[0].1) && jpairs_fully_known(v.drop_first()))
}

proof fn lemma_jsons_fully_known_index(v: Seq<Json>, i: int)
    requires
        jsons_fully_known(v),
        0 <= i < v.len(),
    ensures
        json_fully_known(v[i]),
    decreases v,
{
    if i > 0 {
        lemma_jsons_fully_known_index(v.drop_first(), i - 1);
    }
}

proof fn lemma_jpairs_fully_known_index(v: Seq<(String, Box<Json>)>, i: int)
    requires
        jpairs_fully_known(v),
        0 <= i < v.len(),
    ensures
        json_fully_known(*v[i].1),
    decreases v,
{
    if i > 0 {
        lemma_jpairs_fully_known_index(v.drop_first(), i - 1);
    }
}

proof fn lemma_json_elems_toks_index(v: Seq<Json>, i: int)
    requires
        0 <= i < v.len(),
    ensures
        json_elems_toks(v).len() == v.len(),
        json_elems_toks(v)[i] == json_toks(v[i]),
    decreases v,
{
    lemma_json_elems_toks_len(v);
    if i > 0 {
        lemma_json_elems_toks_index(v.drop_first(), i - 1);
    }
}

proof fn lemma_jpairs_toks_index(v: Seq<(String, Box<Json>)>, i: int)
    requires
        0 <= i < v.len(),
    ensures
        jpairs_toks(v).len() == v.len(),
        jpairs_toks(v)[i] == jpair_toks_m(v[i]),
    decreases v,
{
    lemma_jpairs_toks_len(v);
    if i > 0 {
        lemma_jpairs_toks_index(v.drop_first(), i - 1);
    }
}

proof fn lemma_json_toks_wf(j: Json)
    ensures
        json_toks(j).len() > 0,
        crate::bake::comma_free(json_toks(j)),
{
}

proof fn lemma_jsons_view_index(v: Seq<Json>, i: int)
    requires
        0 <= i < v.len(),
    ensures
        jsons_view(v).len() == v.len(),
        jsons_view(v)[i] == json_view(v[i]),
    decreases v,
{
    if v.len() > 0 {
        if i > 0 {
            lemma_jsons_view_index(v.drop_first(), i - 1);
        } else {
            lemma_jsons_view_len(v.drop_first());
        }
    }
}

proof fn lemma_jsons_view_len(v: Seq<Json>)
    ensures
        jsons_view(v).len() == v.len(),
    decreases v,
{
    if v.len() > 0 {
        lemma_jsons_view_len(v.drop_first());
    }
}

proof fn lemma_jpairs_view_index(v: Seq<(String, Box<Json>)>, i: int)
    requires
        0 <= i < v.len(),
    ensures
        jpairs_view(v).len() == v.len(),
        jpairs_view(v)[i] == (v[i].0@, json_view(*v[i].1)),
    decreases v,
{
    if v.len() > 0 {
        if i > 0 {
            lemma_jpairs_view_index(v.drop_first(), i - 1);
        } else {
            lemma_jpairs_view_len(v.drop_first());
        }
    }
}

proof fn lemma_jpairs_view_len(v: Seq<(String, Box<Json>)>)
    ensures
        jpairs_view(v).len() == v.len(),
    decreases v,
{
    if v.len() > 0 {
        lemma_jpairs_view_len(v.drop_first());
    }
}

/// The variant word of a value's description.
pub open spec fn json_variant_name(j: Json) -> Seq<char> {
    match j {
        Json::Number(_) => "Number"@,
        Json::Boolean(_) => "Boolean"@,
        Json::String(_) => "String"@,
        Json::List(_) => "List"@,
        Json::Dict(_) => "Dict"@,
    }
}

/// The tokens inside the payload group of a value's description.
pub open spec fn json_payload_toks(j: Json) -> Seq<TokM> {
    match j {
        Json::Number(x) => match x {
            Interpolatable::Inter(t) => seq![t@],
            Interpolatable::Actual(v) => seq![int_lit_m(v as int)],
        },
        Json::Boolean(x) => match x {
            Interpolatable::Inter(t) => seq![t@],
            Interpolatable::Actual(v) => seq![TokM::LitBool(v)],
        },
        Json::String(x) => match x {
            Interpolatable::Inter(t) => seq![t@],
            Interpolatable::Actual(v) => string_toks_m(v@),
        },
        Json::List(x) => match x {
            Interpolatable::Inter(t) => seq![t@],
            Interpolatable::Actual(v) => seq![
                TokM::Word("vec"@),
                TokM::Mark('!'),
                TokM::Group(Delim::Bracket, join_comma(json_elems_toks(v@))),
            ],
        },
        Json::Dict(x) => match x {
            Interpolatable::Inter(t) => seq![t@],
            Interpolatable::Actual(v) => seq![
                TokM::Word("vec"@),
                TokM::Mark('!'),
                TokM::Group(Delim::Bracket, join_comma(jpairs_toks(v@))),
            ],
        },
    }
}

proof fn lemma_json_toks_parts(j: Json)
    ensures
        json_toks(j).len() == 11,
        json_toks(j)[9] == TokM::Word(json_variant_name(j)),
        json_toks(j)[10] == TokM::Group(Delim::Paren, json_payload_toks(j)),
{
    assert(json_toks(j) =~= variant_path_m("Json"@, json_variant_name(j)) + seq![
        TokM::Group(Delim::Paren, json_payload_toks(j)),
    ]);
}

/// On fully known values the description determines the value: two known
/// values with the same description have the same model. A deferred
/// fragment can spell the very tokens of a known value, so the guarantee
/// cannot extend to deferred payloads.
pub proof fn lemma_json_known_round_trip(a: Json, b: Json)
    requires
        json_fully_known(a),
        json_fully_known(b),
        json_toks(a) == json_toks(b),
    ensures
        json_view(a) == json_view(b),
    decreases a,
{
    reveal_strlit("Number");
    reveal_strlit("Boolean");
    reveal_strlit("String");
    reveal_strlit("List");
    reveal_strlit("Dict");
    assert("Number"@ != "Boolean"@ && "Number"@ != "String"@ && "Number"@ != "List"@ && "Number"@
        != "Dict"@ && "Boolean"@ != "String"@ && "Boolean"@ != "List"@ && "Boolean"@ != "Dict"@
        && "String"@ != "List"@ && "String"@ != "Dict"@ && "List"@ != "Dict"@) by {
        assert("Number"@.len() == 6);
        assert("Boolean"@.len() == 7);
        assert("String"@.len() == 6);
        assert("List"@.len() == 4);
        assert("Dict"@.len() == 4);
        assert("Number"@[0] == 'N');
        assert("String"@[0] == 'S');
        assert("List"@[0] == 'L');
        assert("Dict"@[0] == 'D');
    }
    lemma_json_toks_parts(a);
    lemma_json_toks_parts(b);
    assert(json_variant_name(a) == json_variant_name(b));
    assert(json_payload_toks(a) == json_payload_toks(b));
    match (a, b) {
        (Json::List(xa), Json::List(xb)) => {
            let va = xa->Actual_0;
            let vb = xb->Actual_0;
            assert(join_comma(json_elems_toks(va@)) == join_comma(json_elems_toks(vb@)));
            assert(crate::bake::parts_wf(json_elems_toks(va@))) by {
                assert forall|i: int|
                    0 <= i < json_elems_toks(va@).len() implies (#[trigger] json_elems_toks(
                    va@,
                )[i]).len() > 0 && crate::bake::comma_free(json_elems_toks(va@)[i]) by {
                    lemma_json_elems_toks_len(va@);
                    lemma_json_elems_toks_index(va@, i);
                    lemma_json_toks_wf(va@[i]);
                }
            }
            assert(crate::bake::parts_wf(json_elems_toks(vb@))) by {
                assert forall|i: int|
                    0 <= i < json_elems_toks(vb@).len() implies (#[trigger] json_elems_toks(
                    vb@,
                )[i]).len() > 0 && crate::bake::comma_free(json_elems_toks(vb@)[i]) by {
                    lemma_json_elems_toks_len(vb@);
                    lemma_json_elems_toks_index(vb@, i);
                    lemma_json_toks_wf(vb@[i]);
                }
            }
            lemma_json_elems_toks_len(va@);
            lemma_json_elems_toks_len(vb@);
            crate::bake::lemma_split_join(json_elems_toks(va@));
            crate::bake::lemma_split_join(json_elems_toks(vb@));
            assert(json_elems_toks(va@) == json_elems_toks(vb@));
            assert forall|i: int| 0 <= i < va@.len() implies jsons_view(va@)[i] == jsons_view(
                vb@,
            )[i] by {
                lemma_json_elems_toks_index(va@, i);
                lemma_json_elems_toks_index(vb@, i);
                lemma_jsons_fully_known_index(va@, i);
                lemma_jsons_fully_known_index(vb@, i);
                assert(decreases_to!(a => xa));
                assert(decreases_to!(xa => va));
                assert(decreases_to!(va => va@));
                assert(decreases_to!(va@ => va@[i]));
                lemma_json_known_round_trip(va@[i], vb@[i]);
                lemma_jsons_view_index(va@, i);
                lemma_jsons_view_index(vb@, i);
            }
            lemma_jsons_view_len(va@);
            lemma_jsons_view_len(vb@);
            assert(jsons_view(va@) =~= jsons_view(vb@));
        },
        (Json::Dict(xa), Json::Dict(xb)) => {
            let va = xa->Actual_0;
            let vb = xb->Actual_0;
            assert(join_comma(jpairs_toks(va@)) == join_comma(jpairs_toks(vb@)));
            assert(crate::bake::parts_wf(jpairs_toks(va@))) by {
                assert forall|i: int|
                    0 <= i < jpairs_toks(va@).len() implies (#[trigger] jpairs_toks(
                    va@,
                )[i]).len() > 0 && crate::bake::comma_free(jpairs_toks(va@)[i]) by {
                    lemma_jpairs_toks_len(va@);
                    lemma_jpairs_toks_index(va@, i);
                }
            }
            assert(crate::bake::parts_wf(jpairs_toks(vb@))) by {
                assert forall|i: int|
                    0 <= i < jpairs_toks(vb@).len() implies (#[trigger] jpairs_toks(
                    vb@,
                )[i]).len() > 0 && crate::bake::comma_free(jpairs_toks(vb@)[i]) by {
                    lemma_jpairs_toks_len(vb@);
                    lemma_jpairs_toks_index(vb@, i);
                }
            }
            lemma_jpairs_toks_len(va@);
            lemma_jpairs_toks_len(vb@);
            crate::bake::lemma_split_join(jpairs_toks(va@));
            crate::bake::lemma_split_join(jpairs_toks(vb@));
            assert(jpairs_toks(va@) == jpairs_toks(vb@));
            assert forall|i: int| 0 <= i < va@.len() implies jpairs_view(va@)[i] == jpairs_view(
                vb@,
            )[i] by {
                lemma_jpairs_toks_index(va@, i);
                lemma_jpairs_toks_index(vb@, i);
                lemma_jpairs_fully_known_index(va@, i);
                lemma_jpairs_fully_known_index(vb@, i);
                assert(jpair_toks_m(va@[i]) == jpair_toks_m(vb@[i]));
                assert(jpair_toks_m(va@[i])[0]->Group_1[9]->Group_1 == json_toks(*va@[i].1));
                assert(jpair_toks_m(vb@[i])[0]->Group_1[9]->Group_1 == json_toks(*vb@[i].1));
                assert(jpair_toks_m(va@[i])[0]->Group_1[0] == TokM::LitStr(va@[i].0@));
                assert(decreases_to!(a => xa));
                assert(decreases_to!(xa => va));
                assert(decreases_to!(va => va@));
                assert(decreases_to!(va@ => va@[i]));
                assert(decreases_to!(va@[i] => va@[i].1));
                lemma_json_known_round_trip(*va@[i].1, *vb@[i].1);
                lemma_jpairs_view_index(va@, i);
                lemma_jpairs_view_index(vb@, i);
            }
            lemma_jpairs_view_len(va@);
            lemma_jpairs_view_len(vb@);
            assert(jpairs_view(va@) =~= jpairs_view(vb@));
        },
        (Json::Number(xa), Json::Number(xb)) => {
            let va = xa->Actual_0;
            let vb = xb->Actual_0;
            assert(json_payload_toks(a)[0] == json_payload_toks(b)[0]);
            assert(int_lit_m(va as int) == int_lit_m(vb as int));
            if va >= 0 && vb >= 0 {
                assert(va == vb);
            } else if va < 0 && vb < 0 {
                assert(va == vb);
            }
        },
        (Json::Boolean(xa), Json::Boolean(xb)) => {
            assert(json_payload_toks(a)[0] == json_payload_toks(b)[0]);
        },
        (Json::String(xa), Json::String(xb)) => {
            assert(json_payload_toks(a)[0] == json_payload_toks(b)[0]);
        },
        _ => {
            assert(false);
        },
    }
}

impl Bake for Json {
    open spec fn tok_spec(&self) -> Seq<TokM> {
        json_toks(*self)
    }

    proof fn tok_spec_wf(&self) {
    }

    fn to_stream(&self) -> (r: Tree) {
        self.stream()
    }
}

impl From<bool> for Json {
    fn from(value: bool) -> (r: Self) {
        Json::Boolean(Interpolatable::Actual(value))
    }
}

impl vstd::std_specs::convert::FromSpecImpl<bool> for Json {
    open spec fn obeys_from_spec() -> bool {
        true
    }

    open spec fn from_spec(value: bool) -> Self {
        Json::Boolean(Interpolatable::Actual(value))
    }
}

} // verus!
