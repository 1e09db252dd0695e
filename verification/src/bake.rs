//! The syntax-value protocol: a type describes a value of itself as a token
//! sequence that, compiled as an expression, reconstructs an equal value.
//!
//! `Bake` pins the exact token sequence through `tok_spec`. `BakeRoundTrip`
//! additionally carries the partial inverse `from_toks` together with a proof
//! that the description determines the described value.

use vstd::prelude::*;

use crate::tokens::{Delim, Tok, TokM, Tree};

verus! {

/// No token at the top level of `ts` is a comma mark.
pub open spec fn comma_free(ts: Seq<TokM>) -> bool {
    forall|i: int| 0 <= i < ts.len() ==> ts[i] != TokM::Mark(',')
}

/// The capability of describing a value as reconstruction syntax.
pub trait Bake: Sized {
    /// The exact token sequence describing `self`.
    spec fn tok_spec(&self) -> Seq<TokM>;

    /// A description is one nonempty expression with no top-level comma, so
    /// it can stand unbracketed as one element of a comma-separated list.
    proof fn tok_spec_wf(&self)
        ensures
            self.tok_spec().len() > 0,
            comma_free(self.tok_spec()),
    ;

    /// Describes `self` as a syntax tree.
    fn to_stream(&self) -> (r: Tree)
        ensures
            r@ == self.tok_spec(),
    ;

    /// Describes `self` wrapped in a brace group, so the description can be
    /// used as a single sub-expression inside any larger expression.
    fn to_token_tree(&self) -> (r: Tok)
        ensures
            r@ == TokM::Group(Delim::Brace, self.tok_spec()),
    {
        let s = self.to_stream();
        Tok::Group(Delim::Brace, s.toks)
    }
}

/// The capability of turning a value into syntax whether it is a plain
/// reconstructible value or an interpolatable one; every `Bake` type bakes
/// as its own description.
pub trait Bakeable {
    /// The exact token sequence `bake` produces.
    spec fn bake_spec(&self) -> Seq<TokM>;

    /// Turns the value into a syntax tree.
    fn bake(&self) -> (r: Tree)
        ensures
            r@ == self.bake_spec(),
    ;
}

impl<T: Bake> Bakeable for T {
    open spec fn bake_spec(&self) -> Seq<TokM> {
        self.tok_spec()
    }

    fn bake(&self) -> (r: Tree) {
        self.to_stream()
    }
}

/// A description from which the described value can be read back: baking is
/// injective for such a type, which is the round-trip guarantee.
pub trait BakeRoundTrip: Bake + DeepView {
    /// Partial inverse of `tok_spec`, at the level of value models.
    spec fn from_toks(ts: Seq<TokM>) -> Option<Self::V>;

    /// The description of a value determines that value.
    proof fn round_trip(&self)
        ensures
            Self::from_toks(self.tok_spec()) == Some(self.deep_view()),
    ;
}

/// The literal token denoting the integer `v`.
pub open spec fn int_lit_m(v: int) -> TokM {
    if v >= 0 {
        TokM::LitInt { neg: false, mag: v as u128 }
    } else {
        TokM::LitInt { neg: true, mag: (-v) as u128 }
    }
}

/// The integer denoted by a sign-and-magnitude literal.
pub open spec fn int_lit_value(neg: bool, mag: u128) -> int {
    if neg {
        -(mag as int)
    } else {
        mag as int
    }
}

/// Reads `ts` back as a single integer literal in `[lo, hi]`.
pub open spec fn int_from_toks(ts: Seq<TokM>, lo: int, hi: int) -> Option<int> {
    if ts.len() == 1 {
        match ts[0] {
            TokM::LitInt { neg, mag } => if lo <= int_lit_value(neg, mag) <= hi {
                Some(int_lit_value(neg, mag))
            } else {
                None
            },
            _ => None,
        }
    } else {
        None
    }
}

impl Bake for u8 {
    open spec fn tok_spec(&self) -> Seq<TokM> {
        seq![int_lit_m(*self as int)]
    }

    proof fn tok_spec_wf(&self) {
    }

    fn to_stream(&self) -> (r: Tree) {
        let mut t = Tree::new();
        t.push(Tok::LitInt { neg: false, mag: *self as u128 });
        t
    }
}

impl BakeRoundTrip for u8 {
    open spec fn from_toks(ts: Seq<TokM>) -> Option<u8> {
        match int_from_toks(ts, 0, u8::MAX as int) {
            Some(v) => Some(v as u8),
            None => None,
        }
    }

    proof fn round_trip(&self) {
    }
}

impl Bake for u16 {
    open spec fn tok_spec(&self) -> Seq<TokM> {
        seq![int_lit_m(*self as int)]
    }

    proof fn tok_spec_wf(&self) {
    }

    fn to_stream(&self) -> (r: Tree) {
        let mut t = Tree::new();
        t.push(Tok::LitInt { neg: false, mag: *self as u128 });
        t
    }
}

impl BakeRoundTrip for u16 {
    open spec fn from_toks(ts: Seq<TokM>) -> Option<u16> {
        match int_from_toks(ts, 0, u16::MAX as int) {
            Some(v) => Some(v as u16),
            None => None,
        }
    }

    proof fn round_trip(&self) {
    }
}

impl Bake for u32 {
    open spec fn tok_spec(&self) -> Seq<TokM> {
        seq![int_lit_m(*self as int)]
    }

    proof fn tok_spec_wf(&self) {
    }

    fn to_stream(&self) -> (r: Tree) {
        let mut t = Tree::new();
        t.push(Tok::LitInt { neg: false, mag: *self as u128 });
        t
    }
}

impl BakeRoundTrip for u32 {
    open spec fn from_toks(ts: Seq<TokM>) -> Option<u32> {
        match int_from_toks(ts, 0, u32::MAX as int) {
            Some(v) => Some(v as u32),
            None => None,
        }
    }

    proof fn round_trip(&self) {
    }
}

impl Bake for u64 {
    open spec fn tok_spec(&self) -> Seq<TokM> {
        seq![int_lit_m(*self as int)]
    }

    proof fn tok_spec_wf(&self) {
    }

    fn to_stream(&self) -> (r: Tree) {
        let mut t = Tree::new();
        t.push(Tok::LitInt { neg: false, mag: *self as u128 });
        t
    }
}

impl BakeRoundTrip for u64 {
    open spec fn from_toks(ts: Seq<TokM>) -> Option<u64> {
        match int_from_toks(ts, 0, u64::MAX as int) {
            Some(v) => Some(v as u64),
            None => None,
        }
    }

    proof fn round_trip(&self) {
    }
}

impl Bake for u128 {
    open spec fn tok_spec(&self) -> Seq<TokM> {
        seq![int_lit_m(*self as int)]
    }

    proof fn tok_spec_wf(&self) {
    }

    fn to_stream(&self) -> (r: Tree) {
        let mut t = Tree::new();
        t.push(Tok::LitInt { neg: false, mag: *self as u128 });
        t
    }
}

impl BakeRoundTrip for u128 {
    open spec fn from_toks(ts: Seq<TokM>) -> Option<u128> {
        match int_from_toks(ts, 0, u128::MAX as int) {
            Some(v) => Some(v as u128),
            None => None,
        }
    }

    proof fn round_trip(&self) {
    }
}

impl Bake for usize {
    open spec fn tok_spec(&self) -> Seq<TokM> {
        seq![int_lit_m(*self as int)]
    }

    proof fn tok_spec_wf(&self) {
    }

    fn to_stream(&self) -> (r: Tree) {
        let mut t = Tree::new();
        t.push(Tok::LitInt { neg: false, mag: *self as u128 });
        t
    }
}

impl BakeRoundTrip for usize {
    open spec fn from_toks(ts: Seq<TokM>) -> Option<usize> {
        match int_from_toks(ts, 0, usize::MAX as int) {
            Some(v) => Some(v as usize),
            None => None,
        }
    }

    proof fn round_trip(&self) {
    }
}

impl Bake for i8 {
    open spec fn tok_spec(&self) -> Seq<TokM> {
        seq![int_lit_m(*self as int)]
    }

    proof fn tok_spec_wf(&self) {
    }

    fn to_stream(&self) -> (r: Tree) {
        let mut t = Tree::new();
        if *self >= 0 {
            t.push(Tok::LitInt { neg: false, mag: *self as u128 });
        } else {
            t.push(Tok::LitInt { neg: true, mag: (-(*self as i128)) as u128 });
        }
        t
    }
}

impl BakeRoundTrip for i8 {
    open spec fn from_toks(ts: Seq<TokM>) -> Option<i8> {
        match int_from_toks(ts, i8::MIN as int, i8::MAX as int) {
            Some(v) => Some(v as i8),
            None => None,
        }
    }

    proof fn round_trip(&self) {
    }
}

impl Bake for i16 {
    open spec fn tok_spec(&self) -> Seq<TokM> {
        seq![int_lit_m(*self as int)]
    }

    proof fn tok_spec_wf(&self) {
    }

    fn to_stream(&self) -> (r: Tree) {
        let mut t = Tree::new();
        if *self >= 0 {
            t.push(Tok::LitInt { neg: false, mag: *self as u128 });
        } else {
            t.push(Tok::LitInt { neg: true, mag: (-(*self as i128)) as u128 });
        }
        t
    }
}

impl BakeRoundTrip for i16 {
    open spec fn from_toks(ts: Seq<TokM>) -> Option<i16> {
        match int_from_toks(ts, i16::MIN as int, i16::MAX as int) {
            Some(v) => Some(v as i16),
            None => None,
        }
    }

    proof fn round_trip(&self) {
    }
}

impl Bake for i32 {
    open spec fn tok_spec(&self) -> Seq<TokM> {
        seq![int_lit_m(*self as int)]
    }

    proof fn tok_spec_wf(&self) {
    }

    fn to_stream(&self) -> (r: Tree) {
        let mut t = Tree::new();
        if *self >= 0 {
            t.push(Tok::LitInt { neg: false, mag: *self as u128 });
        } else {
            t.push(Tok::LitInt { neg: true, mag: (-(*self as i128)) as u128 });
        }
        t
    }
}

impl BakeRoundTrip for i32 {
    open spec fn from_toks(ts: Seq<TokM>) -> Option<i32> {
        match int_from_toks(ts, i32::MIN as int, i32::MAX as int) {
            Some(v) => Some(v as i32),
            None => None,
        }
    }

    proof fn round_trip(&self) {
    }
}

impl Bake for i64 {
    open spec fn tok_spec(&self) -> Seq<TokM> {
        seq![int_lit_m(*self as int)]
    }

    proof fn tok_spec_wf(&self) {
    }

    fn to_stream(&self) -> (r: Tree) {
        let mut t = Tree::new();
        if *self >= 0 {
            t.push(Tok::LitInt { neg: false, mag: *self as u128 });
        } else {
            t.push(Tok::LitInt { neg: true, mag: (-(*self as i128)) as u128 });
        }
        t
    }
}

impl BakeRoundTrip for i64 {
    open spec fn from_toks(ts: Seq<TokM>) -> Option<i64> {
        match int_from_toks(ts, i64::MIN as int, i64::MAX as int) {
            Some(v) => Some(v as i64),
            None => None,
        }
    }

    proof fn round_trip(&self) {
    }
}

impl Bake for isize {
    open spec fn tok_spec(&self) -> Seq<TokM> {
        seq![int_lit_m(*self as int)]
    }

    proof fn tok_spec_wf(&self) {
    }

    fn to_stream(&self) -> (r: Tree) {
        let mut t = Tree::new();
        if *self >= 0 {
            t.push(Tok::LitInt { neg: false, mag: *self as u128 });
        } else {
            t.push(Tok::LitInt { neg: true, mag: (-(*self as i128)) as u128 });
        }
        t
    }
}

impl BakeRoundTrip for isize {
    open spec fn from_toks(ts: Seq<TokM>) -> Option<isize> {
        match int_from_toks(ts, isize::MIN as int, isize::MAX as int) {
            Some(v) => Some(v as isize),
            None => None,
        }
    }

    proof fn round_trip(&self) {
    }
}

impl Bake for i128 {
    open spec fn tok_spec(&self) -> Seq<TokM> {
        seq![int_lit_m(*self as int)]
    }

    proof fn tok_spec_wf(&self) {
    }

    fn to_stream(&self) -> (r: Tree) {
        let mut t = Tree::new();
        if *self >= 0 {
            t.push(Tok::LitInt { neg: false, mag: *self as u128 });
        } else if *self == i128::MIN {
            t.push(Tok::LitInt { neg: true, mag: 170141183460469231731687303715884105728u128 });
        } else {
            t.push(Tok::LitInt { neg: true, mag: (-*self) as u128 });
        }
        t
    }
}

impl BakeRoundTrip for i128 {
    open spec fn from_toks(ts: Seq<TokM>) -> Option<i128> {
        match int_from_toks(ts, i128::MIN as int, i128::MAX as int) {
            Some(v) => Some(v as i128),
            None => None,
        }
    }

    proof fn round_trip(&self) {
    }
}


impl Bake for String {
    open spec fn tok_spec(&self) -> Seq<TokM> {
        seq![
            TokM::LitStr(self@),
            TokM::Mark('.'),
            TokM::Word("to_owned"@),
            TokM::Group(Delim::Paren, Seq::empty()),
        ]
    }

    proof fn tok_spec_wf(&self) {
    }

    fn to_stream(&self) -> (r: Tree) {
        let mut t = Tree::new();
        t.push(Tok::LitStr(self.clone()));
        t.push_mark('.');
        t.push_word("to_owned");
        t.push_group(Delim::Paren, Tree::new());
        t
    }
}

impl BakeRoundTrip for String {
    open spec fn from_toks(ts: Seq<TokM>) -> Option<Seq<char>> {
        if ts.len() == 4 {
            match (ts[0], ts[1], ts[2], ts[3]) {
                (
                    TokM::LitStr(s),
                    TokM::Mark('.'),
                    TokM::Word(w),
                    TokM::Group(Delim::Paren, inner),
                ) => if w == "to_owned"@ && inner.len() == 0 {
                    Some(s)
                } else {
                    None
                },
                _ => None,
            }
        } else {
            None
        }
    }

    proof fn round_trip(&self) {
    }
}

impl Bake for () {
    open spec fn tok_spec(&self) -> Seq<TokM> {
        seq![TokM::Group(Delim::Paren, Seq::empty())]
    }

    proof fn tok_spec_wf(&self) {
    }

    fn to_stream(&self) -> (r: Tree) {
        let mut t = Tree::new();
        t.push_group(Delim::Paren, Tree::new());
        t
    }
}

impl BakeRoundTrip for () {
    open spec fn from_toks(ts: Seq<TokM>) -> Option<()> {
        if ts.len() == 1 && ts[0] == TokM::Group(Delim::Paren, Seq::<TokM>::empty()) {
            Some(())
        } else {
            None
        }
    }

    proof fn round_trip(&self) {
    }
}

impl Bake for bool {
    open spec fn tok_spec(&self) -> Seq<TokM> {
        seq![TokM::LitBool(*self)]
    }

    proof fn tok_spec_wf(&self) {
    }

    fn to_stream(&self) -> (r: Tree) {
        let mut t = Tree::new();
        t.push(Tok::LitBool(*self));
        t
    }
}

impl BakeRoundTrip for bool {
    open spec fn from_toks(ts: Seq<TokM>) -> Option<bool> {
        if ts.len() == 1 {
            match ts[0] {
                TokM::LitBool(b) => Some(b),
                _ => None,
            }
        } else {
            None
        }
    }

    proof fn round_trip(&self) {
    }
}

/// The std range forms below carry their bounds in public fields; these
/// declarations let their fields be read here.
#[verifier::external_type_specification]
#[verifier::reject_recursive_types(Idx)]
pub struct ExRangeFrom<Idx>(core::ops::RangeFrom<Idx>);

#[verifier::external_type_specification]
#[verifier::reject_recursive_types(Idx)]
pub struct ExRangeTo<Idx>(core::ops::RangeTo<Idx>);

#[verifier::external_type_specification]
#[verifier::reject_recursive_types(Idx)]
pub struct ExRangeToInclusive<Idx>(core::ops::RangeToInclusive<Idx>);

#[verifier::external_type_specification]
#[verifier::reject_recursive_types(T)]
pub struct ExBound<T>(core::ops::Bound<T>);

impl<B: Bake, C: Bake> Bake for core::ops::ControlFlow<B, C> {
    open spec fn tok_spec(&self) -> Seq<TokM> {
        match self {
            core::ops::ControlFlow::Continue(c) => seq![
                TokM::Word("std"@),
                TokM::Mark(':'),
                TokM::Mark(':'),
                TokM::Word("ops"@),
                TokM::Mark(':'),
                TokM::Mark(':'),
                TokM::Word("ControlFlow"@),
                TokM::Mark(':'),
                TokM::Mark(':'),
                TokM::Word("Continue"@),
                TokM::Group(Delim::Paren, c.tok_spec()),
            ],
            core::ops::ControlFlow::Break(b) => seq![
                TokM::Word("std"@),
                TokM::Mark(':'),
                TokM::Mark(':'),
                TokM::Word("ops"@),
                TokM::Mark(':'),
                TokM::Mark(':'),
                TokM::Word("ControlFlow"@),
                TokM::Mark(':'),
                TokM::Mark(':'),
                TokM::Word("Break"@),
                TokM::Group(Delim::Paren, b.tok_spec()),
            ],
        }
    }

    proof fn tok_spec_wf(&self) {
    }

    fn to_stream(&self) -> (r: Tree) {
        let mut t = Tree::new();
        t.push_word("std");
        t.push_mark(':');
        t.push_mark(':');
        t.push_word("ops");
        t.push_mark(':');
        t.push_mark(':');
        t.push_word("ControlFlow");
        t.push_mark(':');
        t.push_mark(':');
        match self {
            core::ops::ControlFlow::Continue(c) => {
                t.push_word("Continue");
                t.push_group(Delim::Paren, c.to_stream());
            },
            core::ops::ControlFlow::Break(b) => {
                t.push_word("Break");
                t.push_group(Delim::Paren, b.to_stream());
            },
        }
        proof {
            assert(t@ =~= self.tok_spec());
        }
        t
    }
}

impl<Idx: Bake> Bake for core::ops::Range<Idx> {
    open spec fn tok_spec(&self) -> Seq<TokM> {
        self.start.tok_spec() + seq![TokM::Mark('.'), TokM::Mark('.')] + self.end.tok_spec()
    }

    proof fn tok_spec_wf(&self) {
        self.start.tok_spec_wf();
        self.end.tok_spec_wf();
    }

    fn to_stream(&self) -> (r: Tree) {
        let mut t = self.start.to_stream();
        t.push_mark('.');
        t.push_mark('.');
        t.append(self.end.to_stream());
        proof {
            assert(t@ =~= self.tok_spec());
        }
        t
    }
}

impl<Idx: Bake> Bake for core::ops::RangeFrom<Idx> {
    open spec fn tok_spec(&self) -> Seq<TokM> {
        self.start.tok_spec() + seq![TokM::Mark('.'), TokM::Mark('.')]
    }

    proof fn tok_spec_wf(&self) {
        self.start.tok_spec_wf();
    }

    fn to_stream(&self) -> (r: Tree) {
        let mut t = self.start.to_stream();
        t.push_mark('.');
        t.push_mark('.');
        proof {
            assert(t@ =~= self.tok_spec());
        }
        t
    }
}

impl<Idx: Bake> Bake for core::ops::RangeTo<Idx> {
    open spec fn tok_spec(&self) -> Seq<TokM> {
        seq![TokM::Mark('.'), TokM::Mark('.')] + self.end.tok_spec()
    }

    proof fn tok_spec_wf(&self) {
        self.end.tok_spec_wf();
    }

    fn to_stream(&self) -> (r: Tree) {
        let mut t = Tree::new();
        t.push_mark('.');
        t.push_mark('.');
        t.append(self.end.to_stream());
        proof {
            assert(t@ =~= self.tok_spec());
        }
        t
    }
}

impl<Idx: Bake> Bake for core::ops::RangeToInclusive<Idx> {
    open spec fn tok_spec(&self) -> Seq<TokM> {
        seq![TokM::Mark('.'), TokM::Mark('.'), TokM::Mark('=')] + self.end.tok_spec()
    }

    proof fn tok_spec_wf(&self) {
        self.end.tok_spec_wf();
    }

    fn to_stream(&self) -> (r: Tree) {
        let mut t = Tree::new();
        t.push_mark('.');
        t.push_mark('.');
        t.push_mark('=');
        t.append(self.end.to_stream());
        proof {
            assert(t@ =~= self.tok_spec());
        }
        t
    }
}

impl<T: Bake> Bake for core::ops::Bound<T> {
    open spec fn tok_spec(&self) -> Seq<TokM> {
        seq![
            TokM::Word("std"@),
            TokM::Mark(':'),
            TokM::Mark(':'),
            TokM::Word("ops"@),
            TokM::Mark(':'),
            TokM::Mark(':'),
            TokM::Word("Bound"@),
            TokM::Mark(':'),
            TokM::Mark(':'),
        ] + match self {
            core::ops::Bound::Included(v) => seq![
                TokM::Word("Included"@),
                TokM::Group(Delim::Paren, v.tok_spec()),
            ],
            core::ops::Bound::Excluded(v) => seq![
                TokM::Word("Excluded"@),
                TokM::Group(Delim::Paren, v.tok_spec()),
            ],
            core::ops::Bound::Unbounded => seq![TokM::Word("Unbounded"@)],
        }
    }

    proof fn tok_spec_wf(&self) {
    }

    fn to_stream(&self) -> (r: Tree) {
        let mut t = Tree::new();
        t.push_word("std");
        t.push_mark(':');
        t.push_mark(':');
        t.push_word("ops");
        t.push_mark(':');
        t.push_mark(':');
        t.push_word("Bound");
        t.push_mark(':');
        t.push_mark(':');
        match self {
            core::ops::Bound::Included(v) => {
                t.push_word("Included");
                t.push_group(Delim::Paren, v.to_stream());
            },
            core::ops::Bound::Excluded(v) => {
                t.push_word("Excluded");
                t.push_group(Delim::Paren, v.to_stream());
            },
            core::ops::Bound::Unbounded => {
                t.push_word("Unbounded");
            },
        }
        proof {
            assert(t@ =~= self.tok_spec());
        }
        t
    }
}

/// The reconstruction of a duration from its components: a constructor
/// call on the whole seconds and the sub-second remainder in nanoseconds.
pub open spec fn duration_call_m(secs: u64, nanos: u32) -> Seq<TokM> {
    seq![
        TokM::Word("std"@),
        TokM::Mark(':'),
        TokM::Mark(':'),
        TokM::Word("time"@),
        TokM::Mark(':'),
        TokM::Mark(':'),
        TokM::Word("Duration"@),
        TokM::Mark(':'),
        TokM::Mark(':'),
        TokM::Word("new"@),
        TokM::Group(
            Delim::Paren,
            seq![int_lit_m(secs as int), TokM::Mark(','), int_lit_m(nanos as int)],
        ),
    ]
}

/// Describes a duration given as whole seconds and a nanosecond remainder;
/// whoever holds a clock value hands its two components in as plain
/// numbers.
pub fn duration_to_stream(secs: u64, nanos: u32) -> (r: Tree)
    ensures
        r@ == duration_call_m(secs, nanos),
{
    let mut t = Tree::new();
    t.push_word("std");
    t.push_mark(':');
    t.push_mark(':');
    t.push_word("time");
    t.push_mark(':');
    t.push_mark(':');
    t.push_word("Duration");
    t.push_mark(':');
    t.push_mark(':');
    t.push_word("new");
    let mut arg = secs.to_stream();
    arg.push_mark(',');
    arg.append(nanos.to_stream());
    proof {
        assert(arg@ =~= seq![int_lit_m(secs as int), TokM::Mark(','), int_lit_m(nanos as int)]);
    }
    t.push_group(Delim::Paren, arg);
    proof {
        assert(t@ =~= duration_call_m(secs, nanos));
    }
    t
}

/// Index of the first top-level comma in `ts`, or `ts.len()` if none.
pub open spec fn first_comma(ts: Seq<TokM>) -> nat
    decreases ts,
{
    if ts.len() == 0 {
        0
    } else if ts[0] == TokM::Mark(',') {
        0
    } else {
        1 + first_comma(ts.drop_first())
    }
}

/// Splits `ts` at its top-level commas, dropping the commas themselves.
pub open spec fn split_comma(ts: Seq<TokM>) -> Seq<Seq<TokM>>
    decreases ts.len(),
{
    if ts.len() == 0 {
        Seq::empty()
    } else {
        let k = first_comma(ts) as int;
        if k >= ts.len() {
            seq![ts]
        } else {
            seq![ts.take(k)] + split_comma(ts.skip(k + 1))
        }
    }
}

/// Joins parts with a single comma between consecutive parts.
pub open spec fn join_comma(parts: Seq<Seq<TokM>>) -> Seq<TokM>
    decreases parts.len(),
{
    if parts.len() == 0 {
        Seq::empty()
    } else if parts.len() == 1 {
        parts[0]
    } else {
        parts[0] + seq![TokM::Mark(',')] + join_comma(parts.drop_first())
    }
}

/// Joins parts with a comma after every part (trailing-comma form).
pub open spec fn join_comma_term(parts: Seq<Seq<TokM>>) -> Seq<TokM>
    decreases parts.len(),
{
    if parts.len() == 0 {
        Seq::empty()
    } else {
        parts[0] + seq![TokM::Mark(',')] + join_comma_term(parts.drop_first())
    }
}

/// Every part is a nonempty comma-free token sequence.
pub open spec fn parts_wf(parts: Seq<Seq<TokM>>) -> bool {
    forall|i: int| 0 <= i < parts.len() ==> (#[trigger] parts[i]).len() > 0 && comma_free(parts[i])
}

proof fn lemma_first_comma_of_comma_free(ts: Seq<TokM>)
    requires
        comma_free(ts),
    ensures
        first_comma(ts) == ts.len(),
    decreases ts,
{
    if ts.len() > 0 {
        assert(ts[0] != TokM::Mark(','));
        assert(comma_free(ts.drop_first())) by {
            assert forall|i: int| 0 <= i < ts.drop_first().len() implies ts.drop_first()[i]
                != TokM::Mark(',') by {
                assert(ts.drop_first()[i] == ts[i + 1]);
            }
        }
        lemma_first_comma_of_comma_free(ts.drop_first());
    }
}

proof fn lemma_first_comma_of_prefix(a: Seq<TokM>, b: Seq<TokM>)
    requires
        comma_free(a),
    ensures
        first_comma(a + seq![TokM::Mark(',')] + b) == a.len(),
    decreases a,
{
    let t = a + seq![TokM::Mark(',')] + b;
    if a.len() == 0 {
        assert(t[0] == TokM::Mark(','));
    } else {
        assert(t[0] == a[0]);
        assert(a[0] != TokM::Mark(','));
        assert(t.drop_first() =~= a.drop_first() + seq![TokM::Mark(',')] + b);
        assert(comma_free(a.drop_first())) by {
            assert forall|i: int| 0 <= i < a.drop_first().len() implies a.drop_first()[i]
                != TokM::Mark(',') by {
                assert(a.drop_first()[i] == a[i + 1]);
            }
        }
        lemma_first_comma_of_prefix(a.drop_first(), b);
    }
}

/// Splitting undoes joining: the separator form.
pub proof fn lemma_split_join(parts: Seq<Seq<TokM>>)
    requires
        parts_wf(parts),
    ensures
        split_comma(join_comma(parts)) == parts,
    decreases parts.len(),
{
    if parts.len() == 0 {
    } else if parts.len() == 1 {
        lemma_first_comma_of_comma_free(parts[0]);
        assert(split_comma(join_comma(parts)) =~= parts);
    } else {
        let rest = parts.drop_first();
        let j = join_comma(parts);
        lemma_first_comma_of_prefix(parts[0], join_comma(rest));
        let k = parts[0].len() as int;
        assert(j.take(k) =~= parts[0]);
        assert(j.skip(k + 1) =~= join_comma(rest));
        assert(parts_wf(rest)) by {
            assert forall|i: int| 0 <= i < rest.len() implies (#[trigger] rest[i]).len() > 0
                && comma_free(rest[i]) by {
                assert(rest[i] == parts[i + 1]);
            }
        }
        lemma_split_join(rest);
        assert(join_comma(rest).len() > 0) by {
            assert(rest[0].len() > 0);
            if rest.len() > 1 {
                assert(join_comma(rest).len() >= rest[0].len());
            }
        }
        assert(k < j.len());
        assert(split_comma(j) =~= seq![parts[0]] + split_comma(j.skip(k + 1)));
        assert(split_comma(j) =~= parts);
    }
}

/// Splitting undoes joining: the trailing-comma form.
pub proof fn lemma_split_join_term(parts: Seq<Seq<TokM>>)
    requires
        parts_wf(parts),
    ensures
        split_comma(join_comma_term(parts)) == parts,
    decreases parts.len(),
{
    if parts.len() == 0 {
    } else {
        let rest = parts.drop_first();
        let j = join_comma_term(parts);
        lemma_first_comma_of_prefix(parts[0], join_comma_term(rest));
        let k = parts[0].len() as int;
        assert(j.take(k) =~= parts[0]);
        assert(j.skip(k + 1) =~= join_comma_term(rest));
        assert(parts_wf(rest)) by {
            assert forall|i: int| 0 <= i < rest.len() implies (#[trigger] rest[i]).len() > 0
                && comma_free(rest[i]) by {
                assert(rest[i] == parts[i + 1]);
            }
        }
        lemma_split_join_term(rest);
        assert(k < j.len());
        assert(split_comma(j) =~= seq![parts[0]] + split_comma(j.skip(k + 1)));
        assert(split_comma(j) =~= parts);
    }
}

/// Appending one more part to a separator-form join.
pub proof fn lemma_join_comma_push(parts: Seq<Seq<TokM>>, p: Seq<TokM>)
    ensures
        join_comma(parts.push(p)) == if parts.len() == 0 {
            p
        } else {
            join_comma(parts) + seq![TokM::Mark(',')] + p
        },
    decreases parts.len(),
{
    if parts.len() == 0 {
        assert(parts.push(p)[0] == p);
        assert(join_comma(parts.push(p)) =~= p);
    } else if parts.len() == 1 {
        assert(parts.push(p)[0] == parts[0]);
        assert(parts.push(p).drop_first() =~= seq![p]);
        assert(join_comma(seq![p]) == p);
        assert(join_comma(parts.push(p)) =~= parts[0] + seq![TokM::Mark(',')] + p);
        assert(join_comma(parts) =~= parts[0]);
    } else {
        assert(parts.push(p)[0] == parts[0]);
        assert(parts.push(p).drop_first() =~= parts.drop_first().push(p));
        lemma_join_comma_push(parts.drop_first(), p);
        assert(join_comma(parts.push(p)) =~= join_comma(parts) + seq![TokM::Mark(',')] + p);
    }
}

/// Appending one more part to a trailing-comma join.
pub proof fn lemma_join_comma_term_push(parts: Seq<Seq<TokM>>, p: Seq<TokM>)
    ensures
        join_comma_term(parts.push(p)) == join_comma_term(parts) + p + seq![TokM::Mark(',')],
    decreases parts.len(),
{
    if parts.len() == 0 {
        assert(parts.push(p)[0] == p);
        assert(parts.push(p).drop_first() =~= Seq::<Seq<TokM>>::empty());
        assert(join_comma_term(Seq::<Seq<TokM>>::empty()) == Seq::<TokM>::empty());
        assert(join_comma_term(parts.push(p)) =~= join_comma_term(parts) + p + seq![
            TokM::Mark(','),
        ]);
    } else {
        assert(parts.push(p)[0] == parts[0]);
        assert(parts.push(p).drop_first() =~= parts.drop_first().push(p));
        lemma_join_comma_term_push(parts.drop_first(), p);
        assert(join_comma_term(parts.push(p)) == parts[0] + seq![TokM::Mark(',')]
            + join_comma_term(parts.drop_first().push(p)));
        assert(join_comma_term(parts) == parts[0] + seq![TokM::Mark(',')] + join_comma_term(
            parts.drop_first(),
        ));
        assert(join_comma_term(parts.push(p)) =~= join_comma_term(parts) + p + seq![
            TokM::Mark(','),
        ]);
    }
}

/// The descriptions of the elements of `s`, in order.
pub open spec fn elems_tok_specs<T: Bake>(s: Seq<T>) -> Seq<Seq<TokM>> {
    Seq::new(s.len(), |i: int| s[i].tok_spec())
}

/// Every element's description is nonempty and comma-free.
pub proof fn lemma_elems_wf<T: Bake>(s: Seq<T>)
    ensures
        parts_wf(elems_tok_specs(s)),
{
    assert forall|i: int| 0 <= i < elems_tok_specs(s).len() implies (#[trigger] elems_tok_specs(
        s,
    )[i]).len() > 0 && comma_free(elems_tok_specs(s)[i]) by {
        s[i].tok_spec_wf();
    }
}

impl<T: Bake> Bake for Vec<T> {
    open spec fn tok_spec(&self) -> Seq<TokM> {
        seq![
            TokM::Word("vec"@),
            TokM::Mark('!'),
            TokM::Group(Delim::Bracket, join_comma(elems_tok_specs(self@))),
        ]
    }

    proof fn tok_spec_wf(&self) {
    }

    fn to_stream(&self) -> (r: Tree) {
        let mut inner = Tree::new();
        let mut i: usize = 0;
        while i < self.len()
            invariant
                i <= self.len(),
                inner@ == join_comma(elems_tok_specs(self@.take(i as int))),
            decreases self.len() - i,
        {
            proof {
                lemma_join_comma_push(
                    elems_tok_specs(self@.take(i as int)),
                    self@[i as int].tok_spec(),
                );
                assert(elems_tok_specs(self@.take(i as int)).push(self@[i as int].tok_spec())
                    =~= elems_tok_specs(self@.take(i + 1)));
            }
            if i > 0 {
                inner.push_mark(',');
            }
            let e = self[i].to_stream();
            inner.append(e);
            proof {
                if i == 0 {
                    assert(elems_tok_specs(self@.take(0)).len() == 0);
                    assert(inner@ =~= join_comma(elems_tok_specs(self@.take(1))));
                }
            }
            i = i + 1;
        }
        proof {
            assert(self@.take(self@.len() as int) =~= self@);
        }
        let mut t = Tree::new();
        t.push_word("vec");
        t.push_mark('!');
        t.push_group(Delim::Bracket, inner);
        t
    }
}

impl<T: BakeRoundTrip> BakeRoundTrip for Vec<T> {
    open spec fn from_toks(ts: Seq<TokM>) -> Option<Seq<T::V>> {
        if ts.len() == 3 && ts[0] == TokM::Word("vec"@) && ts[1] == TokM::Mark('!') {
            match ts[2] {
                TokM::Group(Delim::Bracket, inner) => {
                    let parts = split_comma(inner);
                    if forall|i: int|
                        0 <= i < parts.len() ==> (#[trigger] T::from_toks(parts[i])) is Some {
                        Some(Seq::new(parts.len(), |i: int| T::from_toks(parts[i])->Some_0))
                    } else {
                        None
                    }
                },
                _ => None,
            }
        } else {
            None
        }
    }

    proof fn round_trip(&self) {
        let parts = elems_tok_specs(self@);
        lemma_elems_wf(self@);
        lemma_split_join(parts);
        assert forall|i: int| 0 <= i < parts.len() implies (#[trigger] T::from_toks(parts[i]))
            == Some(self@[i].deep_view()) by {
            self@[i].round_trip();
        }
        assert(Seq::new(parts.len(), |i: int| T::from_toks(parts[i])->Some_0)
            =~= self.deep_view());
    }
}

impl<T: Bake, const N: usize> Bake for [T; N] {
    open spec fn tok_spec(&self) -> Seq<TokM> {
        seq![TokM::Group(Delim::Bracket, join_comma(elems_tok_specs(self@)))]
    }

    proof fn tok_spec_wf(&self) {
    }

    fn to_stream(&self) -> (r: Tree) {
        let mut inner = Tree::new();
        let mut i: usize = 0;
        while i < N
            invariant
                i <= N,
                inner@ == join_comma(elems_tok_specs(self@.take(i as int))),
            decreases N - i,
        {
            proof {
                lemma_join_comma_push(
                    elems_tok_specs(self@.take(i as int)),
                    self@[i as int].tok_spec(),
                );
                assert(elems_tok_specs(self@.take(i as int)).push(self@[i as int].tok_spec())
                    =~= elems_tok_specs(self@.take(i + 1)));
            }
            if i > 0 {
                inner.push_mark(',');
            }
            let e = self[i].to_stream();
            inner.append(e);
            proof {
                if i == 0 {
                    assert(elems_tok_specs(self@.take(0)).len() == 0);
                    assert(inner@ =~= join_comma(elems_tok_specs(self@.take(1))));
                }
            }
            i = i + 1;
        }
        proof {
            assert(self@.take(self@.len() as int) =~= self@);
        }
        let mut t = Tree::new();
        t.push_group(Delim::Bracket, inner);
        t
    }
}

impl<T: BakeRoundTrip, const N: usize> BakeRoundTrip for [T; N] {
    open spec fn from_toks(ts: Seq<TokM>) -> Option<Seq<T::V>> {
        if ts.len() == 1 {
            match ts[0] {
                TokM::Group(Delim::Bracket, inner) => {
                    let parts = split_comma(inner);
                    if parts.len() == N && (forall|i: int|
                        0 <= i < parts.len() ==> (#[trigger] T::from_toks(parts[i])) is Some) {
                        Some(Seq::new(parts.len(), |i: int| T::from_toks(parts[i])->Some_0))
                    } else {
                        None
                    }
                },
                _ => None,
            }
        } else {
            None
        }
    }

    proof fn round_trip(&self) {
        let parts = elems_tok_specs(self@);
        lemma_elems_wf(self@);
        lemma_split_join(parts);
        assert forall|i: int| 0 <= i < parts.len() implies (#[trigger] T::from_toks(parts[i]))
            == Some(self@[i].deep_view()) by {
            self@[i].round_trip();
        }
        assert(Seq::new(parts.len(), |i: int| T::from_toks(parts[i])->Some_0)
            =~= self.deep_view());
    }
}

impl<T: Bake> Bake for Option<T> {
    open spec fn tok_spec(&self) -> Seq<TokM> {
        match self {
            Some(t) => seq![TokM::Word("Some"@), TokM::Group(Delim::Paren, t.tok_spec())],
            None => seq![TokM::Word("None"@)],
        }
    }

    proof fn tok_spec_wf(&self) {
    }

    fn to_stream(&self) -> (r: Tree) {
        let mut t = Tree::new();
        match self {
            Some(v) => {
                t.push_word("Some");
                t.push_group(Delim::Paren, v.to_stream());
            },
            None => {
                t.push_word("None");
            },
        }
        t
    }
}

impl<T: BakeRoundTrip> BakeRoundTrip for Option<T> {
    open spec fn from_toks(ts: Seq<TokM>) -> Option<Option<T::V>> {
        if ts.len() == 1 && ts[0] == TokM::Word("None"@) {
            Some(None)
        } else if ts.len() == 2 && ts[0] == TokM::Word("Some"@) {
            match ts[1] {
                TokM::Group(Delim::Paren, inner) => match T::from_toks(inner) {
                    Some(v) => Some(Some(v)),
                    None => None,
                },
                _ => None,
            }
        } else {
            None
        }
    }

    proof fn round_trip(&self) {
        reveal_strlit("Some");
        reveal_strlit("None");
        match self {
            Some(v) => {
                v.round_trip();
                assert("Some"@[0] == 'S');
                assert("None"@[0] == 'N');
                assert("Some"@ != "None"@);
            },
            None => {
            },
        }
    }
}

impl<T: Bake> Bake for Box<T> {
    open spec fn tok_spec(&self) -> Seq<TokM> {
        seq![
            TokM::Word("Box"@),
            TokM::Mark(':'),
            TokM::Mark(':'),
            TokM::Word("new"@),
            TokM::Group(Delim::Paren, (**self).tok_spec()),
        ]
    }

    proof fn tok_spec_wf(&self) {
    }

    fn to_stream(&self) -> (r: Tree) {
        let mut t = Tree::new();
        t.push_word("Box");
        t.push_mark(':');
        t.push_mark(':');
        t.push_word("new");
        t.push_group(Delim::Paren, (**self).to_stream());
        t
    }
}

impl<T: BakeRoundTrip> BakeRoundTrip for Box<T> {
    open spec fn from_toks(ts: Seq<TokM>) -> Option<T::V> {
        if ts.len() == 5 && ts[0] == TokM::Word("Box"@) && ts[1] == TokM::Mark(':') && ts[2]
            == TokM::Mark(':') && ts[3] == TokM::Word("new"@) {
            match ts[4] {
                TokM::Group(Delim::Paren, inner) => T::from_toks(inner),
                _ => None,
            }
        } else {
            None
        }
    }

    proof fn round_trip(&self) {
        (**self).round_trip();
    }
}

/// The construct-from-sequence head of a collection: its path followed by
/// `from` applied to the literal sequence of elements.
pub open spec fn from_seq_call_m(tyname: Seq<char>, elems: Seq<Seq<TokM>>) -> Seq<TokM> {
    seq![
        TokM::Word("std"@),
        TokM::Mark(':'),
        TokM::Mark(':'),
        TokM::Word("collections"@),
        TokM::Mark(':'),
        TokM::Mark(':'),
        TokM::Word(tyname),
        TokM::Mark(':'),
        TokM::Mark(':'),
        TokM::Word("from"@),
        TokM::Group(
            Delim::Paren,
            seq![TokM::Group(Delim::Bracket, join_comma(elems))],
        ),
    ]
}

impl<T: Bake> Bake for std::collections::VecDeque<T> {
    open spec fn tok_spec(&self) -> Seq<TokM> {
        from_seq_call_m("VecDeque"@, elems_tok_specs(self@))
    }

    proof fn tok_spec_wf(&self) {
    }

    fn to_stream(&self) -> (r: Tree) {
        let mut inner = Tree::new();
        let mut i: usize = 0;
        while i < self.len()
            invariant
                i <= self@.len(),
                inner@ == join_comma(elems_tok_specs(self@.take(i as int))),
            decreases self@.len() - i,
        {
            proof {
                lemma_join_comma_push(
                    elems_tok_specs(self@.take(i as int)),
                    self@[i as int].tok_spec(),
                );
                assert(elems_tok_specs(self@.take(i as int)).push(self@[i as int].tok_spec())
                    =~= elems_tok_specs(self@.take(i + 1)));
            }
            if i > 0 {
                inner.push_mark(',');
            }
            let e = self[i].to_stream();
            inner.append(e);
            proof {
                if i == 0 {
                    assert(elems_tok_specs(self@.take(0)).len() == 0);
                    assert(inner@ =~= join_comma(elems_tok_specs(self@.take(1))));
                }
            }
            i = i + 1;
        }
        proof {
            assert(self@.take(self@.len() as int) =~= self@);
        }
        let mut t = Tree::new();
        t.push_word("std");
        t.push_mark(':');
        t.push_mark(':');
        t.push_word("collections");
        t.push_mark(':');
        t.push_mark(':');
        t.push_word("VecDeque");
        t.push_mark(':');
        t.push_mark(':');
        t.push_word("from");
        let mut arg = Tree::new();
        arg.push_group(Delim::Bracket, inner);
        t.push_group(Delim::Paren, arg);
        proof {
            assert(t@ =~= self.tok_spec());
        }
        t
    }
}

impl<T: BakeRoundTrip> BakeRoundTrip for std::collections::VecDeque<T> {
    open spec fn from_toks(ts: Seq<TokM>) -> Option<Seq<T::V>> {
        if ts.len() == 11 && ts.take(10) == from_seq_call_m("VecDeque"@, Seq::empty()).take(10) {
            match ts[10] {
                TokM::Group(Delim::Paren, outer) => if outer.len() == 1 {
                    match outer[0] {
                        TokM::Group(Delim::Bracket, inner) => {
                            let parts = split_comma(inner);
                            if forall|i: int|
                                0 <= i < parts.len() ==> (#[trigger] T::from_toks(
                                    parts[i],
                                )) is Some {
                                Some(
                                    Seq::new(
                                        parts.len(),
                                        |i: int| T::from_toks(parts[i])->Some_0,
                                    ),
                                )
                            } else {
                                None
                            }
                        },
                        _ => None,
                    }
                } else {
                    None
                },
                _ => None,
            }
        } else {
            None
        }
    }

    proof fn round_trip(&self) {
        let parts = elems_tok_specs(self@);
        lemma_elems_wf(self@);
        lemma_split_join(parts);
        assert(self.tok_spec().take(10) =~= from_seq_call_m("VecDeque"@, Seq::empty()).take(10));
        assert forall|i: int| 0 <= i < parts.len() implies (#[trigger] T::from_toks(parts[i]))
            == Some(self@[i].deep_view()) by {
            self@[i].round_trip();
        }
        assert(Seq::new(parts.len(), |i: int| T::from_toks(parts[i])->Some_0)
            =~= self.deep_view());
    }
}

impl<T: Bake, E: Bake> Bake for Result<T, E> {
    open spec fn tok_spec(&self) -> Seq<TokM> {
        match self {
            Ok(t) => t.tok_spec(),
            Err(e) => e.tok_spec(),
        }
    }

    proof fn tok_spec_wf(&self) {
        match self {
            Ok(t) => t.tok_spec_wf(),
            Err(e) => e.tok_spec_wf(),
        }
    }

    fn to_stream(&self) -> (r: Tree) {
        match self {
            Ok(t) => t.to_stream(),
            Err(e) => e.to_stream(),
        }
    }
}

} // verus!
