//! The interpolation algebra: a value that is either concretely known or
//! deferred to an expression fragment that the generated code will evaluate.
//!
//! The central invariant is one-directional, infectious promotion: once any
//! constituent of a composite is deferred, the merged composite is deferred,
//! and there is no partially-known composite representation.

use vstd::prelude::*;

use crate::bake::{Bake, Bakeable};
use vstd::std_specs::cmp::PartialEqSpec;
use crate::tokens::{Delim, Tok, TokM, Tree};

verus! {

/// A value of type `T` that is either concretely known (`Actual`) or stands
/// for an expression fragment evaluated later (`Inter`).
#[derive(Debug)]
pub enum Interpolatable<T> {
    /// A deferred expression fragment.
    Inter(Tok),
    /// A concretely known value.
    Actual(T),
}

/// Mathematical model of an `Interpolatable`.
pub enum InterpM<V> {
    Inter(TokM),
    Actual(V),
}

impl<T: DeepView> DeepView for Interpolatable<T> {
    type V = InterpM<T::V>;

    open spec fn deep_view(&self) -> InterpM<T::V> {
        match self {
            Interpolatable::Inter(t) => InterpM::Inter(t@),
            Interpolatable::Actual(v) => InterpM::Actual(v.deep_view()),
        }
    }
}

/// The error carried out of `fit` when the value was still deferred: it holds
/// the unresolved fragment for diagnostics.
#[derive(Debug)]
pub struct RuntimeInterpolationError(pub Tok);

impl RuntimeInterpolationError {
    /// The unresolved fragment.
    pub fn fragment(&self) -> (r: &Tok)
        ensures
            r == &self.0,
    {
        &self.0
    }
}

/// The fragment shape produced by `new_inter`: the stream, brace-grouped,
/// followed by a conversion call, grouped again so it stays one tree.
pub open spec fn inter_of_stream_m(s: Seq<TokM>) -> TokM {
    TokM::Group(
        Delim::Brace,
        seq![
            TokM::Group(Delim::Brace, s),
            TokM::Mark('.'),
            TokM::Word("into"@),
            TokM::Group(Delim::Paren, Seq::empty()),
        ],
    )
}

impl<T> Interpolatable<T> {
    /// Wraps a raw stream as a deferred fragment, adding the conversion to
    /// the target type and grouping the whole so it is one tree.
    pub fn new_inter(stream: Tree) -> (r: Self)
        ensures
            r matches Interpolatable::Inter(t) && t@ == inter_of_stream_m(stream@),
    {
        let mut inner = Tree::new();
        inner.push_group(Delim::Brace, stream);
        inner.push_mark('.');
        inner.push_word("into");
        inner.push_group(Delim::Paren, Tree::new());
        proof {
            assert(inner@ =~= seq![
                TokM::Group(Delim::Brace, stream@),
                TokM::Mark('.'),
                TokM::Word("into"@),
                TokM::Group(Delim::Paren, Seq::<TokM>::empty()),
            ]);
        }
        Interpolatable::Inter(Tok::Group(Delim::Brace, inner.toks))
    }

    /// Uses the tree as the deferred fragment as it stands; the caller takes
    /// care of the conversion to the target type.
    pub fn new_inter_raw(tree: Tok) -> (r: Self)
        ensures
            r == Interpolatable::<T>::Inter(tree),
    {
        Interpolatable::Inter(tree)
    }

    /// Extracts the concrete value; a deferred value is a recoverable error
    /// carrying the unresolved fragment.
    pub fn fit(self) -> (r: Result<T, RuntimeInterpolationError>)
        ensures
            r == match self {
                Interpolatable::Actual(t) => Result::<T, RuntimeInterpolationError>::Ok(t),
                Interpolatable::Inter(f) => Result::<T, RuntimeInterpolationError>::Err(
                    RuntimeInterpolationError(f),
                ),
            },
    {
        match self {
            Interpolatable::Actual(t) => Ok(t),
            Interpolatable::Inter(f) => Err(RuntimeInterpolationError(f)),
        }
    }

    /// Extracts a concrete value that the call site has already established
    /// must be known.
    pub fn force_fit(self) -> (r: T)
        requires
            self is Actual,
        ensures
            self == Interpolatable::Actual(r),
    {
        match self {
            Interpolatable::Actual(t) => t,
            Interpolatable::Inter(_) => vstd::pervasive::unreached(),
        }
    }

    /// The concrete value, if known.
    pub fn actual(self) -> (r: Option<T>)
        ensures
            r == match self {
                Interpolatable::Actual(t) => Some(t),
                Interpolatable::Inter(_) => None::<T>,
            },
    {
        match self {
            Interpolatable::Actual(t) => Some(t),
            Interpolatable::Inter(_) => None,
        }
    }

    /// The deferred fragment, if any.
    pub fn tree(self) -> (r: Option<Tok>)
        ensures
            r == match self {
                Interpolatable::Inter(t) => Some(t),
                Interpolatable::Actual(_) => None::<Tok>,
            },
    {
        match self {
            Interpolatable::Inter(t) => Some(t),
            Interpolatable::Actual(_) => None,
        }
    }
}

impl<T: Bake + PartialEq> PartialEq for Interpolatable<T> {
    /// Two known values compare by the contained values; a deferred value
    /// equals nothing, not even a textually identical deferred value.
    fn eq(&self, other: &Self) -> (r: bool) {
        match (self, other) {
            (Interpolatable::Actual(a), Interpolatable::Actual(b)) => a == b,
            _ => false,
        }
    }
}

impl<T: Bake + PartialEq> vstd::std_specs::cmp::PartialEqSpecImpl for Interpolatable<T> {
    open spec fn obeys_eq_spec() -> bool {
        <T as PartialEqSpec>::obeys_eq_spec()
    }

    open spec fn eq_spec(&self, other: &Self) -> bool {
        match (self, other) {
            (Interpolatable::Actual(a), Interpolatable::Actual(b)) => PartialEqSpec::eq_spec(
                a,
                b,
            ),
            _ => false,
        }
    }
}

/// Equality on `Interpolatable` is asymmetric by design: two deferred
/// fragments are never equal, a known and a deferred value are never equal,
/// and two known values are equal exactly when their contents are.
pub proof fn lemma_interpolatable_eq<T: Bake + PartialEq>(
    a: Interpolatable<T>,
    b: Interpolatable<T>,
)
    ensures
        (a is Inter || b is Inter) ==> !a.eq_spec(&b),
        a.eq_spec(&b) <==> (a matches Interpolatable::Actual(x) && b
            matches Interpolatable::Actual(y) && x.eq_spec(&y)),
{
}

impl<T: Bake> From<T> for Interpolatable<T> {
    /// Lifts a concrete value into the algebra.
    fn from(value: T) -> (r: Self) {
        Interpolatable::Actual(value)
    }
}

impl<T: Bake> vstd::std_specs::convert::FromSpecImpl<T> for Interpolatable<T> {
    open spec fn obeys_from_spec() -> bool {
        true
    }

    open spec fn from_spec(value: T) -> Self {
        Interpolatable::Actual(value)
    }
}

impl<T: Bake> From<Tok> for Interpolatable<T> {
    /// Adopts a tree as a deferred fragment.
    fn from(value: Tok) -> (r: Self) {
        Interpolatable::Inter(value)
    }
}

impl<T: Bake> vstd::std_specs::convert::FromSpecImpl<Tok> for Interpolatable<T> {
    open spec fn obeys_from_spec() -> bool {
        true
    }

    open spec fn from_spec(value: Tok) -> Self {
        Interpolatable::Inter(value)
    }
}

impl<T: Bake> Bakeable for Interpolatable<T> {
    /// A known value bakes as its own description; a deferred value bakes as
    /// the stored fragment, verbatim.
    open spec fn bake_spec(&self) -> Seq<TokM> {
        match self {
            Interpolatable::Inter(t) => seq![t@],
            Interpolatable::Actual(v) => v.tok_spec(),
        }
    }

    fn bake(&self) -> (r: Tree) {
        match self {
            Interpolatable::Inter(t) => {
                let mut r = Tree::new();
                r.push(t.deep_clone());
                r
            },
            Interpolatable::Actual(v) => v.to_stream(),
        }
    }
}

/// Wraps a deferred fragment in the conversion call the generated code
/// needs to reach the target type: `<fragment>.into()`.
pub fn parse_interpolation(interpolation: &Tok) -> (r: Tree)
    ensures
        r@ == seq![
            interpolation@,
            TokM::Mark('.'),
            TokM::Word("into"@),
            TokM::Group(Delim::Paren, Seq::<TokM>::empty()),
        ],
{
    let mut t = Tree::new();
    t.push(interpolation.deep_clone());
    t.push_mark('.');
    t.push_word("into");
    t.push_group(Delim::Paren, Tree::new());
    proof {
        assert(t@ =~= seq![
            interpolation@,
            TokM::Mark('.'),
            TokM::Word("into"@),
            TokM::Group(Delim::Paren, Seq::<TokM>::empty()),
        ]);
    }
    t
}

/// Entry into the algebra for any reconstructible value.
pub trait IntoInterpolation where Self: Sized + Bake {
    /// Lifts `self` into the algebra as a known value.
    fn interpolate(self) -> (r: Interpolatable<Self>)
        ensures
            r == Interpolatable::Actual(self),
    ;
}

impl<T: Bake> IntoInterpolation for T {
    fn interpolate(self) -> (r: Interpolatable<Self>) {
        Interpolatable::Actual(self)
    }
}

/// Polymorphic extraction: what `fit` yields for each combination of wrapped
/// and plain values.
pub trait Interpolate<T>: Sized {
    /// The exact result of `fit`.
    spec fn fit_spec(self) -> Result<T, RuntimeInterpolationError>;

    /// Extracts a `T`, failing recoverably where the value is deferred.
    fn fit(self) -> (r: Result<T, RuntimeInterpolationError>)
        ensures
            r == self.fit_spec(),
    ;

    /// Extracts a `T` at a call site that has established success.
    fn force_fit(self) -> (r: T)
        requires
            self.fit_spec() is Ok,
        ensures
            self.fit_spec() == Result::<T, RuntimeInterpolationError>::Ok(r),
    {
        match self.fit() {
            Ok(t) => t,
            Err(_) => vstd::pervasive::unreached(),
        }
    }
}

impl<T: Bake> Interpolate<T> for Interpolatable<T> {
    open spec fn fit_spec(self) -> Result<T, RuntimeInterpolationError> {
        match self {
            Interpolatable::Actual(t) => Ok(t),
            Interpolatable::Inter(f) => Err(RuntimeInterpolationError(f)),
        }
    }

    fn fit(self) -> (r: Result<T, RuntimeInterpolationError>) {
        self.fit()
    }
}

impl<T: Bake> Interpolate<Interpolatable<T>> for Interpolatable<T> {
    open spec fn fit_spec(self) -> Result<Interpolatable<T>, RuntimeInterpolationError> {
        Ok(self)
    }

    fn fit(self) -> (r: Result<Interpolatable<T>, RuntimeInterpolationError>) {
        Ok(self)
    }
}

impl<T: Bake> Interpolate<T> for T {
    open spec fn fit_spec(self) -> Result<T, RuntimeInterpolationError> {
        Ok(self)
    }

    fn fit(self) -> (r: Result<T, RuntimeInterpolationError>) {
        Ok(self)
    }
}

impl<T: Bake> Interpolate<Interpolatable<T>> for T {
    open spec fn fit_spec(self) -> Result<Interpolatable<T>, RuntimeInterpolationError> {
        Ok(Interpolatable::Actual(self))
    }

    fn fit(self) -> (r: Result<Interpolatable<T>, RuntimeInterpolationError>) {
        Ok(Interpolatable::Actual(self))
    }
}

} // verus!
