//! A function value paired with the syntactic path that names it, so a
//! deferred value can be mapped by emitting a call to the same function at
//! the generated code's runtime.

use core::marker::PhantomData;

use vstd::prelude::*;

use crate::bake::{Bake, Bakeable};
use crate::interpolation::Interpolatable;
use crate::tokens::{Delim, Tok, TokM, Tree};

verus! {

/// A callable together with the stable path under which generated code can
/// call it. The two are paired at construction so they cannot drift apart.
#[verifier::reject_recursive_types(In)]
#[verifier::reject_recursive_types(Out)]
pub struct BakeableFnOnce<F, In, Out> where F: FnOnce(In) -> Out {
    path: Tree,
    func: F,
    phantom_in: PhantomData<In>,
    phantom_out: PhantomData<Out>,
}

impl<F, In, Out> BakeableFnOnce<F, In, Out> where F: FnOnce(In) -> Out {
    /// The tokens of the function's path.
    pub closed spec fn path_spec(&self) -> Seq<TokM> {
        self.path@
    }

    /// What the wrapped callable requires of its input.
    pub closed spec fn pre(&self, input: In) -> bool {
        call_requires(self.func, (input,))
    }

    /// What the wrapped callable ensures of its output.
    pub closed spec fn post(&self, input: In, output: Out) -> bool {
        call_ensures(self.func, (input,), output)
    }

    /// Pairs a callable with its path. The caller is responsible for the
    /// path naming this very function.
    pub fn _new(func: F, path: Tree) -> (r: Self)
        ensures
            r.path_spec() == path@,
            forall|input: In| r.pre(input) == call_requires(func, (input,)),
            forall|input: In, output: Out|
                r.post(input, output) == call_ensures(func, (input,), output),
    {
        BakeableFnOnce { path, func, phantom_in: PhantomData, phantom_out: PhantomData }
    }

    /// Calls the wrapped function directly.
    pub fn call(self, input: In) -> (r: Out)
        requires
            self.pre(input),
        ensures
            self.post(input, r),
    {
        (self.func)(input)
    }
}

impl<F, In, Out> Bakeable for BakeableFnOnce<F, In, Out> where F: FnOnce(In) -> Out {
    /// The function value bakes as its path.
    open spec fn bake_spec(&self) -> Seq<TokM> {
        self.path_spec()
    }

    fn bake(&self) -> (r: Tree) {
        self.path.deep_clone()
    }
}

/// The deferred fragment produced by mapping a deferred value: a call of
/// the mapping function's path on the converted fragment, grouped so it
/// stays one tree.
pub open spec fn map_fragment_m(path: Seq<TokM>, frag: TokM) -> TokM {
    TokM::Group(
        Delim::Brace,
        path + seq![
            TokM::Group(
                Delim::Paren,
                seq![
                    frag,
                    TokM::Mark('.'),
                    TokM::Word("into"@),
                    TokM::Group(Delim::Paren, Seq::empty()),
                ],
            ),
        ],
    )
}

impl<T: Bake> Interpolatable<T> {
    /// Maps the contents by a named function: a known value applies the
    /// function eagerly; a deferred value becomes a new fragment that calls
    /// the function on the old fragment at the generated code's runtime.
    pub fn map<F, U: Bake>(self, f: BakeableFnOnce<F, T, U>) -> (r: Interpolatable<U>) where
        F: FnOnce(T) -> U,

        requires
            self matches Interpolatable::Actual(t) ==> f.pre(t),
        ensures
            match self {
                Interpolatable::Actual(t) => r matches Interpolatable::Actual(u) && f.post(t, u),
                Interpolatable::Inter(tr) => r matches Interpolatable::Inter(t2) && t2@
                    == map_fragment_m(f.path_spec(), tr@),
            },
    {
        match self {
            Interpolatable::Actual(inner) => Interpolatable::Actual(f.call(inner)),
            Interpolatable::Inter(tree) => {
                let ghost trm = tree@;
                let mut inner = f.bake();
                let mut arg = Tree::new();
                arg.push(tree);
                arg.push_mark('.');
                arg.push_word("into");
                arg.push_group(Delim::Paren, Tree::new());
                proof {
                    assert(arg@ =~= seq![
                        trm,
                        TokM::Mark('.'),
                        TokM::Word("into"@),
                        TokM::Group(Delim::Paren, Seq::<TokM>::empty()),
                    ]);
                }
                inner.push_group(Delim::Paren, arg);
                proof {
                    assert(inner@ =~= f.path_spec() + seq![
                        TokM::Group(
                            Delim::Paren,
                            seq![
                                trm,
                                TokM::Mark('.'),
                                TokM::Word("into"@),
                                TokM::Group(Delim::Paren, Seq::<TokM>::empty()),
                            ],
                        ),
                    ]);
                }
                Interpolatable::Inter(Tok::Group(Delim::Brace, inner.toks))
            },
        }
    }
}

} // verus!
