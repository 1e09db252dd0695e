//! Merging a fixed tuple of interpolatable components into one
//! interpolatable tuple. Unlike the sequence merge there is no prefix
//! buffering: once any component is deferred, every component, known or
//! deferred alike, is re-baked into the promoted fragment.

use vstd::prelude::*;

use crate::bake::{Bake, Bakeable};
use crate::flatten::FlattenInterpolation;
use crate::interpolation::{InterpM, Interpolatable};
use crate::tokens::{Delim, Tok, TokM, Tree};

verus! {

/// One component of the runtime tuple-building fragment: the component
/// baked, converted to the component type, and comma-terminated.
pub open spec fn tuple_piece_m<B: Bake>(e: Interpolatable<B>) -> Seq<TokM> {
    e.bake_spec() + seq![
        TokM::Mark('.'),
        TokM::Word("into"@),
        TokM::Group(Delim::Paren, Seq::empty()),
        TokM::Mark(','),
    ]
}

impl<A: Bake + DeepView> FlattenInterpolation<(A,)> for (Interpolatable<A>,) {
    open spec fn flat_spec(&self) -> InterpM<(A::V,)> {
        if self.0 is Actual {
            InterpM::Actual(((self.0->Actual_0).deep_view(),))
        } else {
            InterpM::Inter(
                TokM::Group(
                    Delim::Brace,
                    seq![TokM::Group(Delim::Paren, tuple_piece_m(self.0))],
                ),
            )
        }
    }

    fn flatten_interpolation(self) -> (r: Interpolatable<(A,)>) {
        match self {
            (Interpolatable::Actual(a0),) => Interpolatable::Actual((a0,)),
            (x0,) => {
                let mut inner = Tree::new();
                inner.append(x0.bake());
                inner.push_mark('.');
                inner.push_word("into");
                inner.push_group(Delim::Paren, Tree::new());
                inner.push_mark(',');
                proof {
                    assert(inner@ =~= tuple_piece_m(x0));
                }
                let mut g = Tree::new();
                g.push_group(Delim::Paren, inner);
                Interpolatable::Inter(Tok::Group(Delim::Brace, g.toks))
            },
        }
    }
}

impl<A: Bake + DeepView, B: Bake + DeepView> FlattenInterpolation<(A, B)> for (Interpolatable<A>, Interpolatable<B>) {
    open spec fn flat_spec(&self) -> InterpM<(A::V, B::V)> {
        if self.0 is Actual && self.1 is Actual {
            InterpM::Actual(((self.0->Actual_0).deep_view(), (self.1->Actual_0).deep_view()))
        } else {
            InterpM::Inter(
                TokM::Group(
                    Delim::Brace,
                    seq![TokM::Group(Delim::Paren, tuple_piece_m(self.0) + tuple_piece_m(self.1))],
                ),
            )
        }
    }

    fn flatten_interpolation(self) -> (r: Interpolatable<(A, B)>) {
        match self {
            (Interpolatable::Actual(a0), Interpolatable::Actual(a1)) => Interpolatable::Actual((a0, a1)),
            (x0, x1) => {
                let mut inner = Tree::new();
                inner.append(x0.bake());
                inner.push_mark('.');
                inner.push_word("into");
                inner.push_group(Delim::Paren, Tree::new());
                inner.push_mark(',');
                proof {
                    assert(inner@ =~= tuple_piece_m(x0));
                }
                inner.append(x1.bake());
                inner.push_mark('.');
                inner.push_word("into");
                inner.push_group(Delim::Paren, Tree::new());
                inner.push_mark(',');
                proof {
                    assert(inner@ =~= tuple_piece_m(x0) + tuple_piece_m(x1));
                }
                let mut g = Tree::new();
                g.push_group(Delim::Paren, inner);
                Interpolatable::Inter(Tok::Group(Delim::Brace, g.toks))
            },
        }
    }
}

impl<A: Bake + DeepView, B: Bake + DeepView, C: Bake + DeepView> FlattenInterpolation<(A, B, C)> for (Interpolatable<A>, Interpolatable<B>, Interpolatable<C>) {
    open spec fn flat_spec(&self) -> InterpM<(A::V, B::V, C::V)> {
        if self.0 is Actual && self.1 is Actual && self.2 is Actual {
            InterpM::Actual(((self.0->Actual_0).deep_view(), (self.1->Actual_0).deep_view(), (self.2->Actual_0).deep_view()))
        } else {
            InterpM::Inter(
                TokM::Group(
                    Delim::Brace,
                    seq![TokM::Group(Delim::Paren, tuple_piece_m(self.0) + tuple_piece_m(self.1) + tuple_piece_m(self.2))],
                ),
            )
        }
    }

    fn flatten_interpolation(self) -> (r: Interpolatable<(A, B, C)>) {
        match self {
            (Interpolatable::Actual(a0), Interpolatable::Actual(a1), Interpolatable::Actual(a2)) => Interpolatable::Actual((a0, a1, a2)),
            (x0, x1, x2) => {
                let mut inner = Tree::new();
                inner.append(x0.bake());
                inner.push_mark('.');
                inner.push_word("into");
                inner.push_group(Delim::Paren, Tree::new());
                inner.push_mark(',');
                proof {
                    assert(inner@ =~= tuple_piece_m(x0));
                }
                inner.append(x1.bake());
                inner.push_mark('.');
                inner.push_word("into");
                inner.push_group(Delim::Paren, Tree::new());
                inner.push_mark(',');
                proof {
                    assert(inner@ =~= tuple_piece_m(x0) + tuple_piece_m(x1));
                }
                inner.append(x2.bake());
                inner.push_mark('.');
                inner.push_word("into");
                inner.push_group(Delim::Paren, Tree::new());
                inner.push_mark(',');
                proof {
                    assert(inner@ =~= tuple_piece_m(x0) + tuple_piece_m(x1) + tuple_piece_m(x2));
                }
                let mut g = Tree::new();
                g.push_group(Delim::Paren, inner);
                Interpolatable::Inter(Tok::Group(Delim::Brace, g.toks))
            },
        }
    }
}

impl<A: Bake + DeepView, B: Bake + DeepView, C: Bake + DeepView, D: Bake + DeepView> FlattenInterpolation<(A, B, C, D)> for (Interpolatable<A>, Interpolatable<B>, Interpolatable<C>, Interpolatable<D>) {
    open spec fn flat_spec(&self) -> InterpM<(A::V, B::V, C::V, D::V)> {
        if self.0 is Actual && self.1 is Actual && self.2 is Actual && self.3 is Actual {
            InterpM::Actual(((self.0->Actual_0).deep_view(), (self.1->Actual_0).deep_view(), (self.2->Actual_0).deep_view(), (self.3->Actual_0).deep_view()))
        } else {
            InterpM::Inter(
                TokM::Group(
                    Delim::Brace,
                    seq![TokM::Group(Delim::Paren, tuple_piece_m(self.0) + tuple_piece_m(self.1) + tuple_piece_m(self.2) + tuple_piece_m(self.3))],
                ),
            )
        }
    }

    fn flatten_interpolation(self) -> (r: Interpolatable<(A, B, C, D)>) {
        match self {
            (Interpolatable::Actual(a0), Interpolatable::Actual(a1), Interpolatable::Actual(a2), Interpolatable::Actual(a3)) => Interpolatable::Actual((a0, a1, a2, a3)),
            (x0, x1, x2, x3) => {
                let mut inner = Tree::new();
                inner.append(x0.bake());
                inner.push_mark('.');
                inner.push_word("into");
                inner.push_group(Delim::Paren, Tree::new());
                inner.push_mark(',');
                proof {
                    assert(inner@ =~= tuple_piece_m(x0));
                }
                inner.append(x1.bake());
                inner.push_mark('.');
                inner.push_word("into");
                inner.push_group(Delim::Paren, Tree::new());
                inner.push_mark(',');
                proof {
                    assert(inner@ =~= tuple_piece_m(x0) + tuple_piece_m(x1));
                }
                inner.append(x2.bake());
                inner.push_mark('.');
                inner.push_word("into");
                inner.push_group(Delim::Paren, Tree::new());
                inner.push_mark(',');
                proof {
                    assert(inner@ =~= tuple_piece_m(x0) + tuple_piece_m(x1) + tuple_piece_m(x2));
                }
                inner.append(x3.bake());
                inner.push_mark('.');
                inner.push_word("into");
                inner.push_group(Delim::Paren, Tree::new());
                inner.push_mark(',');
                proof {
                    assert(inner@ =~= tuple_piece_m(x0) + tuple_piece_m(x1) + tuple_piece_m(x2) + tuple_piece_m(x3));
                }
                let mut g = Tree::new();
                g.push_group(Delim::Paren, inner);
                Interpolatable::Inter(Tok::Group(Delim::Brace, g.toks))
            },
        }
    }
}

impl<A: Bake + DeepView, B: Bake + DeepView, C: Bake + DeepView, D: Bake + DeepView, E: Bake + DeepView> FlattenInterpolation<(A, B, C, D, E)> for (Interpolatable<A>, Interpolatable<B>, Interpolatable<C>, Interpolatable<D>, Interpolatable<E>) {
    open spec fn flat_spec(&self) -> InterpM<(A::V, B::V, C::V, D::V, E::V)> {
        if self.0 is Actual && self.1 is Actual && self.2 is Actual && self.3 is Actual && self.4 is Actual {
            InterpM::Actual(((self.0->Actual_0).deep_view(), (self.1->Actual_0).deep_view(), (self.2->Actual_0).deep_view(), (self.3->Actual_0).deep_view(), (self.4->Actual_0).deep_view()))
        } else {
            InterpM::Inter(
                TokM::Group(
                    Delim::Brace,
                    seq![TokM::Group(Delim::Paren, tuple_piece_m(self.0) + tuple_piece_m(self.1) + tuple_piece_m(self.2) + tuple_piece_m(self.3) + tuple_piece_m(self.4))],
                ),
            )
        }
    }

    fn flatten_interpolation(self) -> (r: Interpolatable<(A, B, C, D, E)>) {
        match self {
            (Interpolatable::Actual(a0), Interpolatable::Actual(a1), Interpolatable::Actual(a2), Interpolatable::Actual(a3), Interpolatable::Actual(a4)) => Interpolatable::Actual((a0, a1, a2, a3, a4)),
            (x0, x1, x2, x3, x4) => {
                let mut inner = Tree::new();
                inner.append(x0.bake());
                inner.push_mark('.');
                inner.push_word("into");
                inner.push_group(Delim::Paren, Tree::new());
                inner.push_mark(',');
                proof {
                    assert(inner@ =~= tuple_piece_m(x0));
                }
                inner.append(x1.bake());
                inner.push_mark('.');
                inner.push_word("into");
                inner.push_group(Delim::Paren, Tree::new());
                inner.push_mark(',');
                proof {
                    assert(inner@ =~= tuple_piece_m(x0) + tuple_piece_m(x1));
                }
                inner.append(x2.bake());
                inner.push_mark('.');
                inner.push_word("into");
                inner.push_group(Delim::Paren, Tree::new());
                inner.push_mark(',');
                proof {
                    assert(inner@ =~= tuple_piece_m(x0) + tuple_piece_m(x1) + tuple_piece_m(x2));
                }
                inner.append(x3.bake());
                inner.push_mark('.');
                inner.push_word("into");
                inner.push_group(Delim::Paren, Tree::new());
                inner.push_mark(',');
                proof {
                    assert(inner@ =~= tuple_piece_m(x0) + tuple_piece_m(x1) + tuple_piece_m(x2) + tuple_piece_m(x3));
                }
                inner.append(x4.bake());
                inner.push_mark('.');
                inner.push_word("into");
                inner.push_group(Delim::Paren, Tree::new());
                inner.push_mark(',');
                proof {
                    assert(inner@ =~= tuple_piece_m(x0) + tuple_piece_m(x1) + tuple_piece_m(x2) + tuple_piece_m(x3) + tuple_piece_m(x4));
                }
                let mut g = Tree::new();
                g.push_group(Delim::Paren, inner);
                Interpolatable::Inter(Tok::Group(Delim::Brace, g.toks))
            },
        }
    }
}

impl<A: Bake + DeepView, B: Bake + DeepView, C: Bake + DeepView, D: Bake + DeepView, E: Bake + DeepView, F: Bake + DeepView> FlattenInterpolation<(A, B, C, D, E, F)> for (Interpolatable<A>, Interpolatable<B>, Interpolatable<C>, Interpolatable<D>, Interpolatable<E>, Interpolatable<F>) {
    open spec fn flat_spec(&self) -> InterpM<(A::V, B::V, C::V, D::V, E::V, F::V)> {
        if self.0 is Actual && self.1 is Actual && self.2 is Actual && self.3 is Actual && self.4 is Actual && self.5 is Actual {
            InterpM::Actual(((self.0->Actual_0).deep_view(), (self.1->Actual_0).deep_view(), (self.2->Actual_0).deep_view(), (self.3->Actual_0).deep_view(), (self.4->Actual_0).deep_view(), (self.5->Actual_0).deep_view()))
        } else {
            InterpM::Inter(
                TokM::Group(
                    Delim::Brace,
                    seq![TokM::Group(Delim::Paren, tuple_piece_m(self.0) + tuple_piece_m(self.1) + tuple_piece_m(self.2) + tuple_piece_m(self.3) + tuple_piece_m(self.4) + tuple_piece_m(self.5))],
                ),
            )
        }
    }

    #[verifier::rlimit(100)]
    fn flatten_interpolation(self) -> (r: Interpolatable<(A, B, C, D, E, F)>) {
        match self {
            (Interpolatable::Actual(a0), Interpolatable::Actual(a1), Interpolatable::Actual(a2), Interpolatable::Actual(a3), Interpolatable::Actual(a4), Interpolatable::Actual(a5)) => Interpolatable::Actual((a0, a1, a2, a3, a4, a5)),
            (x0, x1, x2, x3, x4, x5) => {
                let mut inner = Tree::new();
                inner.append(x0.bake());
                inner.push_mark('.');
                inner.push_word("into");
                inner.push_group(Delim::Paren, Tree::new());
                inner.push_mark(',');
                proof {
                    assert(inner@ =~= tuple_piece_m(x0));
                }
                inner.append(x1.bake());
                inner.push_mark('.');
                inner.push_word("into");
                inner.push_group(Delim::Paren, Tree::new());
                inner.push_mark(',');
                proof {
                    assert(inner@ =~= tuple_piece_m(x0) + tuple_piece_m(x1));
                }
                inner.append(x2.bake());
                inner.push_mark('.');
                inner.push_word("into");
                inner.push_group(Delim::Paren, Tree::new());
                inner.push_mark(',');
                proof {
                    assert(inner@ =~= tuple_piece_m(x0) + tuple_piece_m(x1) + tuple_piece_m(x2));
                }
                inner.append(x3.bake());
                inner.push_mark('.');
                inner.push_word("into");
                inner.push_group(Delim::Paren, Tree::new());
                inner.push_mark(',');
                proof {
                    assert(inner@ =~= tuple_piece_m(x0) + tuple_piece_m(x1) + tuple_piece_m(x2) + tuple_piece_m(x3));
                }
                inner.append(x4.bake());
                inner.push_mark('.');
                inner.push_word("into");
                inner.push_group(Delim::Paren, Tree::new());
                inner.push_mark(',');
                proof {
                    assert(inner@ =~= tuple_piece_m(x0) + tuple_piece_m(x1) + tuple_piece_m(x2) + tuple_piece_m(x3) + tuple_piece_m(x4));
                }
                inner.append(x5.bake());
                inner.push_mark('.');
                inner.push_word("into");
                inner.push_group(Delim::Paren, Tree::new());
                inner.push_mark(',');
                proof {
                    assert(inner@ =~= tuple_piece_m(x0) + tuple_piece_m(x1) + tuple_piece_m(x2) + tuple_piece_m(x3) + tuple_piece_m(x4) + tuple_piece_m(x5));
                }
                let mut g = Tree::new();
                g.push_group(Delim::Paren, inner);
                Interpolatable::Inter(Tok::Group(Delim::Brace, g.toks))
            },
        }
    }
}

impl<A: Bake + DeepView, B: Bake + DeepView, C: Bake + DeepView, D: Bake + DeepView, E: Bake + DeepView, F: Bake + DeepView, G: Bake + DeepView> FlattenInterpolation<(A, B, C, D, E, F, G)> for (Interpolatable<A>, Interpolatable<B>, Interpolatable<C>, Interpolatable<D>, Interpolatable<E>, Interpolatable<F>, Interpolatable<G>) {
    open spec fn flat_spec(&self) -> InterpM<(A::V, B::V, C::V, D::V, E::V, F::V, G::V)> {
        if self.0 is Actual && self.1 is Actual && self.2 is Actual && self.3 is Actual && self.4 is Actual && self.5 is Actual && self.6 is Actual {
            InterpM::Actual(((self.0->Actual_0).deep_view(), (self.1->Actual_0).deep_view(), (self.2->Actual_0).deep_view(), (self.3->Actual_0).deep_view(), (self.4->Actual_0).deep_view(), (self.5->Actual_0).deep_view(), (self.6->Actual_0).deep_view()))
        } else {
            InterpM::Inter(
                TokM::Group(
                    Delim::Brace,
                    seq![TokM::Group(Delim::Paren, tuple_piece_m(self.0) + tuple_piece_m(self.1) + tuple_piece_m(self.2) + tuple_piece_m(self.3) + tuple_piece_m(self.4) + tuple_piece_m(self.5) + tuple_piece_m(self.6))],
                ),
            )
        }
    }

    #[verifier::rlimit(100)]
    fn flatten_interpolation(self) -> (r: Interpolatable<(A, B, C, D, E, F, G)>) {
        match self {
            (Interpolatable::Actual(a0), Interpolatable::Actual(a1), Interpolatable::Actual(a2), Interpolatable::Actual(a3), Interpolatable::Actual(a4), Interpolatable::Actual(a5), Interpolatable::Actual(a6)) => Interpolatable::Actual((a0, a1, a2, a3, a4, a5, a6)),
            (x0, x1, x2, x3, x4, x5, x6) => {
                let mut inner = Tree::new();
                inner.append(x0.bake());
                inner.push_mark('.');
                inner.push_word("into");
                inner.push_group(Delim::Paren, Tree::new());
                inner.push_mark(',');
                proof {
                    assert(inner@ =~= tuple_piece_m(x0));
                }
                inner.append(x1.bake());
                inner.push_mark('.');
                inner.push_word("into");
                inner.push_group(Delim::Paren, Tree::new());
                inner.push_mark(',');
                proof {
                    assert(inner@ =~= tuple_piece_m(x0) + tuple_piece_m(x1));
                }
                inner.append(x2.bake());
                inner.push_mark('.');
                inner.push_word("into");
                inner.push_group(Delim::Paren, Tree::new());
                inner.push_mark(',');
                proof {
                    assert(inner@ =~= tuple_piece_m(x0) + tuple_piece_m(x1) + tuple_piece_m(x2));
                }
                inner.append(x3.bake());
                inner.push_mark('.');
                inner.push_word("into");
                inner.push_group(Delim::Paren, Tree::new());
                inner.push_mark(',');
                proof {
                    assert(inner@ =~= tuple_piece_m(x0) + tuple_piece_m(x1) + tuple_piece_m(x2) + tuple_piece_m(x3));
                }
                inner.append(x4.bake());
                inner.push_mark('.');
                inner.push_word("into");
                inner.push_group(Delim::Paren, Tree::new());
                inner.push_mark(',');
                proof {
                    assert(inner@ =~= tuple_piece_m(x0) + tuple_piece_m(x1) + tuple_piece_m(x2) + tuple_piece_m(x3) + tuple_piece_m(x4));
                }
                inner.append(x5.bake());
                inner.push_mark('.');
                inner.push_word("into");
                inner.push_group(Delim::Paren, Tree::new());
                inner.push_mark(',');
                proof {
                    assert(inner@ =~= tuple_piece_m(x0) + tuple_piece_m(x1) + tuple_piece_m(x2) + tuple_piece_m(x3) + tuple_piece_m(x4) + tuple_piece_m(x5));
                }
                inner.append(x6.bake());
                inner.push_mark('.');
                inner.push_word("into");
                inner.push_group(Delim::Paren, Tree::new());
                inner.push_mark(',');
                proof {
                    assert(inner@ =~= tuple_piece_m(x0) + tuple_piece_m(x1) + tuple_piece_m(x2) + tuple_piece_m(x3) + tuple_piece_m(x4) + tuple_piece_m(x5) + tuple_piece_m(x6));
                }
                let mut g = Tree::new();
                g.push_group(Delim::Paren, inner);
                Interpolatable::Inter(Tok::Group(Delim::Brace, g.toks))
            },
        }
    }
}

impl<A: Bake + DeepView, B: Bake + DeepView, C: Bake + DeepView, D: Bake + DeepView, E: Bake + DeepView, F: Bake + DeepView, G: Bake + DeepView, H: Bake + DeepView> FlattenInterpolation<(A, B, C, D, E, F, G, H)> for (Interpolatable<A>, Interpolatable<B>, Interpolatable<C>, Interpolatable<D>, Interpolatable<E>, Interpolatable<F>, Interpolatable<G>, Interpolatable<H>) {
    open spec fn flat_spec(&self) -> InterpM<(A::V, B::V, C::V, D::V, E::V, F::V, G::V, H::V)> {
        if self.0 is Actual && self.1 is Actual && self.2 is Actual && self.3 is Actual && self.4 is Actual && self.5 is Actual && self.6 is Actual && self.7 is Actual {
            InterpM::Actual(((self.0->Actual_0).deep_view(), (self.1->Actual_0).deep_view(), (self.2->Actual_0).deep_view(), (self.3->Actual_0).deep_view(), (self.4->Actual_0).deep_view(), (self.5->Actual_0).deep_view(), (self.6->Actual_0).deep_view(), (self.7->Actual_0).deep_view()))
        } else {
            InterpM::Inter(
                TokM::Group(
                    Delim::Brace,
                    seq![TokM::Group(Delim::Paren, tuple_piece_m(self.0) + tuple_piece_m(self.1) + tuple_piece_m(self.2) + tuple_piece_m(self.3) + tuple_piece_m(self.4) + tuple_piece_m(self.5) + tuple_piece_m(self.6) + tuple_piece_m(self.7))],
                ),
            )
        }
    }

    #[verifier::rlimit(100)]
    fn flatten_interpolation(self) -> (r: Interpolatable<(A, B, C, D, E, F, G, H)>) {
        match self {
            (Interpolatable::Actual(a0), Interpolatable::Actual(a1), Interpolatable::Actual(a2), Interpolatable::Actual(a3), Interpolatable::Actual(a4), Interpolatable::Actual(a5), Interpolatable::Actual(a6), Interpolatable::Actual(a7)) => Interpolatable::Actual((a0, a1, a2, a3, a4, a5, a6, a7)),
            (x0, x1, x2, x3, x4, x5, x6, x7) => {
                let mut inner = Tree::new();
                inner.append(x0.bake());
                inner.push_mark('.');
                inner.push_word("into");
                inner.push_group(Delim::Paren, Tree::new());
                inner.push_mark(',');
                proof {
                    assert(inner@ =~= tuple_piece_m(x0));
                }
                inner.append(x1.bake());
                inner.push_mark('.');
                inner.push_word("into");
                inner.push_group(Delim::Paren, Tree::new());
                inner.push_mark(',');
                proof {
                    assert(inner@ =~= tuple_piece_m(x0) + tuple_piece_m(x1));
                }
                inner.append(x2.bake());
                inner.push_mark('.');
                inner.push_word("into");
                inner.push_group(Delim::Paren, Tree::new());
                inner.push_mark(',');
                proof {
                    assert(inner@ =~= tuple_piece_m(x0) + tuple_piece_m(x1) + tuple_piece_m(x2));
                }
                inner.append(x3.bake());
                inner.push_mark('.');
                inner.push_word("into");
                inner.push_group(Delim::Paren, Tree::new());
                inner.push_mark(',');
                proof {
                    assert(inner@ =~= tuple_piece_m(x0) + tuple_piece_m(x1) + tuple_piece_m(x2) + tuple_piece_m(x3));
                }
                inner.append(x4.bake());
                inner.push_mark('.');
                inner.push_word("into");
                inner.push_group(Delim::Paren, Tree::new());
                inner.push_mark(',');
                proof {
                    assert(inner@ =~= tuple_piece_m(x0) + tuple_piece_m(x1) + tuple_piece_m(x2) + tuple_piece_m(x3) + tuple_piece_m(x4));
                }
                inner.append(x5.bake());
                inner.push_mark('.');
                inner.push_word("into");
                inner.push_group(Delim::Paren, Tree::new());
                inner.push_mark(',');
                proof {
                    assert(inner@ =~= tuple_piece_m(x0) + tuple_piece_m(x1) + tuple_piece_m(x2) + tuple_piece_m(x3) + tuple_piece_m(x4) + tuple_piece_m(x5));
                }
                inner.append(x6.bake());
                inner.push_mark('.');
                inner.push_word("into");
                inner.push_group(Delim::Paren, Tree::new());
                inner.push_mark(',');
                proof {
                    assert(inner@ =~= tuple_piece_m(x0) + tuple_piece_m(x1) + tuple_piece_m(x2) + tuple_piece_m(x3) + tuple_piece_m(x4) + tuple_piece_m(x5) + tuple_piece_m(x6));
                }
                inner.append(x7.bake());
                inner.push_mark('.');
                inner.push_word("into");
                inner.push_group(Delim::Paren, Tree::new());
                inner.push_mark(',');
                proof {
                    assert(inner@ =~= tuple_piece_m(x0) + tuple_piece_m(x1) + tuple_piece_m(x2) + tuple_piece_m(x3) + tuple_piece_m(x4) + tuple_piece_m(x5) + tuple_piece_m(x6) + tuple_piece_m(x7));
                }
                let mut g = Tree::new();
                g.push_group(Delim::Paren, inner);
                Interpolatable::Inter(Tok::Group(Delim::Brace, g.toks))
            },
        }
    }
}

impl<A: Bake + DeepView, B: Bake + DeepView, C: Bake + DeepView, D: Bake + DeepView, E: Bake + DeepView, F: Bake + DeepView, G: Bake + DeepView, H: Bake + DeepView, I: Bake + DeepView> FlattenInterpolation<(A, B, C, D, E, F, G, H, I)> for (Interpolatable<A>, Interpolatable<B>, Interpolatable<C>, Interpolatable<D>, Interpolatable<E>, Interpolatable<F>, Interpolatable<G>, Interpolatable<H>, Interpolatable<I>) {
    open spec fn flat_spec(&self) -> InterpM<(A::V, B::V, C::V, D::V, E::V, F::V, G::V, H::V, I::V)> {
        if self.0 is Actual && self.1 is Actual && self.2 is Actual && self.3 is Actual && self.4 is Actual && self.5 is Actual && self.6 is Actual && self.7 is Actual && self.8 is Actual {
            InterpM::Actual(((self.0->Actual_0).deep_view(), (self.1->Actual_0).deep_view(), (self.2->Actual_0).deep_view(), (self.3->Actual_0).deep_view(), (self.4->Actual_0).deep_view(), (self.5->Actual_0).deep_view(), (self.6->Actual_0).deep_view(), (self.7->Actual_0).deep_view(), (self.8->Actual_0).deep_view()))
        } else {
            InterpM::Inter(
                TokM::Group(
                    Delim::Brace,
                    seq![TokM::Group(Delim::Paren, tuple_piece_m(self.0) + tuple_piece_m(self.1) + tuple_piece_m(self.2) + tuple_piece_m(self.3) + tuple_piece_m(self.4) + tuple_piece_m(self.5) + tuple_piece_m(self.6) + tuple_piece_m(self.7) + tuple_piece_m(self.8))],
                ),
            )
        }
    }

    #[verifier::rlimit(100)]
    fn flatten_interpolation(self) -> (r: Interpolatable<(A, B, C, D, E, F, G, H, I)>) {
        match self {
            (Interpolatable::Actual(a0), Interpolatable::Actual(a1), Interpolatable::Actual(a2), Interpolatable::Actual(a3), Interpolatable::Actual(a4), Interpolatable::Actual(a5), Interpolatable::Actual(a6), Interpolatable::Actual(a7), Interpolatable::Actual(a8)) => Interpolatable::Actual((a0, a1, a2, a3, a4, a5, a6, a7, a8)),
            (x0, x1, x2, x3, x4, x5, x6, x7, x8) => {
                let mut inner = Tree::new();
                inner.append(x0.bake());
                inner.push_mark('.');
                inner.push_word("into");
                inner.push_group(Delim::Paren, Tree::new());
                inner.push_mark(',');
                proof {
                    assert(inner@ =~= tuple_piece_m(x0));
                }
                inner.append(x1.bake());
                inner.push_mark('.');
                inner.push_word("into");
                inner.push_group(Delim::Paren, Tree::new());
                inner.push_mark(',');
                proof {
                    assert(inner@ =~= tuple_piece_m(x0) + tuple_piece_m(x1));
                }
                inner.append(x2.bake());
                inner.push_mark('.');
                inner.push_word("into");
                inner.push_group(Delim::Paren, Tree::new());
                inner.push_mark(',');
                proof {
                    assert(inner@ =~= tuple_piece_m(x0) + tuple_piece_m(x1) + tuple_piece_m(x2));
                }
                inner.append(x3.bake());
                inner.push_mark('.');
                inner.push_word("into");
                inner.push_group(Delim::Paren, Tree::new());
                inner.push_mark(',');
                proof {
                    assert(inner@ =~= tuple_piece_m(x0) + tuple_piece_m(x1) + tuple_piece_m(x2) + tuple_piece_m(x3));
                }
                inner.append(x4.bake());
                inner.push_mark('.');
                inner.push_word("into");
                inner.push_group(Delim::Paren, Tree::new());
                inner.push_mark(',');
                proof {
                    assert(inner@ =~= tuple_piece_m(x0) + tuple_piece_m(x1) + tuple_piece_m(x2) + tuple_piece_m(x3) + tuple_piece_m(x4));
                }
                inner.append(x5.bake());
                inner.push_mark('.');
                inner.push_word("into");
                inner.push_group(Delim::Paren, Tree::new());
                inner.push_mark(',');
                proof {
                    assert(inner@ =~= tuple_piece_m(x0) + tuple_piece_m(x1) + tuple_piece_m(x2) + tuple_piece_m(x3) + tuple_piece_m(x4) + tuple_piece_m(x5));
                }
                inner.append(x6.bake());
                inner.push_mark('.');
                inner.push_word("into");
                inner.push_group(Delim::Paren, Tree::new());
                inner.push_mark(',');
                proof {
                    assert(inner@ =~= tuple_piece_m(x0) + tuple_piece_m(x1) + tuple_piece_m(x2) + tuple_piece_m(x3) + tuple_piece_m(x4) + tuple_piece_m(x5) + tuple_piece_m(x6));
                }
                inner.append(x7.bake());
                inner.push_mark('.');
                inner.push_word("into");
                inner.push_group(Delim::Paren, Tree::new());
                inner.push_mark(',');
                proof {
                    assert(inner@ =~= tuple_piece_m(x0) + tuple_piece_m(x1) + tuple_piece_m(x2) + tuple_piece_m(x3) + tuple_piece_m(x4) + tuple_piece_m(x5) + tuple_piece_m(x6) + tuple_piece_m(x7));
                }
                inner.append(x8.bake());
                inner.push_mark('.');
                inner.push_word("into");
                inner.push_group(Delim::Paren, Tree::new());
                inner.push_mark(',');
                proof {
                    assert(inner@ =~= tuple_piece_m(x0) + tuple_piece_m(x1) + tuple_piece_m(x2) + tuple_piece_m(x3) + tuple_piece_m(x4) + tuple_piece_m(x5) + tuple_piece_m(x6) + tuple_piece_m(x7) + tuple_piece_m(x8));
                }
                let mut g = Tree::new();
                g.push_group(Delim::Paren, inner);
                Interpolatable::Inter(Tok::Group(Delim::Brace, g.toks))
            },
        }
    }
}

impl<A: Bake + DeepView, B: Bake + DeepView, C: Bake + DeepView, D: Bake + DeepView, E: Bake + DeepView, F: Bake + DeepView, G: Bake + DeepView, H: Bake + DeepView, I: Bake + DeepView, J: Bake + DeepView> FlattenInterpolation<(A, B, C, D, E, F, G, H, I, J)> for (Interpolatable<A>, Interpolatable<B>, Interpolatable<C>, Interpolatable<D>, Interpolatable<E>, Interpolatable<F>, Interpolatable<G>, Interpolatable<H>, Interpolatable<I>, Interpolatable<J>) {
    open spec fn flat_spec(&self) -> InterpM<(A::V, B::V, C::V, D::V, E::V, F::V, G::V, H::V, I::V, J::V)> {
        if self.0 is Actual && self.1 is Actual && self.2 is Actual && self.3 is Actual && self.4 is Actual && self.5 is Actual && self.6 is Actual && self.7 is Actual && self.8 is Actual && self.9 is Actual {
            InterpM::Actual(((self.0->Actual_0).deep_view(), (self.1->Actual_0).deep_view(), (self.2->Actual_0).deep_view(), (self.3->Actual_0).deep_view(), (self.4->Actual_0).deep_view(), (self.5->Actual_0).deep_view(), (self.6->Actual_0).deep_view(), (self.7->Actual_0).deep_view(), (self.8->Actual_0).deep_view(), (self.9->Actual_0).deep_view()))
        } else {
            InterpM::Inter(
                TokM::Group(
                    Delim::Brace,
                    seq![TokM::Group(Delim::Paren, tuple_piece_m(self.0) + tuple_piece_m(self.1) + tuple_piece_m(self.2) + tuple_piece_m(self.3) + tuple_piece_m(self.4) + tuple_piece_m(self.5) + tuple_piece_m(self.6) + tuple_piece_m(self.7) + tuple_piece_m(self.8) + tuple_piece_m(self.9))],
                ),
            )
        }
    }

    #[verifier::rlimit(100)]
    fn flatten_interpolation(self) -> (r: Interpolatable<(A, B, C, D, E, F, G, H, I, J)>) {
        match self {
            (Interpolatable::Actual(a0), Interpolatable::Actual(a1), Interpolatable::Actual(a2), Interpolatable::Actual(a3), Interpolatable::Actual(a4), Interpolatable::Actual(a5), Interpolatable::Actual(a6), Interpolatable::Actual(a7), Interpolatable::Actual(a8), Interpolatable::Actual(a9)) => Interpolatable::Actual((a0, a1, a2, a3, a4, a5, a6, a7, a8, a9)),
            (x0, x1, x2, x3, x4, x5, x6, x7, x8, x9) => {
                let mut inner = Tree::new();
                inner.append(x0.bake());
                inner.push_mark('.');
                inner.push_word("into");
                inner.push_group(Delim::Paren, Tree::new());
                inner.push_mark(',');
                proof {
                    assert(inner@ =~= tuple_piece_m(x0));
                }
                inner.append(x1.bake());
                inner.push_mark('.');
                inner.push_word("into");
                inner.push_group(Delim::Paren, Tree::new());
                inner.push_mark(',');
                proof {
                    assert(inner@ =~= tuple_piece_m(x0) + tuple_piece_m(x1));
                }
                inner.append(x2.bake());
                inner.push_mark('.');
                inner.push_word("into");
                inner.push_group(Delim::Paren, Tree::new());
                inner.push_mark(',');
                proof {
                    assert(inner@ =~= tuple_piece_m(x0) + tuple_piece_m(x1) + tuple_piece_m(x2));
                }
                inner.append(x3.bake());
                inner.push_mark('.');
                inner.push_word("into");
                inner.push_group(Delim::Paren, Tree::new());
                inner.push_mark(',');
                proof {
                    assert(inner@ =~= tuple_piece_m(x0) + tuple_piece_m(x1) + tuple_piece_m(x2) + tuple_piece_m(x3));
                }
                inner.append(x4.bake());
                inner.push_mark('.');
                inner.push_word("into");
                inner.push_group(Delim::Paren, Tree::new());
                inner.push_mark(',');
                proof {
                    assert(inner@ =~= tuple_piece_m(x0) + tuple_piece_m(x1) + tuple_piece_m(x2) + tuple_piece_m(x3) + tuple_piece_m(x4));
                }
                inner.append(x5.bake());
                inner.push_mark('.');
                inner.push_word("into");
                inner.push_group(Delim::Paren, Tree::new());
                inner.push_mark(',');
                proof {
                    assert(inner@ =~= tuple_piece_m(x0) + tuple_piece_m(x1) + tuple_piece_m(x2) + tuple_piece_m(x3) + tuple_piece_m(x4) + tuple_piece_m(x5));
                }
                inner.append(x6.bake());
                inner.push_mark('.');
                inner.push_word("into");
                inner.push_group(Delim::Paren, Tree::new());
                inner.push_mark(',');
                proof {
                    assert(inner@ =~= tuple_piece_m(x0) + tuple_piece_m(x1) + tuple_piece_m(x2) + tuple_piece_m(x3) + tuple_piece_m(x4) + tuple_piece_m(x5) + tuple_piece_m(x6));
                }
                inner.append(x7.bake());
                inner.push_mark('.');
                inner.push_word("into");
                inner.push_group(Delim::Paren, Tree::new());
                inner.push_mark(',');
                proof {
                    assert(inner@ =~= tuple_piece_m(x0) + tuple_piece_m(x1) + tuple_piece_m(x2) + tuple_piece_m(x3) + tuple_piece_m(x4) + tuple_piece_m(x5) + tuple_piece_m(x6) + tuple_piece_m(x7));
                }
                inner.append(x8.bake());
                inner.push_mark('.');
                inner.push_word("into");
                inner.push_group(Delim::Paren, Tree::new());
                inner.push_mark(',');
                proof {
                    assert(inner@ =~= tuple_piece_m(x0) + tuple_piece_m(x1) + tuple_piece_m(x2) + tuple_piece_m(x3) + tuple_piece_m(x4) + tuple_piece_m(x5) + tuple_piece_m(x6) + tuple_piece_m(x7) + tuple_piece_m(x8));
                }
                inner.append(x9.bake());
                inner.push_mark('.');
                inner.push_word("into");
                inner.push_group(Delim::Paren, Tree::new());
                inner.push_mark(',');
                proof {
                    assert(inner@ =~= tuple_piece_m(x0) + tuple_piece_m(x1) + tuple_piece_m(x2) + tuple_piece_m(x3) + tuple_piece_m(x4) + tuple_piece_m(x5) + tuple_piece_m(x6) + tuple_piece_m(x7) + tuple_piece_m(x8) + tuple_piece_m(x9));
                }
                let mut g = Tree::new();
                g.push_group(Delim::Paren, inner);
                Interpolatable::Inter(Tok::Group(Delim::Brace, g.toks))
            },
        }
    }
}

/// Tuple merge is all-or-nothing: with any deferred component, the promoted
/// fragment re-bakes every component's own syntax, the known ones included,
/// not just the deferred one.
pub proof fn lemma_tuple_merge_all_or_nothing<
    A: Bake + DeepView,
    B: Bake + DeepView,
    C: Bake + DeepView,
>(t: (Interpolatable<A>, Interpolatable<B>, Interpolatable<C>))
    requires
        !(t.0 is Actual && t.1 is Actual && t.2 is Actual),
    ensures
        t.flat_spec() is Inter,
        t.flat_spec() == InterpM::<(A::V, B::V, C::V)>::Inter(
            TokM::Group(
                Delim::Brace,
                seq![
                    TokM::Group(
                        Delim::Paren,
                        tuple_piece_m(t.0) + tuple_piece_m(t.1) + tuple_piece_m(t.2),
                    ),
                ],
            ),
        ),
{
}

} // verus!
