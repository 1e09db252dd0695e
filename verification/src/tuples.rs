//! Descriptions for tuples: a parenthesized, comma-terminated list of each
//! component's description, one implementation per arity.

use vstd::prelude::*;

use crate::bake::{
    comma_free, join_comma_term, lemma_join_comma_term_push, lemma_split_join_term, parts_wf,
    split_comma, Bake, BakeRoundTrip,
};
use crate::tokens::{Delim, TokM, Tree};

verus! {

impl<A: Bake> Bake for (A,) {
    open spec fn tok_spec(&self) -> Seq<TokM> {
        seq![TokM::Group(Delim::Paren, join_comma_term(seq![self.0.tok_spec()]))]
    }

    proof fn tok_spec_wf(&self) {
    }

    fn to_stream(&self) -> (r: Tree) {
        let mut inner = Tree::new();
        let ghost mut parts: Seq<Seq<TokM>> = Seq::empty();
        proof {
            assert(join_comma_term(parts) =~= inner@);
        }
        inner.append(self.0.to_stream());
        inner.push_mark(',');
        proof {
            lemma_join_comma_term_push(parts, self.0.tok_spec());
            parts = parts.push(self.0.tok_spec());
        }
        proof {
            assert(parts =~= seq![self.0.tok_spec()]);
        }
        let mut t = Tree::new();
        t.push_group(Delim::Paren, inner);
        t
    }
}

impl<A: BakeRoundTrip> BakeRoundTrip for (A,) {
    open spec fn from_toks(ts: Seq<TokM>) -> Option<(A::V,)> {
        if ts.len() == 1 {
            match ts[0] {
                TokM::Group(Delim::Paren, inner) => {
                    let parts = split_comma(inner);
                    if parts.len() == 1 {
                        match (A::from_toks(parts[0])) {
                            (Some(x0)) => Some((x0,)),
                            _ => None,
                        }
                    } else {
                        None
                    }
                },
                _ => None,
            }
        } else {
            None
        }
    }

    proof fn round_trip(&self) {
        let parts = seq![self.0.tok_spec()];
        self.0.tok_spec_wf();
        self.0.round_trip();
        assert(parts_wf(parts)) by {
            assert forall|i: int| 0 <= i < parts.len() implies (#[trigger] parts[i]).len() > 0
                && comma_free(parts[i]) by {
                assert(parts[0].len() > 0 && comma_free(parts[0]));
            }
        }
        lemma_split_join_term(parts);
    }
}

impl<A: Bake, B: Bake> Bake for (A, B) {
    open spec fn tok_spec(&self) -> Seq<TokM> {
        seq![TokM::Group(Delim::Paren, join_comma_term(seq![self.0.tok_spec(), self.1.tok_spec()]))]
    }

    proof fn tok_spec_wf(&self) {
    }

    fn to_stream(&self) -> (r: Tree) {
        let mut inner = Tree::new();
        let ghost mut parts: Seq<Seq<TokM>> = Seq::empty();
        proof {
            assert(join_comma_term(parts) =~= inner@);
        }
        inner.append(self.0.to_stream());
        inner.push_mark(',');
        proof {
            lemma_join_comma_term_push(parts, self.0.tok_spec());
            parts = parts.push(self.0.tok_spec());
        }
        inner.append(self.1.to_stream());
        inner.push_mark(',');
        proof {
            lemma_join_comma_term_push(parts, self.1.tok_spec());
            parts = parts.push(self.1.tok_spec());
        }
        proof {
            assert(parts =~= seq![self.0.tok_spec(), self.1.tok_spec()]);
        }
        let mut t = Tree::new();
        t.push_group(Delim::Paren, inner);
        t
    }
}

impl<A: BakeRoundTrip, B: BakeRoundTrip> BakeRoundTrip for (A, B) {
    open spec fn from_toks(ts: Seq<TokM>) -> Option<(A::V, B::V)> {
        if ts.len() == 1 {
            match ts[0] {
                TokM::Group(Delim::Paren, inner) => {
                    let parts = split_comma(inner);
                    if parts.len() == 2 {
                        match (A::from_toks(parts[0]), B::from_toks(parts[1])) {
                            (Some(x0), Some(x1)) => Some((x0, x1)),
                            _ => None,
                        }
                    } else {
                        None
                    }
                },
                _ => None,
            }
        } else {
            None
        }
    }

    proof fn round_trip(&self) {
        let parts = seq![self.0.tok_spec(), self.1.tok_spec()];
        self.0.tok_spec_wf();
        self.0.round_trip();
        self.1.tok_spec_wf();
        self.1.round_trip();
        assert(parts_wf(parts)) by {
            assert forall|i: int| 0 <= i < parts.len() implies (#[trigger] parts[i]).len() > 0
                && comma_free(parts[i]) by {
                assert(parts[0].len() > 0 && comma_free(parts[0]));
                assert(parts[1].len() > 0 && comma_free(parts[1]));
            }
        }
        lemma_split_join_term(parts);
    }
}

impl<A: Bake, B: Bake, C: Bake> Bake for (A, B, C) {
    open spec fn tok_spec(&self) -> Seq<TokM> {
        seq![TokM::Group(Delim::Paren, join_comma_term(seq![self.0.tok_spec(), self.1.tok_spec(), self.2.tok_spec()]))]
    }

    proof fn tok_spec_wf(&self) {
    }

    fn to_stream(&self) -> (r: Tree) {
        let mut inner = Tree::new();
        let ghost mut parts: Seq<Seq<TokM>> = Seq::empty();
        proof {
            assert(join_comma_term(parts) =~= inner@);
        }
        inner.append(self.0.to_stream());
        inner.push_mark(',');
        proof {
            lemma_join_comma_term_push(parts, self.0.tok_spec());
            parts = parts.push(self.0.tok_spec());
        }
        inner.append(self.1.to_stream());
        inner.push_mark(',');
        proof {
            lemma_join_comma_term_push(parts, self.1.tok_spec());
            parts = parts.push(self.1.tok_spec());
        }
        inner.append(self.2.to_stream());
        inner.push_mark(',');
        proof {
            lemma_join_comma_term_push(parts, self.2.tok_spec());
            parts = parts.push(self.2.tok_spec());
        }
        proof {
            assert(parts =~= seq![self.0.tok_spec(), self.1.tok_spec(), self.2.tok_spec()]);
        }
        let mut t = Tree::new();
        t.push_group(Delim::Paren, inner);
        t
    }
}

impl<A: BakeRoundTrip, B: BakeRoundTrip, C: BakeRoundTrip> BakeRoundTrip for (A, B, C) {
    open spec fn from_toks(ts: Seq<TokM>) -> Option<(A::V, B::V, C::V)> {
        if ts.len() == 1 {
            match ts[0] {
                TokM::Group(Delim::Paren, inner) => {
                    let parts = split_comma(inner);
                    if parts.len() == 3 {
                        match (A::from_toks(parts[0]), B::from_toks(parts[1]), C::from_toks(parts[2])) {
                            (Some(x0), Some(x1), Some(x2)) => Some((x0, x1, x2)),
                            _ => None,
                        }
                    } else {
                        None
                    }
                },
                _ => None,
            }
        } else {
            None
        }
    }

    proof fn round_trip(&self) {
        let parts = seq![self.0.tok_spec(), self.1.tok_spec(), self.2.tok_spec()];
        self.0.tok_spec_wf();
        self.0.round_trip();
        self.1.tok_spec_wf();
        self.1.round_trip();
        self.2.tok_spec_wf();
        self.2.round_trip();
        assert(parts_wf(parts)) by {
            assert forall|i: int| 0 <= i < parts.len() implies (#[trigger] parts[i]).len() > 0
                && comma_free(parts[i]) by {
                assert(parts[0].len() > 0 && comma_free(parts[0]));
                assert(parts[1].len() > 0 && comma_free(parts[1]));
                assert(parts[2].len() > 0 && comma_free(parts[2]));
            }
        }
        lemma_split_join_term(parts);
    }
}

impl<A: Bake, B: Bake, C: Bake, D: Bake> Bake for (A, B, C, D) {
    open spec fn tok_spec(&self) -> Seq<TokM> {
        seq![TokM::Group(Delim::Paren, join_comma_term(seq![self.0.tok_spec(), self.1.tok_spec(), self.2.tok_spec(), self.3.tok_spec()]))]
    }

    proof fn tok_spec_wf(&self) {
    }

    fn to_stream(&self) -> (r: Tree) {
        let mut inner = Tree::new();
        let ghost mut parts: Seq<Seq<TokM>> = Seq::empty();
        proof {
            assert(join_comma_term(parts) =~= inner@);
        }
        inner.append(self.0.to_stream());
        inner.push_mark(',');
        proof {
            lemma_join_comma_term_push(parts, self.0.tok_spec());
            parts = parts.push(self.0.tok_spec());
        }
        inner.append(self.1.to_stream());
        inner.push_mark(',');
        proof {
            lemma_join_comma_term_push(parts, self.1.tok_spec());
            parts = parts.push(self.1.tok_spec());
        }
        inner.append(self.2.to_stream());
        inner.push_mark(',');
        proof {
            lemma_join_comma_term_push(parts, self.2.tok_spec());
            parts = parts.push(self.2.tok_spec());
        }
        inner.append(self.3.to_stream());
        inner.push_mark(',');
        proof {
            lemma_join_comma_term_push(parts, self.3.tok_spec());
            parts = parts.push(self.3.tok_spec());
        }
        proof {
            assert(parts =~= seq![self.0.tok_spec(), self.1.tok_spec(), self.2.tok_spec(), self.3.tok_spec()]);
        }
        let mut t = Tree::new();
        t.push_group(Delim::Paren, inner);
        t
    }
}

impl<A: BakeRoundTrip, B: BakeRoundTrip, C: BakeRoundTrip, D: BakeRoundTrip> BakeRoundTrip for (A, B, C, D) {
    open spec fn from_toks(ts: Seq<TokM>) -> Option<(A::V, B::V, C::V, D::V)> {
        if ts.len() == 1 {
            match ts[0] {
                TokM::Group(Delim::Paren, inner) => {
                    let parts = split_comma(inner);
                    if parts.len() == 4 {
                        match (A::from_toks(parts[0]), B::from_toks(parts[1]), C::from_toks(parts[2]), D::from_toks(parts[3])) {
                            (Some(x0), Some(x1), Some(x2), Some(x3)) => Some((x0, x1, x2, x3)),
                            _ => None,
                        }
                    } else {
                        None
                    }
                },
                _ => None,
            }
        } else {
            None
        }
    }

    proof fn round_trip(&self) {
        let parts = seq![self.0.tok_spec(), self.1.tok_spec(), self.2.tok_spec(), self.3.tok_spec()];
        self.0.tok_spec_wf();
        self.0.round_trip();
        self.1.tok_spec_wf();
        self.1.round_trip();
        self.2.tok_spec_wf();
        self.2.round_trip();
        self.3.tok_spec_wf();
        self.3.round_trip();
        assert(parts_wf(parts)) by {
            assert forall|i: int| 0 <= i < parts.len() implies (#[trigger] parts[i]).len() > 0
                && comma_free(parts[i]) by {
                assert(parts[0].len() > 0 && comma_free(parts[0]));
                assert(parts[1].len() > 0 && comma_free(parts[1]));
                assert(parts[2].len() > 0 && comma_free(parts[2]));
                assert(parts[3].len() > 0 && comma_free(parts[3]));
            }
        }
        lemma_split_join_term(parts);
    }
}

impl<A: Bake, B: Bake, C: Bake, D: Bake, E: Bake> Bake for (A, B, C, D, E) {
    open spec fn tok_spec(&self) -> Seq<TokM> {
        seq![TokM::Group(Delim::Paren, join_comma_term(seq![self.0.tok_spec(), self.1.tok_spec(), self.2.tok_spec(), self.3.tok_spec(), self.4.tok_spec()]))]
    }

    proof fn tok_spec_wf(&self) {
    }

    fn to_stream(&self) -> (r: Tree) {
        let mut inner = Tree::new();
        let ghost mut parts: Seq<Seq<TokM>> = Seq::empty();
        proof {
            assert(join_comma_term(parts) =~= inner@);
        }
        inner.append(self.0.to_stream());
        inner.push_mark(',');
        proof {
            lemma_join_comma_term_push(parts, self.0.tok_spec());
            parts = parts.push(self.0.tok_spec());
        }
        inner.append(self.1.to_stream());
        inner.push_mark(',');
        proof {
            lemma_join_comma_term_push(parts, self.1.tok_spec());
            parts = parts.push(self.1.tok_spec());
        }
        inner.append(self.2.to_stream());
        inner.push_mark(',');
        proof {
            lemma_join_comma_term_push(parts, self.2.tok_spec());
            parts = parts.push(self.2.tok_spec());
        }
        inner.append(self.3.to_stream());
        inner.push_mark(',');
        proof {
            lemma_join_comma_term_push(parts, self.3.tok_spec());
            parts = parts.push(self.3.tok_spec());
        }
        inner.append(self.4.to_stream());
        inner.push_mark(',');
        proof {
            lemma_join_comma_term_push(parts, self.4.tok_spec());
            parts = parts.push(self.4.tok_spec());
        }
        proof {
            assert(parts =~= seq![self.0.tok_spec(), self.1.tok_spec(), self.2.tok_spec(), self.3.tok_spec(), self.4.tok_spec()]);
        }
        let mut t = Tree::new();
        t.push_group(Delim::Paren, inner);
        t
    }
}

impl<A: BakeRoundTrip, B: BakeRoundTrip, C: BakeRoundTrip, D: BakeRoundTrip, E: BakeRoundTrip> BakeRoundTrip for (A, B, C, D, E) {
    open spec fn from_toks(ts: Seq<TokM>) -> Option<(A::V, B::V, C::V, D::V, E::V)> {
        if ts.len() == 1 {
            match ts[0] {
                TokM::Group(Delim::Paren, inner) => {
                    let parts = split_comma(inner);
                    if parts.len() == 5 {
                        match (A::from_toks(parts[0]), B::from_toks(parts[1]), C::from_toks(parts[2]), D::from_toks(parts[3]), E::from_toks(parts[4])) {
                            (Some(x0), Some(x1), Some(x2), Some(x3), Some(x4)) => Some((x0, x1, x2, x3, x4)),
                            _ => None,
                        }
                    } else {
                        None
                    }
                },
                _ => None,
            }
        } else {
            None
        }
    }

    proof fn round_trip(&self) {
        let parts = seq![self.0.tok_spec(), self.1.tok_spec(), self.2.tok_spec(), self.3.tok_spec(), self.4.tok_spec()];
        self.0.tok_spec_wf();
        self.0.round_trip();
        self.1.tok_spec_wf();
        self.1.round_trip();
        self.2.tok_spec_wf();
        self.2.round_trip();
        self.3.tok_spec_wf();
        self.3.round_trip();
        self.4.tok_spec_wf();
        self.4.round_trip();
        assert(parts_wf(parts)) by {
            assert forall|i: int| 0 <= i < parts.len() implies (#[trigger] parts[i]).len() > 0
                && comma_free(parts[i]) by {
                assert(parts[0].len() > 0 && comma_free(parts[0]));
                assert(parts[1].len() > 0 && comma_free(parts[1]));
                assert(parts[2].len() > 0 && comma_free(parts[2]));
                assert(parts[3].len() > 0 && comma_free(parts[3]));
                assert(parts[4].len() > 0 && comma_free(parts[4]));
            }
        }
        lemma_split_join_term(parts);
    }
}

impl<A: Bake, B: Bake, C: Bake, D: Bake, E: Bake, F: Bake> Bake for (A, B, C, D, E, F) {
    open spec fn tok_spec(&self) -> Seq<TokM> {
        seq![TokM::Group(Delim::Paren, join_comma_term(seq![self.0.tok_spec(), self.1.tok_spec(), self.2.tok_spec(), self.3.tok_spec(), self.4.tok_spec(), self.5.tok_spec()]))]
    }

    proof fn tok_spec_wf(&self) {
    }

    fn to_stream(&self) -> (r: Tree) {
        let mut inner = Tree::new();
        let ghost mut parts: Seq<Seq<TokM>> = Seq::empty();
        proof {
            assert(join_comma_term(parts) =~= inner@);
        }
        inner.append(self.0.to_stream());
        inner.push_mark(',');
        proof {
            lemma_join_comma_term_push(parts, self.0.tok_spec());
            parts = parts.push(self.0.tok_spec());
        }
        inner.append(self.1.to_stream());
        inner.push_mark(',');
        proof {
            lemma_join_comma_term_push(parts, self.1.tok_spec());
            parts = parts.push(self.1.tok_spec());
        }
        inner.append(self.2.to_stream());
        inner.push_mark(',');
        proof {
            lemma_join_comma_term_push(parts, self.2.tok_spec());
            parts = parts.push(self.2.tok_spec());
        }
        inner.append(self.3.to_stream());
        inner.push_mark(',');
        proof {
            lemma_join_comma_term_push(parts, self.3.tok_spec());
            parts = parts.push(self.3.tok_spec());
        }
        inner.append(self.4.to_stream());
        inner.push_mark(',');
        proof {
            lemma_join_comma_term_push(parts, self.4.tok_spec());
            parts = parts.push(self.4.tok_spec());
        }
        inner.append(self.5.to_stream());
        inner.push_mark(',');
        proof {
            lemma_join_comma_term_push(parts, self.5.tok_spec());
            parts = parts.push(self.5.tok_spec());
        }
        proof {
            assert(parts =~= seq![self.0.tok_spec(), self.1.tok_spec(), self.2.tok_spec(), self.3.tok_spec(), self.4.tok_spec(), self.5.tok_spec()]);
        }
        let mut t = Tree::new();
        t.push_group(Delim::Paren, inner);
        t
    }
}

impl<A: BakeRoundTrip, B: BakeRoundTrip, C: BakeRoundTrip, D: BakeRoundTrip, E: BakeRoundTrip, F: BakeRoundTrip> BakeRoundTrip for (A, B, C, D, E, F) {
    open spec fn from_toks(ts: Seq<TokM>) -> Option<(A::V, B::V, C::V, D::V, E::V, F::V)> {
        if ts.len() == 1 {
            match ts[0] {
                TokM::Group(Delim::Paren, inner) => {
                    let parts = split_comma(inner);
                    if parts.len() == 6 {
                        match (A::from_toks(parts[0]), B::from_toks(parts[1]), C::from_toks(parts[2]), D::from_toks(parts[3]), E::from_toks(parts[4]), F::from_toks(parts[5])) {
                            (Some(x0), Some(x1), Some(x2), Some(x3), Some(x4), Some(x5)) => Some((x0, x1, x2, x3, x4, x5)),
                            _ => None,
                        }
                    } else {
                        None
                    }
                },
                _ => None,
            }
        } else {
            None
        }
    }

    proof fn round_trip(&self) {
        let parts = seq![self.0.tok_spec(), self.1.tok_spec(), self.2.tok_spec(), self.3.tok_spec(), self.4.tok_spec(), self.5.tok_spec()];
        self.0.tok_spec_wf();
        self.0.round_trip();
        self.1.tok_spec_wf();
        self.1.round_trip();
        self.2.tok_spec_wf();
        self.2.round_trip();
        self.3.tok_spec_wf();
        self.3.round_trip();
        self.4.tok_spec_wf();
        self.4.round_trip();
        self.5.tok_spec_wf();
        self.5.round_trip();
        assert(parts_wf(parts)) by {
            assert forall|i: int| 0 <= i < parts.len() implies (#[trigger] parts[i]).len() > 0
                && comma_free(parts[i]) by {
                assert(parts[0].len() > 0 && comma_free(parts[0]));
                assert(parts[1].len() > 0 && comma_free(parts[1]));
                assert(parts[2].len() > 0 && comma_free(parts[2]));
                assert(parts[3].len() > 0 && comma_free(parts[3]));
                assert(parts[4].len() > 0 && comma_free(parts[4]));
                assert(parts[5].len() > 0 && comma_free(parts[5]));
            }
        }
        lemma_split_join_term(parts);
    }
}

impl<A: Bake, B: Bake, C: Bake, D: Bake, E: Bake, F: Bake, G: Bake> Bake for (A, B, C, D, E, F, G) {
    open spec fn tok_spec(&self) -> Seq<TokM> {
        seq![TokM::Group(Delim::Paren, join_comma_term(seq![self.0.tok_spec(), self.1.tok_spec(), self.2.tok_spec(), self.3.tok_spec(), self.4.tok_spec(), self.5.tok_spec(), self.6.tok_spec()]))]
    }

    proof fn tok_spec_wf(&self) {
    }

    fn to_stream(&self) -> (r: Tree) {
        let mut inner = Tree::new();
        let ghost mut parts: Seq<Seq<TokM>> = Seq::empty();
        proof {
            assert(join_comma_term(parts) =~= inner@);
        }
        inner.append(self.0.to_stream());
        inner.push_mark(',');
        proof {
            lemma_join_comma_term_push(parts, self.0.tok_spec());
            parts = parts.push(self.0.tok_spec());
        }
        inner.append(self.1.to_stream());
        inner.push_mark(',');
        proof {
            lemma_join_comma_term_push(parts, self.1.tok_spec());
            parts = parts.push(self.1.tok_spec());
        }
        inner.append(self.2.to_stream());
        inner.push_mark(',');
        proof {
            lemma_join_comma_term_push(parts, self.2.tok_spec());
            parts = parts.push(self.2.tok_spec());
        }
        inner.append(self.3.to_stream());
        inner.push_mark(',');
        proof {
            lemma_join_comma_term_push(parts, self.3.tok_spec());
            parts = parts.push(self.3.tok_spec());
        }
        inner.append(self.4.to_stream());
        inner.push_mark(',');
        proof {
            lemma_join_comma_term_push(parts, self.4.tok_spec());
            parts = parts.push(self.4.tok_spec());
        }
        inner.append(self.5.to_stream());
        inner.push_mark(',');
        proof {
            lemma_join_comma_term_push(parts, self.5.tok_spec());
            parts = parts.push(self.5.tok_spec());
        }
        inner.append(self.6.to_stream());
        inner.push_mark(',');
        proof {
            lemma_join_comma_term_push(parts, self.6.tok_spec());
            parts = parts.push(self.6.tok_spec());
        }
        proof {
            assert(parts =~= seq![self.0.tok_spec(), self.1.tok_spec(), self.2.tok_spec(), self.3.tok_spec(), self.4.tok_spec(), self.5.tok_spec(), self.6.tok_spec()]);
        }
        let mut t = Tree::new();
        t.push_group(Delim::Paren, inner);
        t
    }
}

impl<A: BakeRoundTrip, B: BakeRoundTrip, C: BakeRoundTrip, D: BakeRoundTrip, E: BakeRoundTrip, F: BakeRoundTrip, G: BakeRoundTrip> BakeRoundTrip for (A, B, C, D, E, F, G) {
    open spec fn from_toks(ts: Seq<TokM>) -> Option<(A::V, B::V, C::V, D::V, E::V, F::V, G::V)> {
        if ts.len() == 1 {
            match ts[0] {
                TokM::Group(Delim::Paren, inner) => {
                    let parts = split_comma(inner);
                    if parts.len() == 7 {
                        match (A::from_toks(parts[0]), B::from_toks(parts[1]), C::from_toks(parts[2]), D::from_toks(parts[3]), E::from_toks(parts[4]), F::from_toks(parts[5]), G::from_toks(parts[6])) {
                            (Some(x0), Some(x1), Some(x2), Some(x3), Some(x4), Some(x5), Some(x6)) => Some((x0, x1, x2, x3, x4, x5, x6)),
                            _ => None,
                        }
                    } else {
                        None
                    }
                },
                _ => None,
            }
        } else {
            None
        }
    }

    proof fn round_trip(&self) {
        let parts = seq![self.0.tok_spec(), self.1.tok_spec(), self.2.tok_spec(), self.3.tok_spec(), self.4.tok_spec(), self.5.tok_spec(), self.6.tok_spec()];
        self.0.tok_spec_wf();
        self.0.round_trip();
        self.1.tok_spec_wf();
        self.1.round_trip();
        self.2.tok_spec_wf();
        self.2.round_trip();
        self.3.tok_spec_wf();
        self.3.round_trip();
        self.4.tok_spec_wf();
        self.4.round_trip();
        self.5.tok_spec_wf();
        self.5.round_trip();
        self.6.tok_spec_wf();
        self.6.round_trip();
        assert(parts_wf(parts)) by {
            assert forall|i: int| 0 <= i < parts.len() implies (#[trigger] parts[i]).len() > 0
                && comma_free(parts[i]) by {
                assert(parts[0].len() > 0 && comma_free(parts[0]));
                assert(parts[1].len() > 0 && comma_free(parts[1]));
                assert(parts[2].len() > 0 && comma_free(parts[2]));
                assert(parts[3].len() > 0 && comma_free(parts[3]));
                assert(parts[4].len() > 0 && comma_free(parts[4]));
                assert(parts[5].len() > 0 && comma_free(parts[5]));
                assert(parts[6].len() > 0 && comma_free(parts[6]));
            }
        }
        lemma_split_join_term(parts);
    }
}

impl<A: Bake, B: Bake, C: Bake, D: Bake, E: Bake, F: Bake, G: Bake, H: Bake> Bake for (A, B, C, D, E, F, G, H) {
    open spec fn tok_spec(&self) -> Seq<TokM> {
        seq![TokM::Group(Delim::Paren, join_comma_term(seq![self.0.tok_spec(), self.1.tok_spec(), self.2.tok_spec(), self.3.tok_spec(), self.4.tok_spec(), self.5.tok_spec(), self.6.tok_spec(), self.7.tok_spec()]))]
    }

    proof fn tok_spec_wf(&self) {
    }

    fn to_stream(&self) -> (r: Tree) {
        let mut inner = Tree::new();
        let ghost mut parts: Seq<Seq<TokM>> = Seq::empty();
        proof {
            assert(join_comma_term(parts) =~= inner@);
        }
        inner.append(self.0.to_stream());
        inner.push_mark(',');
        proof {
            lemma_join_comma_term_push(parts, self.0.tok_spec());
            parts = parts.push(self.0.tok_spec());
        }
        inner.append(self.1.to_stream());
        inner.push_mark(',');
        proof {
            lemma_join_comma_term_push(parts, self.1.tok_spec());
            parts = parts.push(self.1.tok_spec());
        }
        inner.append(self.2.to_stream());
        inner.push_mark(',');
        proof {
            lemma_join_comma_term_push(parts, self.2.tok_spec());
            parts = parts.push(self.2.tok_spec());
        }
        inner.append(self.3.to_stream());
        inner.push_mark(',');
        proof {
            lemma_join_comma_term_push(parts, self.3.tok_spec());
            parts = parts.push(self.3.tok_spec());
        }
        inner.append(self.4.to_stream());
        inner.push_mark(',');
        proof {
            lemma_join_comma_term_push(parts, self.4.tok_spec());
            parts = parts.push(self.4.tok_spec());
        }
        inner.append(self.5.to_stream());
        inner.push_mark(',');
        proof {
            lemma_join_comma_term_push(parts, self.5.tok_spec());
            parts = parts.push(self.5.tok_spec());
        }
        inner.append(self.6.to_stream());
        inner.push_mark(',');
        proof {
            lemma_join_comma_term_push(parts, self.6.tok_spec());
            parts = parts.push(self.6.tok_spec());
        }
        inner.append(self.7.to_stream());
        inner.push_mark(',');
        proof {
            lemma_join_comma_term_push(parts, self.7.tok_spec());
            parts = parts.push(self.7.tok_spec());
        }
        proof {
            assert(parts =~= seq![self.0.tok_spec(), self.1.tok_spec(), self.2.tok_spec(), self.3.tok_spec(), self.4.tok_spec(), self.5.tok_spec(), self.6.tok_spec(), self.7.tok_spec()]);
        }
        let mut t = Tree::new();
        t.push_group(Delim::Paren, inner);
        t
    }
}

impl<A: BakeRoundTrip, B: BakeRoundTrip, C: BakeRoundTrip, D: BakeRoundTrip, E: BakeRoundTrip, F: BakeRoundTrip, G: BakeRoundTrip, H: BakeRoundTrip> BakeRoundTrip for (A, B, C, D, E, F, G, H) {
    open spec fn from_toks(ts: Seq<TokM>) -> Option<(A::V, B::V, C::V, D::V, E::V, F::V, G::V, H::V)> {
        if ts.len() == 1 {
            match ts[0] {
                TokM::Group(Delim::Paren, inner) => {
                    let parts = split_comma(inner);
                    if parts.len() == 8 {
                        match (A::from_toks(parts[0]), B::from_toks(parts[1]), C::from_toks(parts[2]), D::from_toks(parts[3]), E::from_toks(parts[4]), F::from_toks(parts[5]), G::from_toks(parts[6]), H::from_toks(parts[7])) {
                            (Some(x0), Some(x1), Some(x2), Some(x3), Some(x4), Some(x5), Some(x6), Some(x7)) => Some((x0, x1, x2, x3, x4, x5, x6, x7)),
                            _ => None,
                        }
                    } else {
                        None
                    }
                },
                _ => None,
            }
        } else {
            None
        }
    }

    proof fn round_trip(&self) {
        let parts = seq![self.0.tok_spec(), self.1.tok_spec(), self.2.tok_spec(), self.3.tok_spec(), self.4.tok_spec(), self.5.tok_spec(), self.6.tok_spec(), self.7.tok_spec()];
        self.0.tok_spec_wf();
        self.0.round_trip();
        self.1.tok_spec_wf();
        self.1.round_trip();
        self.2.tok_spec_wf();
        self.2.round_trip();
        self.3.tok_spec_wf();
        self.3.round_trip();
        self.4.tok_spec_wf();
        self.4.round_trip();
        self.5.tok_spec_wf();
        self.5.round_trip();
        self.6.tok_spec_wf();
        self.6.round_trip();
        self.7.tok_spec_wf();
        self.7.round_trip();
        assert(parts_wf(parts)) by {
            assert forall|i: int| 0 <= i < parts.len() implies (#[trigger] parts[i]).len() > 0
                && comma_free(parts[i]) by {
                assert(parts[0].len() > 0 && comma_free(parts[0]));
                assert(parts[1].len() > 0 && comma_free(parts[1]));
                assert(parts[2].len() > 0 && comma_free(parts[2]));
                assert(parts[3].len() > 0 && comma_free(parts[3]));
                assert(parts[4].len() > 0 && comma_free(parts[4]));
                assert(parts[5].len() > 0 && comma_free(parts[5]));
                assert(parts[6].len() > 0 && comma_free(parts[6]));
                assert(parts[7].len() > 0 && comma_free(parts[7]));
            }
        }
        lemma_split_join_term(parts);
    }
}

impl<A: Bake, B: Bake, C: Bake, D: Bake, E: Bake, F: Bake, G: Bake, H: Bake, I: Bake> Bake for (A, B, C, D, E, F, G, H, I) {
    open spec fn tok_spec(&self) -> Seq<TokM> {
        seq![TokM::Group(Delim::Paren, join_comma_term(seq![self.0.tok_spec(), self.1.tok_spec(), self.2.tok_spec(), self.3.tok_spec(), self.4.tok_spec(), self.5.tok_spec(), self.6.tok_spec(), self.7.tok_spec(), self.8.tok_spec()]))]
    }

    proof fn tok_spec_wf(&self) {
    }

    fn to_stream(&self) -> (r: Tree) {
        let mut inner = Tree::new();
        let ghost mut parts: Seq<Seq<TokM>> = Seq::empty();
        proof {
            assert(join_comma_term(parts) =~= inner@);
        }
        inner.append(self.0.to_stream());
        inner.push_mark(',');
        proof {
            lemma_join_comma_term_push(parts, self.0.tok_spec());
            parts = parts.push(self.0.tok_spec());
        }
        inner.append(self.1.to_stream());
        inner.push_mark(',');
        proof {
            lemma_join_comma_term_push(parts, self.1.tok_spec());
            parts = parts.push(self.1.tok_spec());
        }
        inner.append(self.2.to_stream());
        inner.push_mark(',');
        proof {
            lemma_join_comma_term_push(parts, self.2.tok_spec());
            parts = parts.push(self.2.tok_spec());
        }
        inner.append(self.3.to_stream());
        inner.push_mark(',');
        proof {
            lemma_join_comma_term_push(parts, self.3.tok_spec());
            parts = parts.push(self.3.tok_spec());
        }
        inner.append(self.4.to_stream());
        inner.push_mark(',');
        proof {
            lemma_join_comma_term_push(parts, self.4.tok_spec());
            parts = parts.push(self.4.tok_spec());
        }
        inner.append(self.5.to_stream());
        inner.push_mark(',');
        proof {
            lemma_join_comma_term_push(parts, self.5.tok_spec());
            parts = parts.push(self.5.tok_spec());
        }
        inner.append(self.6.to_stream());
        inner.push_mark(',');
        proof {
            lemma_join_comma_term_push(parts, self.6.tok_spec());
            parts = parts.push(self.6.tok_spec());
        }
        inner.append(self.7.to_stream());
        inner.push_mark(',');
        proof {
            lemma_join_comma_term_push(parts, self.7.tok_spec());
            parts = parts.push(self.7.tok_spec());
        }
        inner.append(self.8.to_stream());
        inner.push_mark(',');
        proof {
            lemma_join_comma_term_push(parts, self.8.tok_spec());
            parts = parts.push(self.8.tok_spec());
        }
        proof {
            assert(parts =~= seq![self.0.tok_spec(), self.1.tok_spec(), self.2.tok_spec(), self.3.tok_spec(), self.4.tok_spec(), self.5.tok_spec(), self.6.tok_spec(), self.7.tok_spec(), self.8.tok_spec()]);
        }
        let mut t = Tree::new();
        t.push_group(Delim::Paren, inner);
        t
    }
}

impl<A: BakeRoundTrip, B: BakeRoundTrip, C: BakeRoundTrip, D: BakeRoundTrip, E: BakeRoundTrip, F: BakeRoundTrip, G: BakeRoundTrip, H: BakeRoundTrip, I: BakeRoundTrip> BakeRoundTrip for (A, B, C, D, E, F, G, H, I) {
    open spec fn from_toks(ts: Seq<TokM>) -> Option<(A::V, B::V, C::V, D::V, E::V, F::V, G::V, H::V, I::V)> {
        if ts.len() == 1 {
            match ts[0] {
                TokM::Group(Delim::Paren, inner) => {
                    let parts = split_comma(inner);
                    if parts.len() == 9 {
                        match (A::from_toks(parts[0]), B::from_toks(parts[1]), C::from_toks(parts[2]), D::from_toks(parts[3]), E::from_toks(parts[4]), F::from_toks(parts[5]), G::from_toks(parts[6]), H::from_toks(parts[7]), I::from_toks(parts[8])) {
                            (Some(x0), Some(x1), Some(x2), Some(x3), Some(x4), Some(x5), Some(x6), Some(x7), Some(x8)) => Some((x0, x1, x2, x3, x4, x5, x6, x7, x8)),
                            _ => None,
                        }
                    } else {
                        None
                    }
                },
                _ => None,
            }
        } else {
            None
        }
    }

    proof fn round_trip(&self) {
        let parts = seq![self.0.tok_spec(), self.1.tok_spec(), self.2.tok_spec(), self.3.tok_spec(), self.4.tok_spec(), self.5.tok_spec(), self.6.tok_spec(), self.7.tok_spec(), self.8.tok_spec()];
        self.0.tok_spec_wf();
        self.0.round_trip();
        self.1.tok_spec_wf();
        self.1.round_trip();
        self.2.tok_spec_wf();
        self.2.round_trip();
        self.3.tok_spec_wf();
        self.3.round_trip();
        self.4.tok_spec_wf();
        self.4.round_trip();
        self.5.tok_spec_wf();
        self.5.round_trip();
        self.6.tok_spec_wf();
        self.6.round_trip();
        self.7.tok_spec_wf();
        self.7.round_trip();
        self.8.tok_spec_wf();
        self.8.round_trip();
        assert(parts_wf(parts)) by {
            assert forall|i: int| 0 <= i < parts.len() implies (#[trigger] parts[i]).len() > 0
                && comma_free(parts[i]) by {
                assert(parts[0].len() > 0 && comma_free(parts[0]));
                assert(parts[1].len() > 0 && comma_free(parts[1]));
                assert(parts[2].len() > 0 && comma_free(parts[2]));
                assert(parts[3].len() > 0 && comma_free(parts[3]));
                assert(parts[4].len() > 0 && comma_free(parts[4]));
                assert(parts[5].len() > 0 && comma_free(parts[5]));
                assert(parts[6].len() > 0 && comma_free(parts[6]));
                assert(parts[7].len() > 0 && comma_free(parts[7]));
                assert(parts[8].len() > 0 && comma_free(parts[8]));
            }
        }
        lemma_split_join_term(parts);
    }
}

impl<A: Bake, B: Bake, C: Bake, D: Bake, E: Bake, F: Bake, G: Bake, H: Bake, I: Bake, J: Bake> Bake for (A, B, C, D, E, F, G, H, I, J) {
    open spec fn tok_spec(&self) -> Seq<TokM> {
        seq![TokM::Group(Delim::Paren, join_comma_term(seq![self.0.tok_spec(), self.1.tok_spec(), self.2.tok_spec(), self.3.tok_spec(), self.4.tok_spec(), self.5.tok_spec(), self.6.tok_spec(), self.7.tok_spec(), self.8.tok_spec(), self.9.tok_spec()]))]
    }

    proof fn tok_spec_wf(&self) {
    }

    fn to_stream(&self) -> (r: Tree) {
        let mut inner = Tree::new();
        let ghost mut parts: Seq<Seq<TokM>> = Seq::empty();
        proof {
            assert(join_comma_term(parts) =~= inner@);
        }
        inner.append(self.0.to_stream());
        inner.push_mark(',');
        proof {
            lemma_join_comma_term_push(parts, self.0.tok_spec());
            parts = parts.push(self.0.tok_spec());
        }
        inner.append(self.1.to_stream());
        inner.push_mark(',');
        proof {
            lemma_join_comma_term_push(parts, self.1.tok_spec());
            parts = parts.push(self.1.tok_spec());
        }
        inner.append(self.2.to_stream());
        inner.push_mark(',');
        proof {
            lemma_join_comma_term_push(parts, self.2.tok_spec());
            parts = parts.push(self.2.tok_spec());
        }
        inner.append(self.3.to_stream());
        inner.push_mark(',');
        proof {
            lemma_join_comma_term_push(parts, self.3.tok_spec());
            parts = parts.push(self.3.tok_spec());
        }
        inner.append(self.4.to_stream());
        inner.push_mark(',');
        proof {
            lemma_join_comma_term_push(parts, self.4.tok_spec());
            parts = parts.push(self.4.tok_spec());
        }
        inner.append(self.5.to_stream());
        inner.push_mark(',');
        proof {
            lemma_join_comma_term_push(parts, self.5.tok_spec());
            parts = parts.push(self.5.tok_spec());
        }
        inner.append(self.6.to_stream());
        inner.push_mark(',');
        proof {
            lemma_join_comma_term_push(parts, self.6.tok_spec());
            parts = parts.push(self.6.tok_spec());
        }
        inner.append(self.7.to_stream());
        inner.push_mark(',');
        proof {
            lemma_join_comma_term_push(parts, self.7.tok_spec());
            parts = parts.push(self.7.tok_spec());
        }
        inner.append(self.8.to_stream());
        inner.push_mark(',');
        proof {
            lemma_join_comma_term_push(parts, self.8.tok_spec());
            parts = parts.push(self.8.tok_spec());
        }
        inner.append(self.9.to_stream());
        inner.push_mark(',');
        proof {
            lemma_join_comma_term_push(parts, self.9.tok_spec());
            parts = parts.push(self.9.tok_spec());
        }
        proof {
            assert(parts =~= seq![self.0.tok_spec(), self.1.tok_spec(), self.2.tok_spec(), self.3.tok_spec(), self.4.tok_spec(), self.5.tok_spec(), self.6.tok_spec(), self.7.tok_spec(), self.8.tok_spec(), self.9.tok_spec()]);
        }
        let mut t = Tree::new();
        t.push_group(Delim::Paren, inner);
        t
    }
}

impl<A: BakeRoundTrip, B: BakeRoundTrip, C: BakeRoundTrip, D: BakeRoundTrip, E: BakeRoundTrip, F: BakeRoundTrip, G: BakeRoundTrip, H: BakeRoundTrip, I: BakeRoundTrip, J: BakeRoundTrip> BakeRoundTrip for (A, B, C, D, E, F, G, H, I, J) {
    open spec fn from_toks(ts: Seq<TokM>) -> Option<(A::V, B::V, C::V, D::V, E::V, F::V, G::V, H::V, I::V, J::V)> {
        if ts.len() == 1 {
            match ts[0] {
                TokM::Group(Delim::Paren, inner) => {
                    let parts = split_comma(inner);
                    if parts.len() == 10 {
                        match (A::from_toks(parts[0]), B::from_toks(parts[1]), C::from_toks(parts[2]), D::from_toks(parts[3]), E::from_toks(parts[4]), F::from_toks(parts[5]), G::from_toks(parts[6]), H::from_toks(parts[7]), I::from_toks(parts[8]), J::from_toks(parts[9])) {
                            (Some(x0), Some(x1), Some(x2), Some(x3), Some(x4), Some(x5), Some(x6), Some(x7), Some(x8), Some(x9)) => Some((x0, x1, x2, x3, x4, x5, x6, x7, x8, x9)),
                            _ => None,
                        }
                    } else {
                        None
                    }
                },
                _ => None,
            }
        } else {
            None
        }
    }

    proof fn round_trip(&self) {
        let parts = seq![self.0.tok_spec(), self.1.tok_spec(), self.2.tok_spec(), self.3.tok_spec(), self.4.tok_spec(), self.5.tok_spec(), self.6.tok_spec(), self.7.tok_spec(), self.8.tok_spec(), self.9.tok_spec()];
        self.0.tok_spec_wf();
        self.0.round_trip();
        self.1.tok_spec_wf();
        self.1.round_trip();
        self.2.tok_spec_wf();
        self.2.round_trip();
        self.3.tok_spec_wf();
        self.3.round_trip();
        self.4.tok_spec_wf();
        self.4.round_trip();
        self.5.tok_spec_wf();
        self.5.round_trip();
        self.6.tok_spec_wf();
        self.6.round_trip();
        self.7.tok_spec_wf();
        self.7.round_trip();
        self.8.tok_spec_wf();
        self.8.round_trip();
        self.9.tok_spec_wf();
        self.9.round_trip();
        assert(parts_wf(parts)) by {
            assert forall|i: int| 0 <= i < parts.len() implies (#[trigger] parts[i]).len() > 0
                && comma_free(parts[i]) by {
                assert(parts[0].len() > 0 && comma_free(parts[0]));
                assert(parts[1].len() > 0 && comma_free(parts[1]));
                assert(parts[2].len() > 0 && comma_free(parts[2]));
                assert(parts[3].len() > 0 && comma_free(parts[3]));
                assert(parts[4].len() > 0 && comma_free(parts[4]));
                assert(parts[5].len() > 0 && comma_free(parts[5]));
                assert(parts[6].len() > 0 && comma_free(parts[6]));
                assert(parts[7].len() > 0 && comma_free(parts[7]));
                assert(parts[8].len() > 0 && comma_free(parts[8]));
                assert(parts[9].len() > 0 && comma_free(parts[9]));
            }
        }
        lemma_split_join_term(parts);
    }
}

} // verus!
