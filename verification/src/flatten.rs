//! Merging inner interpolation into outer interpolation: a sequence or tuple
//! whose parts are each known or deferred becomes one known-or-deferred
//! composite. A fully known composite stays known, holding the plain values
//! in their original order; one deferred part promotes the whole composite to
//! a deferred fragment that rebuilds it at the generated code's runtime,
//! baking every part, known or deferred alike, in the original order.

use vstd::prelude::*;

use crate::bake::{Bake, Bakeable};
use crate::interpolation::{InterpM, Interpolatable};
use crate::tokens::{Delim, Tok, TokM, Tree};

verus! {

/// Every element of `s` is a known value.
pub open spec fn all_known<B>(s: Seq<Interpolatable<B>>) -> bool {
    forall|i: int| 0 <= i < s.len() ==> (#[trigger] s[i]) is Actual
}

/// The values of a fully known sequence, in order.
pub open spec fn known_values<B: Bake + DeepView>(s: Seq<Interpolatable<B>>) -> Seq<B::V> {
    Seq::new(s.len(), |i: int| (s[i]->Actual_0).deep_view())
}

/// One element of the runtime sequence-building fragment: the element baked,
/// brace-grouped, converted to the element type, and comma-terminated.
pub open spec fn elem_piece_m<B: Bake>(e: Interpolatable<B>) -> Seq<TokM> {
    seq![
        TokM::Group(Delim::Brace, e.bake_spec()),
        TokM::Mark('.'),
        TokM::Word("into"@),
        TokM::Group(Delim::Paren, Seq::empty()),
        TokM::Mark(','),
    ]
}

/// The concatenation of every element's piece, in order.
pub open spec fn elem_pieces_m<B: Bake>(s: Seq<Interpolatable<B>>) -> Seq<TokM>
    decreases s.len(),
{
    if s.len() == 0 {
        Seq::empty()
    } else {
        elem_pieces_m(s.drop_last()) + elem_piece_m(s.last())
    }
}

pub proof fn lemma_elem_pieces_push<B: Bake>(s: Seq<Interpolatable<B>>, e: Interpolatable<B>)
    ensures
        elem_pieces_m(s.push(e)) == elem_pieces_m(s) + elem_piece_m(e),
{
    assert(s.push(e).drop_last() =~= s);
    assert(s.push(e).last() == e);
}

/// The deferred fragment that merges the whole sequence: a brace-grouped
/// sequence-construction call over every element's piece.
pub open spec fn merged_fragment_m<B: Bake>(s: Seq<Interpolatable<B>>) -> TokM {
    TokM::Group(
        Delim::Brace,
        seq![
            TokM::Word("vec"@),
            TokM::Mark('!'),
            TokM::Group(Delim::Bracket, elem_pieces_m(s)),
        ],
    )
}

/// The exact merge of a sequence of interpolatable values.
pub open spec fn vec_flat_spec<B: Bake + DeepView>(s: Seq<Interpolatable<B>>) -> InterpM<
    Seq<B::V>,
> {
    if all_known(s) {
        InterpM::Actual(known_values(s))
    } else {
        InterpM::Inter(merged_fragment_m(s))
    }
}

/// Merging a fully known sequence stays known and keeps the values in order.
pub proof fn lemma_merge_all_known<B: Bake + DeepView>(s: Seq<Interpolatable<B>>)
    requires
        all_known(s),
    ensures
        vec_flat_spec(s) == InterpM::<Seq<B::V>>::Actual(known_values(s)),
        known_values(s).len() == s.len(),
{
}

/// One deferred element anywhere promotes the whole merge to deferred.
pub proof fn lemma_merge_promotes<B: Bake + DeepView>(s: Seq<Interpolatable<B>>, k: int)
    requires
        0 <= k < s.len(),
        s[k] is Inter,
    ensures
        vec_flat_spec(s) is Inter,
{
}

/// Collapse of inner interpolation to outer interpolation: a composite whose
/// parts are each known or deferred becomes one known-or-deferred composite.
/// A composite of only known parts must merge to a known composite; one with
/// any deferred part can never merge to a known composite.
pub trait FlattenInterpolation<T: DeepView>: Sized {
    /// The exact merged result, at the level of value models.
    spec fn flat_spec(&self) -> InterpM<T::V>;

    /// Merges `self` into a single interpolatable composite.
    fn flatten_interpolation(self) -> (r: Interpolatable<T>)
        ensures
            r.deep_view() == self.flat_spec(),
    ;
}

impl<B: Bake + DeepView> FlattenInterpolation<Vec<B>> for Vec<Interpolatable<B>> {
    open spec fn flat_spec(&self) -> InterpM<Seq<B::V>> {
        vec_flat_spec(self@)
    }

    /// A single forward scan with a mode flag: a still-fully-known prefix is
    /// buffered as plain values; on the first deferred element the prefix is
    /// re-expressed as syntax and the scan continues in promoted mode.
    #[verifier::loop_isolation(false)]
    fn flatten_interpolation(self) -> (r: Interpolatable<Vec<B>>) {
        let ghost s = self@;
        let mut rest = self;
        let n0 = rest.len();
        proof {
            assert(s.len() == n0);
        }
        let mut visited: Vec<B> = Vec::new();
        let mut promoted: Option<Tree> = None;
        let mut i: usize = 0;
        while rest.len() > 0
            invariant
                s.len() <= usize::MAX,
                i + rest@.len() == s.len(),
                rest@ == s.skip(i as int),
                match promoted {
                    Option::None => {
                        &&& all_known(s.take(i as int))
                        &&& visited@.len() == i
                        &&& forall|j: int|
                            0 <= j < i ==> s[j] == Interpolatable::Actual(visited@[j])
                    },
                    Option::Some(tr) => tr@ == elem_pieces_m(s.take(i as int)) && !all_known(
                        s.take(i as int),
                    ),
                },
            decreases rest.len(),
        {
            proof {
                assert(s.skip(i as int)[0] == s[i as int]);
                assert(s.skip(i as int).remove(0) =~= s.skip(i as int + 1));
                assert(s.take(i as int).push(s[i as int]) =~= s.take(i as int + 1));
                lemma_elem_pieces_push(s.take(i as int), s[i as int]);
            }
            let e = rest.remove(0);
            match promoted {
                Option::None => {
                    match e {
                        Interpolatable::Actual(v) => {
                            visited.push(v);
                        },
                        Interpolatable::Inter(frag) => {
                            // Promote: re-express the known prefix as syntax,
                            // in order, then add the deferred fragment.
                            let mut tr = Tree::new();
                            let mut j: usize = 0;
                            while j < visited.len()
                                invariant
                                    j <= visited.len(),
                                    tr@ == elem_pieces_m(s.take(j as int)),
                                decreases visited.len() - j,
                            {
                                proof {
                                    assert(s.take(j as int).push(s[j as int]) =~= s.take(
                                        j as int + 1,
                                    ));
                                    lemma_elem_pieces_push(s.take(j as int), s[j as int]);
                                    assert(s[j as int] == Interpolatable::Actual(visited@[j as int]));
                                }
                                tr.push(visited[j].to_token_tree());
                                tr.push_mark('.');
                                tr.push_word("into");
                                tr.push_group(Delim::Paren, Tree::new());
                                tr.push_mark(',');
                                j = j + 1;
                            }
                            let mut g = Tree::new();
                            g.push(frag);
                            tr.push_group(Delim::Brace, g);
                            tr.push_mark('.');
                            tr.push_word("into");
                            tr.push_group(Delim::Paren, Tree::new());
                            tr.push_mark(',');
                            proof {
                                assert(!all_known(s.take(i as int + 1)));
                            }
                            promoted = Some(tr);
                        },
                    }
                },
                Option::Some(ref mut tr) => {
                    match e {
                        Interpolatable::Actual(v) => {
                            tr.push(v.to_token_tree());
                        },
                        Interpolatable::Inter(frag) => {
                            let mut g = Tree::new();
                            g.push(frag);
                            tr.push_group(Delim::Brace, g);
                        },
                    }
                    tr.push_mark('.');
                    tr.push_word("into");
                    tr.push_group(Delim::Paren, Tree::new());
                    tr.push_mark(',');
                },
            }
            i = i + 1;
        }
        proof {
            assert(s.take(i as int) =~= s);
        }
        match promoted {
            Option::None => {
                proof {
                    assert(visited.deep_view() =~= known_values(s));
                }
                Interpolatable::Actual(visited)
            },
            Option::Some(tr) => {
                let mut inner = Tree::new();
                inner.push_word("vec");
                inner.push_mark('!');
                inner.push_group(Delim::Bracket, tr);
                proof {
                    assert(inner@ =~= seq![
                        TokM::Word("vec"@),
                        TokM::Mark('!'),
                        TokM::Group(Delim::Bracket, elem_pieces_m(s)),
                    ]);
                }
                Interpolatable::Inter(Tok::Group(Delim::Brace, inner.toks))
            },
        }
    }
}

} // verus!
