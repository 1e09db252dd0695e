//! The syntax-tree representation that the whole crate produces: a sequence
//! of lexical tokens, where a token is a word, a punctuation mark, a literal,
//! or a delimited group holding a nested sequence.

use vstd::prelude::*;

verus! {

/// Delimiter of a nested token group.
#[derive(Clone, Copy, Debug, PartialEq, Eq, Structural)]
pub enum Delim {
    Paren,
    Bracket,
    Brace,
}

/// One lexical token of generated source text.
///
/// Multi-character operators (`::`, `..`, `=>`) are written as consecutive
/// `Mark` tokens. A literal carries its value, not its spelling; rendering
/// the spelling is the concern of whoever consumes the tree.
#[derive(Debug)]
pub enum Tok {
    /// An identifier or keyword.
    Word(String),
    /// A single punctuation character.
    Mark(char),
    /// A boolean literal.
    LitBool(bool),
    /// An integer literal: a sign and a magnitude.
    LitInt { neg: bool, mag: u128 },
    /// A character literal.
    LitChar(char),
    /// A string literal (the unescaped text).
    LitStr(String),
    /// A raw source fragment carried verbatim, balanced but not otherwise
    /// inspected.
    Verbatim(String),
    /// A delimited group of nested tokens.
    Group(Delim, Vec<Tok>),
}

/// Mathematical model of a token; strings become character sequences.
pub enum TokM {
    Word(Seq<char>),
    Mark(char),
    LitBool(bool),
    LitInt { neg: bool, mag: u128 },
    LitChar(char),
    LitStr(Seq<char>),
    Verbatim(Seq<char>),
    Group(Delim, Seq<TokM>),
}

pub open spec fn tok_view(t: Tok) -> TokM
    decreases t,
{
    match t {
        Tok::Word(s) => TokM::Word(s@),
        Tok::Mark(c) => TokM::Mark(c),
        Tok::LitBool(b) => TokM::LitBool(b),
        Tok::LitInt { neg, mag } => TokM::LitInt { neg, mag },
        Tok::LitChar(c) => TokM::LitChar(c),
        Tok::LitStr(s) => TokM::LitStr(s@),
        Tok::Verbatim(s) => TokM::Verbatim(s@),
        Tok::Group(d, ts) => TokM::Group(d, toks_view(ts@)),
    }
}

pub open spec fn toks_view(ts: Seq<Tok>) -> Seq<TokM>
    decreases ts,
{
    if ts.len() <= 0 {
        Seq::empty()
    } else {
        seq![tok_view(ts[0])] + toks_view(ts.drop_first())
    }
}

impl View for Tok {
    type V = TokM;

    open spec fn view(&self) -> TokM {
        tok_view(*self)
    }
}

pub broadcast proof fn lemma_toks_view_len(ts: Seq<Tok>)
    ensures
        #[trigger] toks_view(ts).len() == ts.len(),
    decreases ts,
{
    if ts.len() > 0 {
        lemma_toks_view_len(ts.drop_first());
    }
}

pub broadcast proof fn lemma_toks_view_index(ts: Seq<Tok>, i: int)
    requires
        0 <= i < ts.len(),
    ensures
        #[trigger] toks_view(ts)[i] == tok_view(ts[i]),
    decreases ts,
{
    lemma_toks_view_len(ts);
    if i > 0 {
        lemma_toks_view_index(ts.drop_first(), i - 1);
    }
}

pub broadcast proof fn lemma_toks_view_push(ts: Seq<Tok>, t: Tok)
    ensures
        #[trigger] toks_view(ts.push(t)) == toks_view(ts) + seq![tok_view(t)],
    decreases ts,
{
    if ts.len() == 0 {
        assert(ts.push(t)[0] == t);
        assert(ts.push(t).drop_first() =~= Seq::<Tok>::empty());
        assert(toks_view(Seq::<Tok>::empty()) =~= Seq::<TokM>::empty());
        assert(toks_view(ts) =~= Seq::<TokM>::empty());
        assert(toks_view(ts.push(t)) =~= toks_view(ts) + seq![tok_view(t)]);
    } else {
        assert(ts.push(t).drop_first() =~= ts.drop_first().push(t));
        lemma_toks_view_push(ts.drop_first(), t);
        assert(toks_view(ts.push(t)) =~= toks_view(ts) + seq![tok_view(t)]);
    }
}

pub broadcast proof fn lemma_toks_view_concat(a: Seq<Tok>, b: Seq<Tok>)
    ensures
        #[trigger] toks_view(a + b) == toks_view(a) + toks_view(b),
    decreases a,
{
    if a.len() == 0 {
        assert(a + b =~= b);
        assert(toks_view(a) + toks_view(b) =~= toks_view(b));
    } else {
        assert((a + b).drop_first() =~= a.drop_first() + b);
        lemma_toks_view_concat(a.drop_first(), b);
        assert((a + b)[0] == a[0]);
        assert(toks_view(a + b) =~= toks_view(a) + toks_view(b));
    }
}

impl Tok {
    /// A structure-preserving copy.
    #[verifier::loop_isolation(false)]
    pub fn deep_clone(&self) -> (r: Tok)
        ensures
            r@ == self@,
        decreases self,
    {
        match self {
            Tok::Word(s) => Tok::Word(s.clone()),
            Tok::Mark(c) => Tok::Mark(*c),
            Tok::LitBool(b) => Tok::LitBool(*b),
            Tok::LitInt { neg, mag } => Tok::LitInt { neg: *neg, mag: *mag },
            Tok::LitChar(c) => Tok::LitChar(*c),
            Tok::LitStr(s) => Tok::LitStr(s.clone()),
            Tok::Verbatim(s) => Tok::Verbatim(s.clone()),
            Tok::Group(d, ts) => {
                let mut v: Vec<Tok> = Vec::new();
                let mut i: usize = 0;
                while i < ts.len()
                    invariant
                        i <= ts.len(),
                        toks_view(v@) == toks_view(ts@.take(i as int)),
                    decreases ts.len() - i,
                {
                    proof {
                        assert(decreases_to!(*self => self->Group_1));
                        assert(self->Group_1 == *ts);
                        assert(decreases_to!(*ts => ts@));
                        assert(decreases_to!(ts@ => ts@[i as int]));
                    }
                    let c = ts[i].deep_clone();
                    proof {
                        lemma_toks_view_push(v@, c);
                        lemma_toks_view_push(ts@.take(i as int), ts@[i as int]);
                        assert(ts@.take(i as int).push(ts@[i as int]) =~= ts@.take(i + 1));
                    }
                    v.push(c);
                    i = i + 1;
                }
                proof {
                    assert(ts@.take(ts@.len() as int) =~= ts@);
                }
                Tok::Group(*d, v)
            },
        }
    }
}

/// Structural equality of two token sequences held in vectors.
#[verifier::loop_isolation(false)]
fn toks_eq(a: &Vec<Tok>, b: &Vec<Tok>) -> (r: bool)
    ensures
        r == (toks_view(a@) == toks_view(b@)),
    decreases a,
{
    proof {
        lemma_toks_view_len(a@);
        lemma_toks_view_len(b@);
    }
    if a.len() != b.len() {
        return false;
    }
    let mut i: usize = 0;
    while i < a.len()
        invariant
            i <= a.len(),
            forall|j: int| 0 <= j < i ==> tok_view(a@[j]) == tok_view(b@[j]),
        decreases a.len() - i,
    {
        proof {
            assert(decreases_to!(*a => a@));
            assert(decreases_to!(a@ => a@[i as int]));
        }
        if !a[i].tok_eq(&b[i]) {
            proof {
                lemma_toks_view_index(a@, i as int);
                lemma_toks_view_index(b@, i as int);
            }
            return false;
        }
        i = i + 1;
    }
    proof {
        assert forall|j: int| 0 <= j < a@.len() implies toks_view(a@)[j] == toks_view(b@)[j] by {
            lemma_toks_view_index(a@, j);
            lemma_toks_view_index(b@, j);
        }
        assert(toks_view(a@) =~= toks_view(b@));
    }
    true
}

impl Tok {
    /// Structural equality of two tokens.
    #[verifier::loop_isolation(false)]
    pub fn tok_eq(&self, other: &Tok) -> (r: bool)
        ensures
            r == (self@ == other@),
        decreases self,
    {
        match (self, other) {
            (Tok::Word(x), Tok::Word(y)) => (*x).eq(y),
            (Tok::Mark(x), Tok::Mark(y)) => *x == *y,
            (Tok::LitBool(x), Tok::LitBool(y)) => *x == *y,
            (Tok::LitInt { neg: n1, mag: m1 }, Tok::LitInt { neg: n2, mag: m2 }) => *n1 == *n2
                && *m1 == *m2,
            (Tok::LitChar(x), Tok::LitChar(y)) => *x == *y,
            (Tok::LitStr(x), Tok::LitStr(y)) => (*x).eq(y),
            (Tok::Verbatim(x), Tok::Verbatim(y)) => (*x).eq(y),
            (Tok::Group(d1, t1), Tok::Group(d2, t2)) => {
                proof {
                    assert(decreases_to!(*self => self->Group_1));
                }
                let de = d1 == d2;
                de && toks_eq(t1, t2)
            },
            _ => false,
        }
    }
}

/// A produced syntax tree: an ordered sequence of tokens.
#[derive(Debug)]
pub struct Tree {
    pub toks: Vec<Tok>,
}

impl View for Tree {
    type V = Seq<TokM>;

    open spec fn view(&self) -> Seq<TokM> {
        toks_view(self.toks@)
    }
}

impl Tree {
    /// The empty tree.
    pub fn new() -> (r: Tree)
        ensures
            r@ == Seq::<TokM>::empty(),
    {
        Tree { toks: Vec::new() }
    }

    /// Appends one token.
    pub fn push(&mut self, t: Tok)
        ensures
            final(self)@ == old(self)@ + seq![t@],
    {
        proof {
            lemma_toks_view_push(self.toks@, t);
        }
        self.toks.push(t);
    }

    /// Appends an identifier or keyword.
    pub fn push_word(&mut self, w: &str)
        ensures
            final(self)@ == old(self)@ + seq![TokM::Word(w@)],
    {
        self.push(Tok::Word(w.to_owned()));
    }

    /// Appends a punctuation mark.
    pub fn push_mark(&mut self, c: char)
        ensures
            final(self)@ == old(self)@ + seq![TokM::Mark(c)],
    {
        self.push(Tok::Mark(c));
    }

    /// Appends a delimited group holding the given tree.
    pub fn push_group(&mut self, d: Delim, inner: Tree)
        ensures
            final(self)@ == old(self)@ + seq![TokM::Group(d, inner@)],
    {
        self.push(Tok::Group(d, inner.toks));
    }

    /// Structural equality of two trees.
    pub fn tree_eq(&self, other: &Tree) -> (r: bool)
        ensures
            r == (self@ == other@),
    {
        toks_eq(&self.toks, &other.toks)
    }

    /// A structure-preserving copy.
    pub fn deep_clone(&self) -> (r: Tree)
        ensures
            r@ == self@,
    {
        let mut v: Vec<Tok> = Vec::new();
        let mut i: usize = 0;
        while i < self.toks.len()
            invariant
                i <= self.toks.len(),
                toks_view(v@) == toks_view(self.toks@.take(i as int)),
            decreases self.toks.len() - i,
        {
            let c = self.toks[i].deep_clone();
            proof {
                lemma_toks_view_push(v@, c);
                lemma_toks_view_push(self.toks@.take(i as int), self.toks@[i as int]);
                assert(self.toks@.take(i as int).push(self.toks@[i as int]) =~= self.toks@.take(
                    i + 1,
                ));
            }
            v.push(c);
            i = i + 1;
        }
        proof {
            assert(self.toks@.take(self.toks@.len() as int) =~= self.toks@);
        }
        Tree { toks: v }
    }

    /// Appends every token of `other`, in order.
    pub fn append(&mut self, other: Tree)
        ensures
            final(self)@ == old(self)@ + other@,
    {
        proof {
            lemma_toks_view_concat(self.toks@, other.toks@);
        }
        let mut o = other;
        self.toks.append(&mut o.toks);
    }
}

} // verus!
