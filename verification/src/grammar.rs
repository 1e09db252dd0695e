//! The demonstration grammar: integers, booleans, double-quoted
//! alphanumeric strings, bracketed comma-separated lists, and a `${ .. }`
//! escape that injects a deferred expression fragment verbatim, scanned
//! only far enough to balance its braces.
//!
//! The text is scanned as bytes; every token of the grammar is ASCII.

use vstd::prelude::*;
use vstd::string::is_ascii;
use vstd::string::StringSliceAdditionalSpecFns;

use crate::flatten::FlattenInterpolation;

use crate::samples::{Json, JsonV, NodeError};
use crate::interpolation::{Interpolatable, InterpM};
use crate::tokens::{Tok, TokM};

verus! {

/// Whitespace accepted between tokens.
pub open spec fn is_ws(c: u8) -> bool {
    c == 32 || c == 9 || c == 10 || c == 13
}

pub open spec fn is_digit(c: u8) -> bool {
    48 <= c <= 57
}

pub open spec fn is_alnum(c: u8) -> bool {
    is_digit(c) || (65 <= c <= 90) || (97 <= c <= 122)
}

/// The first index at or after `i` holding a non-whitespace byte, or the
/// end of the text.
pub open spec fn skip_ws_s(s: Seq<u8>, i: int) -> int
    decreases s.len() - i,
{
    if 0 <= i < s.len() && is_ws(s[i]) {
        skip_ws_s(s, i + 1)
    } else {
        i
    }
}

/// The first index at or after `i` holding a non-digit byte.
pub open spec fn digits_end_s(s: Seq<u8>, i: int) -> int
    decreases s.len() - i,
{
    if 0 <= i < s.len() && is_digit(s[i]) {
        digits_end_s(s, i + 1)
    } else {
        i
    }
}

proof fn lemma_digits_end_bounds(s: Seq<u8>, i: int)
    requires
        0 <= i <= s.len(),
    ensures
        i <= digits_end_s(s, i) <= s.len(),
    decreases s.len() - i,
{
    if i < s.len() && is_digit(s[i]) {
        lemma_digits_end_bounds(s, i + 1);
    }
}

/// The first index at or after `i` holding a non-alphanumeric byte.
pub open spec fn alnum_end_s(s: Seq<u8>, i: int) -> int
    decreases s.len() - i,
{
    if 0 <= i < s.len() && is_alnum(s[i]) {
        alnum_end_s(s, i + 1)
    } else {
        i
    }
}

/// The value of the decimal digits in `s[i .. j)`.
pub open spec fn digits_val_s(s: Seq<u8>, i: int, j: int) -> int
    decreases j - i,
{
    if i >= j {
        0
    } else {
        digits_val_s(s, i, j - 1) * 10 + (s[j - 1] - 48)
    }
}

proof fn lemma_digits_val_nonneg(s: Seq<u8>, i: int, j: int)
    requires
        forall|k: int| i <= k < j ==> is_digit(#[trigger] s[k]),
    ensures
        digits_val_s(s, i, j) >= 0,
    decreases j - i,
{
    if i < j {
        lemma_digits_val_nonneg(s, i, j - 1);
    }
}

proof fn lemma_digits_val_mono(s: Seq<u8>, i: int, m: int, j: int)
    requires
        i <= m <= j,
        forall|k: int| i <= k < j ==> is_digit(#[trigger] s[k]),
    ensures
        digits_val_s(s, i, m) <= digits_val_s(s, i, j),
    decreases j - m,
{
    if m < j {
        lemma_digits_val_mono(s, i, m, j - 1);
        lemma_digits_val_nonneg(s, i, j - 1);
    }
}

/// The index of the brace closing the group opened before `i`, where
/// `depth` braces are currently open; the scan only balances braces.
pub open spec fn brace_end_s(s: Seq<u8>, i: int, depth: int) -> Option<int>
    decreases s.len() - i,
{
    if !(0 <= i < s.len()) {
        None
    } else if s[i] == 123 {
        brace_end_s(s, i + 1, depth + 1)
    } else if s[i] == 125 {
        if depth == 1 {
            Some(i)
        } else {
            brace_end_s(s, i + 1, depth - 1)
        }
    } else {
        brace_end_s(s, i + 1, depth)
    }
}

proof fn lemma_brace_end_bounds(s: Seq<u8>, i: int, depth: int)
    requires
        0 <= i,
    ensures
        brace_end_s(s, i, depth) matches Some(e) ==> i <= e < s.len(),
    decreases s.len() - i,
{
    if 0 <= i < s.len() {
        if s[i] == 123 {
            lemma_brace_end_bounds(s, i + 1, depth + 1);
        } else if s[i] == 125 {
            if depth != 1 {
                lemma_brace_end_bounds(s, i + 1, depth - 1);
            }
        } else {
            lemma_brace_end_bounds(s, i + 1, depth);
        }
    }
}

/// The bytes read back as text.
pub open spec fn bytes_chars(bs: Seq<u8>) -> Seq<char> {
    Seq::new(bs.len(), |k: int| bs[k] as char)
}

/// Skips whitespace.
fn skip_ws(s: &Vec<u8>, i: usize) -> (j: usize)
    requires
        i <= s@.len(),
    ensures
        j as int == skip_ws_s(s@, i as int),
        i <= j <= s@.len(),
{
    let mut j = i;
    while j < s.len() && is_ws_b(s[j])
        invariant
            i <= j <= s@.len(),
            skip_ws_s(s@, i as int) == skip_ws_s(s@, j as int),
        decreases s@.len() - j,
    {
        j = j + 1;
    }
    j
}

fn is_ws_b(c: u8) -> (r: bool)
    ensures
        r == is_ws(c),
{
    c == 32 || c == 9 || c == 10 || c == 13
}

fn is_digit_b(c: u8) -> (r: bool)
    ensures
        r == is_digit(c),
{
    48 <= c && c <= 57
}

fn is_alnum_b(c: u8) -> (r: bool)
    ensures
        r == is_alnum(c),
{
    is_digit_b(c) || (65 <= c && c <= 90) || (97 <= c && c <= 122)
}

/// Scans to the end of a digit run.
fn digits_end(s: &Vec<u8>, i: usize) -> (j: usize)
    requires
        i <= s@.len(),
    ensures
        j as int == digits_end_s(s@, i as int),
        i <= j <= s@.len(),
        forall|k: int| i <= k < j ==> is_digit(#[trigger] s@[k]),
{
    let mut j = i;
    while j < s.len() && is_digit_b(s[j])
        invariant
            i <= j <= s@.len(),
            digits_end_s(s@, i as int) == digits_end_s(s@, j as int),
            forall|k: int| i <= k < j ==> is_digit(#[trigger] s@[k]),
        decreases s@.len() - j,
    {
        j = j + 1;
    }
    j
}

/// Scans to the end of an alphanumeric run.
fn alnum_end(s: &Vec<u8>, i: usize) -> (j: usize)
    requires
        i <= s@.len(),
    ensures
        j as int == alnum_end_s(s@, i as int),
        i <= j <= s@.len(),
{
    let mut j = i;
    while j < s.len() && is_alnum_b(s[j])
        invariant
            i <= j <= s@.len(),
            alnum_end_s(s@, i as int) == alnum_end_s(s@, j as int),
        decreases s@.len() - j,
    {
        j = j + 1;
    }
    j
}

/// Finds the brace closing the group opened before `i`.
fn brace_end(s: &Vec<u8>, i: usize) -> (r: Option<usize>)
    requires
        i <= s@.len(),
    ensures
        match r {
            Some(e) => brace_end_s(s@, i as int, 1) == Some(e as int) && i <= e < s@.len(),
            None => brace_end_s(s@, i as int, 1) is None,
        },
{
    let mut j = i;
    let mut depth: u128 = 1;
    while j < s.len()
        invariant
            i <= j <= s@.len(),
            depth >= 1,
            depth <= j + 1,
            brace_end_s(s@, i as int, 1) == brace_end_s(s@, j as int, depth as int),
        decreases s@.len() - j,
    {
        let c = s[j];
        if c == 123 {
            depth = depth + 1;
        } else if c == 125 {
            if depth == 1 {
                proof {
                    lemma_brace_end_bounds(s@, i as int, 1);
                }
                return Some(j);
            }
            depth = depth - 1;
        }
        j = j + 1;
    }
    None
}

/// Reads the decimal digits in `s[i .. j)` as a value, unless it exceeds
/// the largest representable number.
fn digits_val(s: &Vec<u8>, i: usize, j: usize) -> (r: Option<i64>)
    requires
        i <= j <= s@.len(),
        forall|k: int| i <= k < j ==> is_digit(#[trigger] s@[k]),
    ensures
        match r {
            Some(v) => v as int == digits_val_s(s@, i as int, j as int) && v >= 0,
            None => digits_val_s(s@, i as int, j as int) > i64::MAX,
        },
{
    let mut acc: u64 = 0;
    let mut k = i;
    while k < j
        invariant
            i <= k <= j <= s@.len(),
            forall|m: int| i <= m < j ==> is_digit(#[trigger] s@[m]),
            acc as int == digits_val_s(s@, i as int, k as int),
            acc <= i64::MAX as u64,
        decreases j - k,
    {
        let d = s[k] - 48;
        proof {
            lemma_digits_val_nonneg(s@, i as int, k as int);
        }
        if acc > 922337203685477580 || (acc == 922337203685477580 && d > 7) {
            proof {
                assert(acc as int * 10 + d > i64::MAX);
                assert(digits_val_s(s@, i as int, k as int + 1) == acc as int * 10 + d);
                lemma_digits_val_mono(s@, i as int, k as int + 1, j as int);
            }
            return None;
        }
        acc = acc * 10 + (d as u64);
        k = k + 1;
    }
    Some(acc as i64)
}

/// Copies `s[a .. b)` out as owned text.
fn bytes_to_string(s: &Vec<u8>, a: usize, b: usize) -> (r: String)
    requires
        a <= b <= s@.len(),
    ensures
        r@ == bytes_chars(s@.subrange(a as int, b as int)),
{
    let mut r = String::new();
    let mut k = a;
    while k < b
        invariant
            a <= k <= b <= s@.len(),
            r@ == bytes_chars(s@.subrange(a as int, k as int)),
        decreases b - k,
    {
        r.push(s[k] as char);
        proof {
            assert(r@ =~= bytes_chars(s@.subrange(a as int, k as int + 1)));
        }
        k = k + 1;
    }
    r
}

/// One node of the grammar as parsed: a leaf value, a verbatim deferred
/// fragment, or a list of nodes.
pub enum NodeS {
    Number(int),
    Boolean(bool),
    Text(Seq<u8>),
    Frag(Seq<u8>),
    Items(Seq<NodeS>),
}

/// The node starting at `i` (after leading whitespace) and the index just
/// past it, or nothing where the text there is outside the grammar.
pub open spec fn parse_node_s(s: Seq<u8>, i: int) -> Option<(NodeS, int)>
    decreases s.len() - i, 1int,
{
    let j = skip_ws_s(s, i);
    if !(i <= j && j < s.len()) {
        None
    } else if s[j] == 116 {
        if s.len() - j >= 4 && s[j + 1] == 114 && s[j + 2] == 117 && s[j + 3] == 101 {
            Some((NodeS::Boolean(true), j + 4))
        } else {
            None
        }
    } else if s[j] == 102 {
        if s.len() - j >= 5 && s[j + 1] == 97 && s[j + 2] == 108 && s[j + 3] == 115 && s[j + 4]
            == 101 {
            Some((NodeS::Boolean(false), j + 5))
        } else {
            None
        }
    } else if is_digit(s[j]) {
        let e = digits_end_s(s, j);
        let v = digits_val_s(s, j, e);
        if v <= i64::MAX {
            Some((NodeS::Number(v), e))
        } else {
            None
        }
    } else if s[j] == 34 {
        let e = alnum_end_s(s, j + 1);
        if e < s.len() && s[e] == 34 {
            Some((NodeS::Text(s.subrange(j + 1, e)), e + 1))
        } else {
            None
        }
    } else if s[j] == 36 {
        let k = skip_ws_s(s, j + 1);
        if j + 1 <= k && k < s.len() && s[k] == 123 {
            match brace_end_s(s, k + 1, 1) {
                Some(e) => Some((NodeS::Frag(s.subrange(k + 1, e)), e + 1)),
                None => None,
            }
        } else {
            None
        }
    } else if s[j] == 91 {
        match parse_items_s(s, j + 1) {
            Some((items, e)) => Some((NodeS::Items(items), e)),
            None => None,
        }
    } else {
        None
    }
}

/// The comma-separated nodes after an opening bracket, up to and past the
/// closing bracket.
pub open spec fn parse_items_s(s: Seq<u8>, i: int) -> Option<(Seq<NodeS>, int)>
    decreases s.len() - i, 2int,
{
    let j0 = skip_ws_s(s, i);
    if i <= j0 && j0 < s.len() && s[j0] == 93 {
        Some((Seq::empty(), j0 + 1))
    } else {
        match parse_node_s(s, i) {
            Some((n, j)) => if i < j && j <= s.len() {
                let k = skip_ws_s(s, j);
                if j <= k && k < s.len() && s[k] == 44 {
                    match parse_items_s(s, k + 1) {
                        Some((rest, e)) => Some((seq![n] + rest, e)),
                        None => None,
                    }
                } else if j <= k && k < s.len() && s[k] == 93 {
                    Some((seq![n], k + 1))
                } else {
                    None
                }
            } else {
                None
            },
            None => None,
        }
    }
}

/// The whole text as one node, demanding that nothing but whitespace
/// follows it.
pub open spec fn parse_top_s(s: Seq<u8>) -> Option<NodeS> {
    match parse_node_s(s, 0) {
        Some((sk, j)) => if skip_ws_s(s, j) == s.len() {
            Some(sk)
        } else {
            None
        },
        None => None,
    }
}

/// How a parsed node is realized in the algebra: leaves become known
/// values, a fragment becomes a deferred value carrying the fragment text
/// verbatim, and a list is the merge of its elements' realizations.
pub open spec fn vnode_models(m: InterpM<JsonV>, sk: NodeS) -> bool
    decreases sk,
{
    match sk {
        NodeS::Number(n) => m == InterpM::Actual(JsonV::Number(InterpM::Actual(n as i64))),
        NodeS::Boolean(b) => m == InterpM::Actual(JsonV::Boolean(InterpM::Actual(b))),
        NodeS::Text(bs) => m == InterpM::Actual(JsonV::String(InterpM::Actual(bytes_chars(bs)))),
        NodeS::Frag(bs) => m == InterpM::<JsonV>::Inter(TokM::Verbatim(bytes_chars(bs))),
        NodeS::Items(items) => match m {
            InterpM::Actual(JsonV::List(li)) => list_vmodels(li, items),
            _ => false,
        },
    }
}

/// A merged list realizes its parsed elements: with no deferred element it
/// is known and holds the elements' values in order; with any deferred
/// element the whole list is deferred.
pub open spec fn list_vmodels(li: InterpM<Seq<JsonV>>, items: Seq<NodeS>) -> bool
    decreases items,
{
    if forall|k: int| 0 <= k < items.len() ==> !((#[trigger] items[k]) is Frag) {
        match li {
            InterpM::Actual(vs) => vs.len() == items.len() && forall|k: int|
                0 <= k < items.len() ==> vnode_models(
                    InterpM::Actual(vs[k]),
                    #[trigger] items[k],
                ),
            _ => false,
        }
    } else {
        li is Inter
    }
}

proof fn lemma_jsons_view_is_deep(v: Seq<Json>)
    ensures
        crate::samples::jsons_view(v) =~= Seq::new(v.len(), |k: int| crate::samples::json_view(v[k])),
    decreases v,
{
    if v.len() > 0 {
        lemma_jsons_view_is_deep(v.drop_first());
        assert(crate::samples::jsons_view(v) =~= Seq::new(
            v.len(),
            |k: int| crate::samples::json_view(v[k]),
        ));
    }
}

/// Transfers element realizations through the sequence merge.
proof fn lemma_flatten_models(elems: Seq<Interpolatable<Json>>, sks: Seq<NodeS>)
    requires
        elems.len() == sks.len(),
        forall|k: int|
            0 <= k < elems.len() ==> vnode_models((#[trigger] elems[k]).deep_view(), sks[k]),
    ensures
        list_vmodels(crate::flatten::vec_flat_spec(elems), sks),
{
    if forall|k: int| 0 <= k < sks.len() ==> !((#[trigger] sks[k]) is Frag) {
        assert forall|k: int| 0 <= k < elems.len() implies (#[trigger] elems[k]) is Actual by {
            assert(vnode_models(elems[k].deep_view(), sks[k]));
            assert(!(sks[k] is Frag));
            if elems[k] is Inter {
                assert(elems[k].deep_view() is Inter);
            }
        }
        assert(crate::flatten::all_known(elems));
        let kv = crate::flatten::known_values::<Json>(elems);
        assert forall|k: int| 0 <= k < sks.len() implies vnode_models(
            InterpM::Actual(kv[k]),
            #[trigger] sks[k],
        ) by {
            assert(elems[k].deep_view() == InterpM::Actual((elems[k]->Actual_0).deep_view()));
        }
        assert(list_vmodels(crate::flatten::vec_flat_spec(elems), sks));
    } else {
        let k = choose|k: int| 0 <= k < sks.len() && (#[trigger] sks[k]) is Frag;
        assert(vnode_models(elems[k].deep_view(), sks[k]));
        if elems[k] is Actual {
            assert(elems[k].deep_view() is Actual);
        }
        assert(elems[k] is Inter);
        assert(!crate::flatten::all_known(elems));
    }
}

/// Parses one node.
#[verifier::loop_isolation(false)]
fn parse_node(s: &Vec<u8>, i: usize) -> (r: Result<(Interpolatable<Json>, usize), NodeError>)
    requires
        i <= s@.len(),
    ensures
        match parse_node_s(s@, i as int) {
            Some((sk, j)) => r matches Ok(p) && p.1 as int == j && i < p.1 <= s@.len()
                && vnode_models(p.0.deep_view(), sk),
            None => r == Err::<(Interpolatable<Json>, usize), NodeError>(NodeError::Parsing),
        },
    decreases s@.len() - i, 1int,
{
    let j = skip_ws(s, i);
    if j >= s.len() {
        return Err(NodeError::Parsing);
    }
    let c = s[j];
    if c == 116 {
        if s.len() - j >= 4 && s[j + 1] == 114 && s[j + 2] == 117 && s[j + 3] == 101 {
            Ok((Interpolatable::Actual(Json::Boolean(Interpolatable::Actual(true))), j + 4))
        } else {
            Err(NodeError::Parsing)
        }
    } else if c == 102 {
        if s.len() - j >= 5 && s[j + 1] == 97 && s[j + 2] == 108 && s[j + 3] == 115 && s[j + 4]
            == 101 {
            Ok((Interpolatable::Actual(Json::Boolean(Interpolatable::Actual(false))), j + 5))
        } else {
            Err(NodeError::Parsing)
        }
    } else if is_digit_b(c) {
        let e = digits_end(s, j);
        proof {
            lemma_digits_end_bounds(s@, j as int + 1);
            assert(digits_end_s(s@, j as int) == digits_end_s(s@, j as int + 1));
        }
        match digits_val(s, j, e) {
            Some(v) => Ok((Interpolatable::Actual(Json::Number(Interpolatable::Actual(v))), e)),
            None => Err(NodeError::Parsing),
        }
    } else if c == 34 {
        let e = alnum_end(s, j + 1);
        if e < s.len() && s[e] == 34 {
            let st = bytes_to_string(s, j + 1, e);
            Ok((Interpolatable::Actual(Json::String(Interpolatable::Actual(st))), e + 1))
        } else {
            Err(NodeError::Parsing)
        }
    } else if c == 36 {
        let k = skip_ws(s, j + 1);
        if k < s.len() && s[k] == 123 {
            match brace_end(s, k + 1) {
                Some(e) => {
                    let st = bytes_to_string(s, k + 1, e);
                    Ok((Interpolatable::Inter(Tok::Verbatim(st)), e + 1))
                },
                None => Err(NodeError::Parsing),
            }
        } else {
            Err(NodeError::Parsing)
        }
    } else if c == 91 {
        match parse_items(s, j + 1) {
            Ok((elems, e)) => {
                let ghost sks = parse_items_s(s@, j as int + 1)->Some_0.0;
                let li = elems.flatten_interpolation();
                proof {
                    lemma_flatten_models(elems@, sks);
                    lemma_jsons_view_is_deep(li->Actual_0@);
                }
                Ok((Interpolatable::Actual(Json::List(li)), e))
            },
            Err(er) => Err(er),
        }
    } else {
        Err(NodeError::Parsing)
    }
}

/// Parses the comma-separated nodes of a list, up to and past the closing
/// bracket.
fn parse_items(s: &Vec<u8>, i: usize) -> (r: Result<(Vec<Interpolatable<Json>>, usize), NodeError>)
    requires
        i <= s@.len(),
    ensures
        match parse_items_s(s@, i as int) {
            Some((sks, j)) => r matches Ok(p) && p.1 as int == j && i < p.1 <= s@.len() && p.0@.len()
                == sks.len() && (forall|k: int|
                0 <= k < sks.len() ==> vnode_models((#[trigger] p.0@[k]).deep_view(), sks[k])),
            None => r == Err::<(Vec<Interpolatable<Json>>, usize), NodeError>(NodeError::Parsing),
        },
    decreases s@.len() - i, 2int,
{
    let j0 = skip_ws(s, i);
    if j0 < s.len() && s[j0] == 93 {
        let out: Vec<Interpolatable<Json>> = Vec::new();
        return Ok((out, j0 + 1));
    }
    match parse_node(s, i) {
        Ok((v, j)) => {
            let k = skip_ws(s, j);
            if k < s.len() && s[k] == 44 {
                match parse_items(s, k + 1) {
                    Ok((rest, e)) => {
                        let ghost rsks = parse_items_s(s@, k as int + 1)->Some_0.0;
                        let ghost sk0 = parse_node_s(s@, i as int)->Some_0.0;
                        let mut out = rest;
                        out.insert(0, v);
                        proof {
                            let sks = seq![sk0] + rsks;
                            assert forall|m: int| 0 <= m < sks.len() implies vnode_models(
                                (#[trigger] out@[m]).deep_view(),
                                sks[m],
                            ) by {
                                if m > 0 {
                                    assert(out@[m] == out@.subrange(1, out@.len() as int)[m - 1]);
                                }
                            }
                        }
                        Ok((out, e))
                    },
                    Err(er) => Err(er),
                }
            } else if k < s.len() && s[k] == 93 {
                let mut out: Vec<Interpolatable<Json>> = Vec::new();
                out.push(v);
                Ok((out, k + 1))
            } else {
                Err(NodeError::Parsing)
            }
        },
        Err(er) => Err(er),
    }
}

/// Parses the whole text as one value of the grammar. Text outside the
/// grammar, or with anything but whitespace after the value, is a parse
/// error; a top-level deferred fragment parses but cannot be fit into a
/// plain value, which is the recoverable interpolation error.
pub fn parse(tokens: &str) -> (r: Result<Json, NodeError>)
    ensures
        !is_ascii(tokens) ==> r == Err::<Json, NodeError>(NodeError::Parsing),
        is_ascii(tokens) ==> match parse_top_s(tokens.spec_bytes()) {
            Some(sk) => if sk is Frag {
                r == Err::<Json, NodeError>(NodeError::Interpolation)
            } else {
                r matches Ok(jv) && vnode_models(
                    InterpM::Actual(crate::samples::json_view(jv)),
                    sk,
                )
            },
            None => r == Err::<Json, NodeError>(NodeError::Parsing),
        },
{
    if !tokens.is_ascii() {
        return Err(NodeError::Parsing);
    }
    let s = tokens.as_bytes_vec();
    match parse_node(&s, 0) {
        Ok((v, j)) => {
            let e = skip_ws(&s, j);
            if e == s.len() {
                proof {
                    let sk = parse_node_s(s@, 0)->Some_0.0;
                    assert(vnode_models(v.deep_view(), sk));
                    if sk is Frag {
                        assert(v.deep_view() is Inter);
                        assert(v is Inter);
                    } else {
                        if v is Inter {
                            assert(v.deep_view() is Inter);
                            assert(match sk {
                                NodeS::Frag(_) => true,
                                _ => false,
                            });
                        }
                        assert(v is Actual);
                    }
                }
                match v.fit() {
                    Ok(json) => Ok(json),
                    Err(er) => Err(NodeError::from(er)),
                }
            } else {
                Err(NodeError::Parsing)
            }
        },
        Err(er) => Err(er),
    }
}

} // verus!
