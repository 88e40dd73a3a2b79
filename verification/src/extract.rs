//! The directive extractor: tokens to raw filter values.
//!
//! A segment that starts with a recognized key (`AFTER:`, `BEFORE:`,
//! `FROM:`, `CONVERSATION:`) carries a filter value; a value wrapped
//! in matching double quotes has them stripped, anything else is taken
//! verbatim.  `FROM:` values accumulate in order; the other keys are
//! single-valued and a later occurrence silently replaces the earlier
//! one.  Every other segment standing outside every parenthesized
//! group joins the free text, space-separated and in order; segments
//! inside a group (a literal `OR` among them) are discarded — group
//! semantics are deliberately not interpreted.

use vstd::prelude::*;
use vstd::slice::slice_subrange;
use vstd::slice::slice_to_vec;
use crate::tokens::Token;
use crate::tokens::TokenView;
use crate::tokens::token_views;
use crate::tokens::spec_tokenize;

verus! {

/// `AFTER:` in bytes.
pub open spec fn spec_is_after_key(s: Seq<u8>) -> bool {
    s.len() >= 6 && s[0] == 65u8 && s[1] == 70u8 && s[2] == 84u8 && s[3] == 69u8 && s[4] == 82u8
        && s[5] == 58u8
}

/// `BEFORE:` in bytes.
pub open spec fn spec_is_before_key(s: Seq<u8>) -> bool {
    s.len() >= 7 && s[0] == 66u8 && s[1] == 69u8 && s[2] == 70u8 && s[3] == 79u8 && s[4] == 82u8
        && s[5] == 69u8 && s[6] == 58u8
}

/// `FROM:` in bytes.
pub open spec fn spec_is_from_key(s: Seq<u8>) -> bool {
    s.len() >= 5 && s[0] == 70u8 && s[1] == 82u8 && s[2] == 79u8 && s[3] == 77u8 && s[4] == 58u8
}

/// `CONVERSATION:` in bytes.
pub open spec fn spec_is_conversation_key(s: Seq<u8>) -> bool {
    s.len() >= 13 && s[0] == 67u8 && s[1] == 79u8 && s[2] == 78u8 && s[3] == 86u8 && s[4] == 69u8
        && s[5] == 82u8 && s[6] == 83u8 && s[7] == 65u8 && s[8] == 84u8 && s[9] == 73u8 && s[10]
        == 79u8 && s[11] == 78u8 && s[12] == 58u8
}

/// Strips one pair of wrapping double quotes, if both are there.
pub open spec fn spec_strip_quotes(v: Seq<u8>) -> Seq<u8> {
    if v.len() >= 2 && v[0] == 34u8 && v[v.len() - 1] == 34u8 {
        v.subrange(1, v.len() - 1)
    } else {
        v
    }
}

/// The value a directive segment carries after its key.
pub open spec fn spec_directive_value(s: Seq<u8>, keylen: int) -> Seq<u8> {
    spec_strip_quotes(s.subrange(keylen, s.len() as int))
}

/// Joins two pieces of free text with a single space, unless the left
/// piece is still empty.
pub open spec fn spec_join2(a: Seq<u8>, b: Seq<u8>) -> Seq<u8> {
    if a.len() == 0 {
        b
    } else {
        a + seq![32u8] + b
    }
}

/// The raw filter values read out of a token stream.
#[derive(Debug, Clone, PartialEq, Eq)]
pub struct ExtractedQuery {
    /// Space-joined non-directive segments outside every group.
    pub free_text: Vec<u8>,
    /// `FROM:` values, in order of appearance.
    pub from_values: Vec<Vec<u8>>,
    /// The last `AFTER:` value.
    pub after_value: Option<Vec<u8>>,
    /// The last `BEFORE:` value.
    pub before_value: Option<Vec<u8>>,
    /// The last `CONVERSATION:` value.
    pub conversation_value: Option<Vec<u8>>,
}

/// The mathematical shape of an [`ExtractedQuery`].
#[verifier::ext_equal]
pub struct ExtractedView {
    pub free_text: Seq<u8>,
    pub from_values: Seq<Seq<u8>>,
    pub after_value: Option<Seq<u8>>,
    pub before_value: Option<Seq<u8>>,
    pub conversation_value: Option<Seq<u8>>,
}

pub open spec fn opt_bytes_view(v: Option<Vec<u8>>) -> Option<Seq<u8>> {
    match v {
        Some(x) => Some(x@),
        None => None,
    }
}

impl View for ExtractedQuery {
    type V = ExtractedView;

    open spec fn view(&self) -> ExtractedView {
        ExtractedView {
            free_text: self.free_text@,
            from_values: self.from_values@.map_values(|v: Vec<u8>| v@),
            after_value: opt_bytes_view(self.after_value),
            before_value: opt_bytes_view(self.before_value),
            conversation_value: opt_bytes_view(self.conversation_value),
        }
    }
}

pub open spec fn spec_empty_extracted() -> ExtractedView {
    ExtractedView {
        free_text: Seq::empty(),
        from_values: Seq::empty(),
        after_value: None,
        before_value: None,
        conversation_value: None,
    }
}

/// One extractor step: group depth and accumulated values after one
/// more token.
pub open spec fn spec_extract_step(depth: nat, acc: ExtractedView, t: TokenView) -> (
    nat,
    ExtractedView,
) {
    match t {
        TokenView::GroupStart => ((depth + 1) as nat, acc),
        TokenView::GroupEnd => (
            if depth > 0 {
                (depth - 1) as nat
            } else {
                0nat
            },
            acc,
        ),
        TokenView::Segment(s) => {
            if spec_is_after_key(s) {
                (depth, ExtractedView { after_value: Some(spec_directive_value(s, 6)), ..acc })
            } else if spec_is_before_key(s) {
                (depth, ExtractedView { before_value: Some(spec_directive_value(s, 7)), ..acc })
            } else if spec_is_from_key(s) {
                let v = spec_directive_value(s, 5);
                if v.len() == 0 {
                    (depth, acc)
                } else {
                    (depth, ExtractedView { from_values: acc.from_values.push(v), ..acc })
                }
            } else if spec_is_conversation_key(s) {
                (
                    depth,
                    ExtractedView { conversation_value: Some(spec_directive_value(s, 13)), ..acc },
                )
            } else if depth == 0 {
                (depth, ExtractedView { free_text: spec_join2(acc.free_text, s), ..acc })
            } else {
                (depth, acc)
            }
        },
    }
}

pub open spec fn spec_extract_from(ts: Seq<TokenView>, i: int, depth: nat, acc: ExtractedView) -> ExtractedView
    decreases ts.len() - i,
{
    if i < 0 || i >= ts.len() {
        acc
    } else {
        let st = spec_extract_step(depth, acc, ts[i]);
        spec_extract_from(ts, i + 1, st.0, st.1)
    }
}

/// The filter values of a whole token stream.
pub open spec fn spec_extract(ts: Seq<TokenView>) -> ExtractedView {
    spec_extract_from(ts, 0, 0, spec_empty_extracted())
}

/// The filter values of raw query text.
pub open spec fn spec_parse_query(s: Seq<u8>) -> ExtractedView {
    spec_extract(spec_tokenize(s))
}

/// Whether a segment carries any recognized directive key.
pub open spec fn spec_is_directive(s: Seq<u8>) -> bool {
    spec_is_after_key(s) || spec_is_before_key(s) || spec_is_from_key(s)
        || spec_is_conversation_key(s)
}

/// The texts of the non-directive segments standing outside every
/// group, in order, read from position `i` at group depth `depth`.
pub open spec fn spec_free_segments_from(ts: Seq<TokenView>, i: int, depth: nat) -> Seq<Seq<u8>>
    decreases ts.len() - i,
{
    if i < 0 || i >= ts.len() {
        Seq::empty()
    } else {
        match ts[i] {
            TokenView::GroupStart => spec_free_segments_from(ts, i + 1, (depth + 1) as nat),
            TokenView::GroupEnd => spec_free_segments_from(
                ts,
                i + 1,
                if depth > 0 {
                    (depth - 1) as nat
                } else {
                    0nat
                },
            ),
            TokenView::Segment(s) => {
                if !spec_is_directive(s) && depth == 0 {
                    seq![s] + spec_free_segments_from(ts, i + 1, depth)
                } else {
                    spec_free_segments_from(ts, i + 1, depth)
                }
            },
        }
    }
}

pub open spec fn spec_free_segments(ts: Seq<TokenView>) -> Seq<Seq<u8>> {
    spec_free_segments_from(ts, 0, 0)
}

/// Pieces of text joined by single spaces.
pub open spec fn spec_join_spaces(xs: Seq<Seq<u8>>) -> Seq<u8>
    decreases xs.len(),
{
    if xs.len() == 0 {
        Seq::empty()
    } else if xs.len() == 1 {
        xs[0]
    } else {
        xs[0] + seq![32u8] + spec_join_spaces(xs.drop_first())
    }
}

/// Pieces of text folded one by one onto an accumulator, as the
/// extractor does.
pub open spec fn spec_join_onto(a: Seq<u8>, xs: Seq<Seq<u8>>) -> Seq<u8>
    decreases xs.len(),
{
    if xs.len() == 0 {
        a
    } else {
        spec_join_onto(spec_join2(a, xs[0]), xs.drop_first())
    }
}

proof fn lemma_extract_free_onto(ts: Seq<TokenView>, i: int, depth: nat, acc: ExtractedView)
    ensures
        spec_extract_from(ts, i, depth, acc).free_text == spec_join_onto(
            acc.free_text,
            spec_free_segments_from(ts, i, depth),
        ),
    decreases ts.len() - i,
{
    if i < 0 || i >= ts.len() {
    } else {
        let st = spec_extract_step(depth, acc, ts[i]);
        lemma_extract_free_onto(ts, i + 1, st.0, st.1);
        match ts[i] {
            TokenView::GroupStart => {},
            TokenView::GroupEnd => {},
            TokenView::Segment(s) => {
                if !spec_is_directive(s) && depth == 0 {
                    let rest = spec_free_segments_from(ts, i + 1, depth);
                    assert((seq![s] + rest)[0] == s);
                    assert((seq![s] + rest).drop_first() =~= rest);
                } else {
                    assert(st.1.free_text == acc.free_text);
                }
            },
        }
    }
}

/// Every piece holds at least one byte.
pub open spec fn spec_all_nonempty(xs: Seq<Seq<u8>>) -> bool {
    forall|j: int| 0 <= j < xs.len() ==> xs[j].len() > 0
}

proof fn lemma_join_onto_spaces(a: Seq<u8>, xs: Seq<Seq<u8>>)
    requires
        spec_all_nonempty(xs),
    ensures
        xs.len() == 0 ==> spec_join_onto(a, xs) == a,
        xs.len() > 0 ==> spec_join_onto(a, xs) == spec_join2(a, spec_join_spaces(xs)),
    decreases xs.len(),
{
    if xs.len() == 0 {
    } else {
        let rest = xs.drop_first();
        assert(spec_all_nonempty(rest)) by {
            assert(forall|j: int| 0 <= j < rest.len() ==> rest[j] == xs[j + 1]);
        }
        lemma_join_onto_spaces(spec_join2(a, xs[0]), rest);
        if rest.len() == 0 {
        } else {
            assert(spec_join2(spec_join2(a, xs[0]), spec_join_spaces(rest)) == spec_join2(
                a,
                xs[0] + seq![32u8] + spec_join_spaces(rest),
            )) by {
                if a.len() == 0 {
                } else {
                    assert(a + seq![32u8] + xs[0] + seq![32u8] + spec_join_spaces(rest) =~= a
                        + seq![32u8] + (xs[0] + seq![32u8] + spec_join_spaces(rest)));
                }
            }
        }
    }
}

proof fn lemma_free_segments_nonempty(ts: Seq<TokenView>, i: int, depth: nat)
    requires
        crate::tokens::spec_segments_nonempty(ts),
    ensures
        spec_all_nonempty(spec_free_segments_from(ts, i, depth)),
    decreases ts.len() - i,
{
    if i < 0 || i >= ts.len() {
    } else {
        match ts[i] {
            TokenView::GroupStart => {
                lemma_free_segments_nonempty(ts, i + 1, (depth + 1) as nat);
            },
            TokenView::GroupEnd => {
                lemma_free_segments_nonempty(
                    ts,
                    i + 1,
                    if depth > 0 {
                        (depth - 1) as nat
                    } else {
                        0nat
                    },
                );
            },
            TokenView::Segment(s) => {
                lemma_free_segments_nonempty(ts, i + 1, depth);
                if !spec_is_directive(s) && depth == 0 {
                    let rest = spec_free_segments_from(ts, i + 1, depth);
                    let whole = seq![s] + rest;
                    assert(ts[i]->Segment_0 == s);
                    assert(s.len() > 0);
                    assert(spec_all_nonempty(whole)) by {
                        assert forall|j: int| 0 <= j < whole.len() implies whole[j].len() > 0 by {
                            if j == 0 {
                                assert(whole[0] == s);
                            } else {
                                assert(whole[j] == rest[j - 1]);
                            }
                        }
                    }
                    assert(spec_free_segments_from(ts, i, depth) == whole);
                }
            },
        }
    }
}

/// Tokenizing query text and re-joining the non-directive segments
/// that stand outside every group with single spaces gives exactly
/// the free text the extractor accumulates: free-text extraction
/// keeps the original wording and order.
pub proof fn lemma_free_text_round_trip(s: Seq<u8>)
    ensures
        spec_parse_query(s).free_text == spec_join_spaces(spec_free_segments(spec_tokenize(s))),
{
    let ts = spec_tokenize(s);
    crate::tokens::lemma_tokenize_segments_nonempty(s);
    lemma_extract_free_onto(ts, 0, 0, spec_empty_extracted());
    lemma_free_segments_nonempty(ts, 0, 0);
    lemma_join_onto_spaces(Seq::empty(), spec_free_segments(ts));
}

fn is_after_key(s: &Vec<u8>) -> (r: bool)
    ensures
        r == spec_is_after_key(s@),
{
    s.len() >= 6 && s[0] == 65 && s[1] == 70 && s[2] == 84 && s[3] == 69 && s[4] == 82 && s[5]
        == 58
}

fn is_before_key(s: &Vec<u8>) -> (r: bool)
    ensures
        r == spec_is_before_key(s@),
{
    s.len() >= 7 && s[0] == 66 && s[1] == 69 && s[2] == 70 && s[3] == 79 && s[4] == 82 && s[5]
        == 69 && s[6] == 58
}

fn is_from_key(s: &Vec<u8>) -> (r: bool)
    ensures
        r == spec_is_from_key(s@),
{
    s.len() >= 5 && s[0] == 70 && s[1] == 82 && s[2] == 79 && s[3] == 77 && s[4] == 58
}

fn is_conversation_key(s: &Vec<u8>) -> (r: bool)
    ensures
        r == spec_is_conversation_key(s@),
{
    s.len() >= 13 && s[0] == 67 && s[1] == 79 && s[2] == 78 && s[3] == 86 && s[4] == 69 && s[5]
        == 82 && s[6] == 83 && s[7] == 65 && s[8] == 84 && s[9] == 73 && s[10] == 79 && s[11]
        == 78 && s[12] == 58
}

fn directive_value(s: &Vec<u8>, keylen: usize) -> (r: Vec<u8>)
    requires
        keylen <= s@.len(),
    ensures
        r@ == spec_directive_value(s@, keylen as int),
{
    let rest = slice_subrange(s.as_slice(), keylen, s.len());
    if rest.len() >= 2 && rest[0] == 34 && rest[rest.len() - 1] == 34 {
        slice_to_vec(slice_subrange(rest, 1, rest.len() - 1))
    } else {
        slice_to_vec(rest)
    }
}

/// Reads the filter values out of a token stream.
pub fn extract(tokens: &Vec<Token>) -> (r: ExtractedQuery)
    ensures
        r@ == spec_extract(token_views(tokens@)),
{
    let ghost goal = spec_extract(token_views(tokens@));
    let mut acc = ExtractedQuery {
        free_text: Vec::new(),
        from_values: Vec::new(),
        after_value: None,
        before_value: None,
        conversation_value: None,
    };
    let mut depth: usize = 0;
    let mut i: usize = 0;
    proof {
        assert(acc@ =~= spec_empty_extracted());
    }
    while i < tokens.len()
        invariant
            i <= tokens@.len(),
            depth <= i,
            spec_extract_from(token_views(tokens@), i as int, depth as nat, acc@) == goal,
        decreases tokens@.len() - i,
    {
        let ghost tv = token_views(tokens@);
        let ghost step = spec_extract_step(depth as nat, acc@, tv[i as int]);
        proof {
            assert(tv[i as int] == tokens@[i as int]@);
        }
        let t = &tokens[i];
        match t {
            Token::GroupStart => {
                depth = depth + 1;
            },
            Token::GroupEnd => {
                if depth > 0 {
                    depth = depth - 1;
                }
            },
            Token::Segment(s) => {
                if is_after_key(s) {
                    acc.after_value = Some(directive_value(s, 6));
                    proof {
                        assert(acc@ =~= step.1);
                    }
                } else if is_before_key(s) {
                    acc.before_value = Some(directive_value(s, 7));
                    proof {
                        assert(acc@ =~= step.1);
                    }
                } else if is_from_key(s) {
                    let v = directive_value(s, 5);
                    if v.len() > 0 {
                        let ghost prev = acc@;
                        acc.from_values.push(v);
                        proof {
                            assert(acc@.from_values =~= prev.from_values.push(
                                acc.from_values@.last()@,
                            ));
                            assert(acc@ =~= step.1);
                        }
                    }
                } else if is_conversation_key(s) {
                    acc.conversation_value = Some(directive_value(s, 13));
                    proof {
                        assert(acc@ =~= step.1);
                    }
                } else if depth == 0 {
                    let ghost prevfree = acc.free_text@;
                    if acc.free_text.len() > 0 {
                        acc.free_text.push(32);
                        acc.free_text.extend_from_slice(s.as_slice());
                        proof {
                            assert(acc.free_text@ =~= prevfree + seq![32u8] + s@);
                        }
                    } else {
                        acc.free_text.extend_from_slice(s.as_slice());
                        proof {
                            assert(acc.free_text@ =~= s@);
                        }
                    }
                    proof {
                        assert(acc@ =~= step.1);
                    }
                }
            },
        }
        i = i + 1;
    }
    acc
}

} // verus!
