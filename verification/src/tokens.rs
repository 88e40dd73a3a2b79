//! The tokenizer: raw query text to lexical tokens.
//!
//! The text is cut into segments at unquoted whitespace.  Double
//! quotes keep whitespace and parentheses literal, and inside quotes a
//! backslash keeps the next byte literal; all bytes of a segment,
//! quotes and backslashes included, are kept verbatim — quote
//! stripping is the directive extractor's business.  An unquoted `(`
//! or `)` becomes its own group token; an unmatched `)` merely closes
//! (no error), and an unterminated quote runs to the end of the text.

use vstd::prelude::*;

verus! {

/// One lexical token of the query text.
#[derive(Debug, Clone, PartialEq, Eq)]
pub enum Token {
    /// A maximal run of bytes between unquoted whitespace and group
    /// marks, kept verbatim.
    Segment(Vec<u8>),
    /// An unquoted `(`.
    GroupStart,
    /// An unquoted `)`.
    GroupEnd,
}

/// The mathematical shape of a token.
#[verifier::ext_equal]
pub enum TokenView {
    Segment(Seq<u8>),
    GroupStart,
    GroupEnd,
}

impl View for Token {
    type V = TokenView;

    open spec fn view(&self) -> TokenView {
        match self {
            Token::Segment(s) => TokenView::Segment(s@),
            Token::GroupStart => TokenView::GroupStart,
            Token::GroupEnd => TokenView::GroupEnd,
        }
    }
}

pub open spec fn token_views(ts: Seq<Token>) -> Seq<TokenView> {
    ts.map_values(|t: Token| t@)
}

/// The lexer's three states: outside quotes, inside quotes, and inside
/// quotes right after a backslash.
pub enum LexMode {
    Normal,
    Quoted,
    QuotedEscape,
}

/// Whitespace that delimits segments when unquoted.
pub open spec fn spec_is_space(b: u8) -> bool {
    b == 32 || b == 9 || b == 10 || b == 13
}

/// Ends the pending segment: a nonempty one becomes a token.
pub open spec fn spec_flush(out: Seq<TokenView>, cur: Seq<u8>) -> Seq<TokenView> {
    if cur.len() == 0 {
        out
    } else {
        out.push(TokenView::Segment(cur))
    }
}

/// The lexer, one byte at a time, from position `i` in state `mode`
/// with pending segment `cur` and emitted tokens `out`.
pub open spec fn spec_lex_from(
    s: Seq<u8>,
    i: int,
    mode: LexMode,
    cur: Seq<u8>,
    out: Seq<TokenView>,
) -> Seq<TokenView>
    decreases s.len() - i,
{
    if i < 0 || i >= s.len() {
        spec_flush(out, cur)
    } else {
        let b = s[i];
        match mode {
            LexMode::Normal => {
                if spec_is_space(b) {
                    spec_lex_from(s, i + 1, LexMode::Normal, Seq::empty(), spec_flush(out, cur))
                } else if b == 40 {
                    spec_lex_from(
                        s,
                        i + 1,
                        LexMode::Normal,
                        Seq::empty(),
                        spec_flush(out, cur).push(TokenView::GroupStart),
                    )
                } else if b == 41 {
                    spec_lex_from(
                        s,
                        i + 1,
                        LexMode::Normal,
                        Seq::empty(),
                        spec_flush(out, cur).push(TokenView::GroupEnd),
                    )
                } else if b == 34 {
                    spec_lex_from(s, i + 1, LexMode::Quoted, cur.push(34), out)
                } else {
                    spec_lex_from(s, i + 1, LexMode::Normal, cur.push(b), out)
                }
            },
            LexMode::Quoted => {
                if b == 92 {
                    spec_lex_from(s, i + 1, LexMode::QuotedEscape, cur.push(92), out)
                } else if b == 34 {
                    spec_lex_from(s, i + 1, LexMode::Normal, cur.push(34), out)
                } else {
                    spec_lex_from(s, i + 1, LexMode::Quoted, cur.push(b), out)
                }
            },
            LexMode::QuotedEscape => spec_lex_from(s, i + 1, LexMode::Quoted, cur.push(b), out),
        }
    }
}

/// The tokens of a whole query text.
pub open spec fn spec_tokenize(s: Seq<u8>) -> Seq<TokenView> {
    spec_lex_from(s, 0, LexMode::Normal, Seq::empty(), Seq::empty())
}

fn flush_segment(out: &mut Vec<Token>, cur: Vec<u8>) -> (r: Vec<u8>)
    ensures
        token_views(final(out)@) == spec_flush(token_views(old(out)@), cur@),
        r@ == Seq::<u8>::empty(),
{
    if cur.len() > 0 {
        let ghost prev = out@;
        out.push(Token::Segment(cur));
        proof {
            assert(token_views(out@) =~= token_views(prev).push(
                TokenView::Segment(out@.last()->Segment_0@),
            ));
        }
        Vec::new()
    } else {
        proof {
            assert(cur@.len() == 0);
        }
        cur
    }
}

/// Cuts query text into tokens.
pub fn tokenize(s: &[u8]) -> (r: Vec<Token>)
    ensures
        token_views(r@) == spec_tokenize(s@),
{
    let mut out: Vec<Token> = Vec::new();
    let mut cur: Vec<u8> = Vec::new();
    let mut mode = LexMode::Normal;
    let mut i: usize = 0;
    proof {
        assert(token_views(out@) =~= Seq::<TokenView>::empty());
        assert(cur@ =~= Seq::<u8>::empty());
    }
    while i < s.len()
        invariant
            i <= s@.len(),
            spec_lex_from(s@, i as int, mode, cur@, token_views(out@)) == spec_tokenize(s@),
        decreases s@.len() - i,
    {
        let b = s[i];
        match mode {
            LexMode::Normal => {
                if b == 32 || b == 9 || b == 10 || b == 13 {
                    cur = flush_segment(&mut out, cur);
                } else if b == 40 {
                    cur = flush_segment(&mut out, cur);
                    let ghost prev = out@;
                    out.push(Token::GroupStart);
                    proof {
                        assert(token_views(out@) =~= token_views(prev).push(TokenView::GroupStart));
                    }
                } else if b == 41 {
                    cur = flush_segment(&mut out, cur);
                    let ghost prev = out@;
                    out.push(Token::GroupEnd);
                    proof {
                        assert(token_views(out@) =~= token_views(prev).push(TokenView::GroupEnd));
                    }
                } else if b == 34 {
                    cur.push(34);
                    mode = LexMode::Quoted;
                } else {
                    cur.push(b);
                }
            },
            LexMode::Quoted => {
                if b == 92 {
                    cur.push(92);
                    mode = LexMode::QuotedEscape;
                } else if b == 34 {
                    cur.push(34);
                    mode = LexMode::Normal;
                } else {
                    cur.push(b);
                }
            },
            LexMode::QuotedEscape => {
                cur.push(b);
                mode = LexMode::Quoted;
            },
        }
        i = i + 1;
    }
    let _ = flush_segment(&mut out, cur);
    out
}

/// Every segment the tokenizer emits holds at least one byte.
pub open spec fn spec_segments_nonempty(ts: Seq<TokenView>) -> bool {
    forall|j: int|
        0 <= j < ts.len() ==> (ts[j] is Segment ==> ts[j]->Segment_0.len() > 0)
}

proof fn lemma_lex_from_segments_nonempty(
    s: Seq<u8>,
    i: int,
    mode: LexMode,
    cur: Seq<u8>,
    out: Seq<TokenView>,
)
    requires
        spec_segments_nonempty(out),
    ensures
        spec_segments_nonempty(spec_lex_from(s, i, mode, cur, out)),
    decreases s.len() - i,
{
    if i < 0 || i >= s.len() {
        assert(spec_segments_nonempty(spec_flush(out, cur)));
    } else {
        let b = s[i];
        match mode {
            LexMode::Normal => {
                if spec_is_space(b) {
                    lemma_lex_from_segments_nonempty(
                        s,
                        i + 1,
                        LexMode::Normal,
                        Seq::empty(),
                        spec_flush(out, cur),
                    );
                } else if b == 40 {
                    lemma_lex_from_segments_nonempty(
                        s,
                        i + 1,
                        LexMode::Normal,
                        Seq::empty(),
                        spec_flush(out, cur).push(TokenView::GroupStart),
                    );
                } else if b == 41 {
                    lemma_lex_from_segments_nonempty(
                        s,
                        i + 1,
                        LexMode::Normal,
                        Seq::empty(),
                        spec_flush(out, cur).push(TokenView::GroupEnd),
                    );
                } else if b == 34 {
                    lemma_lex_from_segments_nonempty(s, i + 1, LexMode::Quoted, cur.push(34), out);
                } else {
                    lemma_lex_from_segments_nonempty(s, i + 1, LexMode::Normal, cur.push(b), out);
                }
            },
            LexMode::Quoted => {
                if b == 92 {
                    lemma_lex_from_segments_nonempty(
                        s,
                        i + 1,
                        LexMode::QuotedEscape,
                        cur.push(92),
                        out,
                    );
                } else if b == 34 {
                    lemma_lex_from_segments_nonempty(s, i + 1, LexMode::Normal, cur.push(34), out);
                } else {
                    lemma_lex_from_segments_nonempty(s, i + 1, LexMode::Quoted, cur.push(b), out);
                }
            },
            LexMode::QuotedEscape => {
                lemma_lex_from_segments_nonempty(s, i + 1, LexMode::Quoted, cur.push(b), out);
            },
        }
    }
}

/// The tokenizer never emits an empty segment.
pub proof fn lemma_tokenize_segments_nonempty(s: Seq<u8>)
    ensures
        spec_segments_nonempty(spec_tokenize(s)),
{
    lemma_lex_from_segments_nonempty(s, 0, LexMode::Normal, Seq::empty(), Seq::empty());
}

} // verus!
