use chat_search::extract::extract;
use chat_search::tokens::tokenize;
use chat_search::tokens::Token;

#[test]
fn tokenize_splits_on_unquoted_whitespace() {
    let toks = tokenize(b"hello  world");
    assert_eq!(
        toks,
        vec![Token::Segment(b"hello".to_vec()), Token::Segment(b"world".to_vec())]
    );
}

#[test]
fn tokenize_marks_groups() {
    let toks = tokenize(b"a (b c) d");
    assert_eq!(
        toks,
        vec![
            Token::Segment(b"a".to_vec()),
            Token::GroupStart,
            Token::Segment(b"b".to_vec()),
            Token::Segment(b"c".to_vec()),
            Token::GroupEnd,
            Token::Segment(b"d".to_vec()),
        ]
    );
}

#[test]
fn tokenize_quotes_keep_whitespace_and_parens() {
    let toks = tokenize(b"\"a (b\" c");
    assert_eq!(
        toks,
        vec![Token::Segment(b"\"a (b\"".to_vec()), Token::Segment(b"c".to_vec())]
    );
}

#[test]
fn tokenize_unterminated_quote_runs_to_end() {
    let toks = tokenize(b"x \"a b");
    assert_eq!(
        toks,
        vec![Token::Segment(b"x".to_vec()), Token::Segment(b"\"a b".to_vec())]
    );
}

#[test]
fn tokenize_backslash_escapes_inside_quotes() {
    let toks = tokenize(b"\"a\\\"b\"");
    assert_eq!(toks, vec![Token::Segment(b"\"a\\\"b\"".to_vec())]);
}

#[test]
fn tokenize_stray_close_paren_closes_quietly() {
    let toks = tokenize(b") a");
    assert_eq!(toks, vec![Token::GroupEnd, Token::Segment(b"a".to_vec())]);
}

#[test]
fn free_text_keeps_wording_and_order() {
    let toks = tokenize(b"foo (skip OR this) bar AFTER:2024-01-01 baz");
    let ex = extract(&toks);
    assert_eq!(ex.free_text, b"foo bar baz".to_vec());
}

#[test]
fn free_text_rejoins_with_single_spaces() {
    let toks = tokenize(b"  one   two  \tthree ");
    let ex = extract(&toks);
    assert_eq!(ex.free_text, b"one two three".to_vec());
}

#[test]
fn from_with_quoted_value_is_one_matcher_value() {
    let toks = tokenize(b"FROM:\"a b\"");
    let ex = extract(&toks);
    assert_eq!(ex.from_values, vec![b"a b".to_vec()]);
    assert_eq!(ex.free_text, b"".to_vec());
}

#[test]
fn from_values_accumulate_in_order() {
    let toks = tokenize(b"FROM:alice text FROM:bob");
    let ex = extract(&toks);
    assert_eq!(ex.from_values, vec![b"alice".to_vec(), b"bob".to_vec()]);
    assert_eq!(ex.free_text, b"text".to_vec());
}

#[test]
fn later_single_valued_directive_replaces_earlier() {
    let toks = tokenize(b"AFTER:2024-01-01 AFTER:2025-02-02");
    let ex = extract(&toks);
    assert_eq!(ex.after_value, Some(b"2025-02-02".to_vec()));
}

#[test]
fn conversation_directive_recorded_verbatim() {
    let toks = tokenize(b"CONVERSATION:abc");
    let ex = extract(&toks);
    assert_eq!(ex.conversation_value, Some(b"abc".to_vec()));
}

#[test]
fn empty_from_value_is_dropped() {
    let toks = tokenize(b"FROM: rest");
    let ex = extract(&toks);
    assert!(ex.from_values.is_empty());
    assert_eq!(ex.free_text, b"rest".to_vec());
}

#[test]
fn directives_inside_groups_still_count() {
    let toks = tokenize(b"(FROM:alice)");
    let ex = extract(&toks);
    assert_eq!(ex.from_values, vec![b"alice".to_vec()]);
    assert_eq!(ex.free_text, b"".to_vec());
}
