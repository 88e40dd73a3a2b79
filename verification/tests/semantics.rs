use chat_search::compose::clauses_admit;
use chat_search::compose::compose_clauses;
use chat_search::compose::Clause;
use chat_search::compose::MessageFacts;
use chat_search::filters::normalize_query_text;

fn facts() -> MessageFacts {
    MessageFacts {
        text: b"hello there".to_vec(),
        date_ns: 725_800_000_000_000_000,
        is_from_me: false,
        chat_id: 42,
        handle: b"+14155550100".to_vec(),
        uncanonical: b"(415) 555-0100".to_vec(),
        has_attachment: false,
        participant_count: 1,
    }
}

fn clauses_for(query: &[u8]) -> Vec<Clause> {
    compose_clauses(normalize_query_text(query.to_vec()))
}

#[test]
fn empty_condition_admits_everything() {
    assert!(clauses_admit(&clauses_for(b""), &facts()));
}

#[test]
fn failed_conversation_scope_admits_no_row_at_all() {
    let clauses = clauses_for(b"CONVERSATION:abc");
    let mut m = facts();
    assert!(!clauses_admit(&clauses, &m));
    m.chat_id = 0;
    m.text = Vec::new();
    m.is_from_me = true;
    assert!(!clauses_admit(&clauses, &m));
}

#[test]
fn senders_admit_by_any_one_matcher() {
    let clauses = clauses_for(b"FROM:alice FROM:bob");
    let mut m = facts();
    m.handle = b"bob@example.com".to_vec();
    m.uncanonical = m.handle.clone();
    assert!(clauses_admit(&clauses, &m));
    m.handle = b"alice@example.com".to_vec();
    m.uncanonical = m.handle.clone();
    assert!(clauses_admit(&clauses, &m));
    m.handle = b"carol@example.com".to_vec();
    m.uncanonical = m.handle.clone();
    assert!(!clauses_admit(&clauses, &m));
}

#[test]
fn phone_sender_admits_by_suffix_on_either_identifier() {
    let clauses = clauses_for(b"FROM:+1-415-555-0100");
    let mut m = facts();
    assert!(clauses_admit(&clauses, &m));
    m.handle = b"someone@example.com".to_vec();
    assert!(clauses_admit(&clauses, &m));
    m.uncanonical = b"555-0199".to_vec();
    assert!(!clauses_admit(&clauses, &m));
}

#[test]
fn text_condition_requires_the_free_text() {
    let clauses = clauses_for(b"hello");
    let mut m = facts();
    assert!(clauses_admit(&clauses, &m));
    m.text = b"goodbye".to_vec();
    assert!(!clauses_admit(&clauses, &m));
}

#[test]
fn date_bounds_are_strict() {
    let clauses = clauses_for(b"AFTER:2024-01-01");
    let mut m = facts();
    m.date_ns = 725_760_000_000_000_000;
    assert!(!clauses_admit(&clauses, &m));
    m.date_ns += 1;
    assert!(clauses_admit(&clauses, &m));
}

#[test]
fn inverted_date_range_admits_nothing() {
    let clauses = clauses_for(b"AFTER:2024-06-01 BEFORE:2024-01-01");
    let mut m = facts();
    for date in [0i64, 725_760_000_000_000_000, 738_849_599_000_000_000] {
        m.date_ns = date;
        assert!(!clauses_admit(&clauses, &m));
    }
}
