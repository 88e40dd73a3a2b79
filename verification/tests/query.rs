use chat_search::compose::search_query;
use chat_search::compose::Param;
use chat_search::filters::ContactIdentifier;
use chat_search::filters::SearchRequest;

fn request(query: &[u8]) -> SearchRequest {
    SearchRequest {
        query: query.to_vec(),
        start_date: None,
        end_date: None,
        contact_identifiers: Vec::new(),
        conversation_id: None,
        show_only_my_messages: false,
        show_only_attachments: false,
        sort_direction: b"desc".to_vec(),
        conversation_type: b"all".to_vec(),
    }
}

#[test]
fn empty_request_composes_the_bare_query() {
    let q = search_query(&request(b""));
    assert!(q.sql.starts_with("SELECT DISTINCT m.ROWID as message_id"));
    assert!(q.sql.contains("WHERE 1 = 1"));
    assert!(q.sql.ends_with(" ORDER BY m.date DESC LIMIT 100"));
    assert!(q.params.is_empty());
}

#[test]
fn free_text_becomes_one_bound_contains_pattern() {
    let q = search_query(&request(b"hello world"));
    assert!(q.sql.contains(" AND m.text LIKE ?"));
    assert_eq!(q.params, vec![Param::Text(b"%hello world%".to_vec())]);
}

#[test]
fn directives_alone_add_no_text_clause() {
    let q = search_query(&request(b"AFTER:2024-01-01"));
    assert!(!q.sql.contains("m.text LIKE"));
    assert_eq!(q.params, vec![Param::Int(725_760_000_000_000_000)]);
    assert!(q.sql.contains(" AND m.date > ?"));
}

#[test]
fn non_numeric_conversation_fails_closed() {
    let q = search_query(&request(b"CONVERSATION:abc"));
    assert!(q.sql.contains(" AND 1 = 0"));
    assert!(!q.sql.contains("cmj.chat_id = ?"));
    assert!(q.params.is_empty());
}

#[test]
fn numeric_conversation_is_bound() {
    let q = search_query(&request(b"CONVERSATION:42"));
    assert!(q.sql.contains(" AND cmj.chat_id = ?"));
    assert!(!q.sql.contains("1 = 0"));
    assert_eq!(q.params, vec![Param::Int(42)]);
}

#[test]
fn structured_conversation_id_is_a_fallback() {
    let mut r = request(b"");
    r.conversation_id = Some(b"7".to_vec());
    let q = search_query(&r);
    assert_eq!(q.params, vec![Param::Int(7)]);
    let mut r = request(b"CONVERSATION:9");
    r.conversation_id = Some(b"7".to_vec());
    let q = search_query(&r);
    assert_eq!(q.params, vec![Param::Int(9)]);
}

#[test]
fn overlong_conversation_id_fails_closed() {
    let q = search_query(&request(b"CONVERSATION:99999999999999999999"));
    assert!(q.sql.contains(" AND 1 = 0"));
    assert!(q.params.is_empty());
}

#[test]
fn from_directives_group_by_or() {
    let q = search_query(&request(b"FROM:alice FROM:bob"));
    assert!(q.sql.contains(" AND ((INSTR(h.id, ?) > 0"));
    assert!(q.sql.contains(" OR (INSTR(h.id, ?) > 0"));
    assert_eq!(
        q.params,
        vec![
            Param::Text(b"alice".to_vec()),
            Param::Text(b"alice".to_vec()),
            Param::Text(b"bob".to_vec()),
            Param::Text(b"bob".to_vec()),
        ]
    );
}

#[test]
fn phone_identifier_binds_its_last_ten_digits() {
    let mut r = request(b"");
    r.contact_identifiers = vec![ContactIdentifier {
        contact_id: None,
        phones: vec![b"+1 (415) 555-0100".to_vec()],
        emails: Vec::new(),
    }];
    let q = search_query(&r);
    assert!(q.sql.contains("REPLACE(REPLACE(REPLACE(REPLACE(REPLACE(h.id"));
    assert_eq!(
        q.params,
        vec![
            Param::Text(b"4155550100".to_vec()),
            Param::Text(b"4155550100".to_vec()),
        ]
    );
}

#[test]
fn structured_identifier_contributes_in_order() {
    let mut r = request(b"");
    r.contact_identifiers = vec![ContactIdentifier {
        contact_id: Some(b"c@d.com".to_vec()),
        phones: vec![b"no digits at all?".to_vec()],
        emails: vec![b"e@f.com".to_vec()],
    }];
    let q = search_query(&r);
    assert_eq!(
        q.params,
        vec![
            Param::Text(b"c@d.com".to_vec()),
            Param::Text(b"c@d.com".to_vec()),
            Param::Text(b"e@f.com".to_vec()),
            Param::Text(b"e@f.com".to_vec()),
        ]
    );
    assert!(q.sql.contains("LOWER(h.id) = LOWER(?)"));
}

#[test]
fn query_text_never_reaches_the_sql() {
    let q = search_query(&request(b"'; DROP TABLE message;--"));
    assert!(!q.sql.contains("DROP"));
    assert_eq!(q.params, vec![Param::Text(b"%'; DROP TABLE message;--%".to_vec())]);
}

#[test]
fn ascending_sort_is_honored() {
    let mut r = request(b"");
    r.sort_direction = b"asc".to_vec();
    let q = search_query(&r);
    assert!(q.sql.ends_with(" ORDER BY m.date ASC LIMIT 100"));
}

#[test]
fn unknown_sort_direction_sorts_newest_first() {
    let mut r = request(b"");
    r.sort_direction = b"sideways".to_vec();
    let q = search_query(&r);
    assert!(q.sql.ends_with(" ORDER BY m.date DESC LIMIT 100"));
}

#[test]
fn conversation_kind_filters() {
    let mut r = request(b"");
    r.conversation_type = b"direct".to_vec();
    let q = search_query(&r);
    assert!(q.sql.contains("COUNT(DISTINCT h2.id)"));
    assert!(q.sql.contains(") <= 1"));
    r.conversation_type = b"group".to_vec();
    let q = search_query(&r);
    assert!(q.sql.contains(") > 1"));
    r.conversation_type = b"all".to_vec();
    let q = search_query(&r);
    assert!(!q.sql.contains("COUNT(DISTINCT h2.id)"));
}

#[test]
fn boolean_flags_add_their_clauses() {
    let mut r = request(b"");
    r.show_only_my_messages = true;
    r.show_only_attachments = true;
    let q = search_query(&r);
    assert!(q.sql.contains(" AND m.is_from_me = 1"));
    assert!(q.sql.contains(" AND EXISTS (SELECT 1 FROM attachment a"));
}

#[test]
fn clause_order_is_fixed() {
    let mut r = request(b"hi BEFORE:2024-06-30 AFTER:2024-01-01 FROM:alice CONVERSATION:3");
    r.show_only_my_messages = true;
    r.show_only_attachments = true;
    r.conversation_type = b"group".to_vec();
    let q = search_query(&r);
    let text = q.sql.find(" AND m.text LIKE ?").unwrap();
    let after = q.sql.find(" AND m.date > ?").unwrap();
    let before = q.sql.find(" AND m.date < ?").unwrap();
    let sender = q.sql.find(" AND ((INSTR").unwrap();
    let conv = q.sql.find(" AND cmj.chat_id = ?").unwrap();
    let mine = q.sql.find(" AND m.is_from_me = 1").unwrap();
    let attach = q.sql.find(" AND EXISTS (SELECT 1 FROM attachment a").unwrap();
    let kind = q.sql.find("COUNT(DISTINCT h2.id)").unwrap();
    assert!(text < after && after < before && before < sender);
    assert!(sender < conv && conv < mine && mine < attach && attach < kind);
    assert_eq!(q.params.len(), 6);
}

#[test]
fn malformed_date_directive_falls_back_to_the_field() {
    let mut r = request(b"AFTER:2024-99-99");
    r.start_date = Some(b"2024-01-01".to_vec());
    let q = search_query(&r);
    assert_eq!(q.params, vec![Param::Int(725_760_000_000_000_000)]);
    let q = search_query(&request(b"AFTER:2024-99-99"));
    assert!(q.params.is_empty());
    assert!(!q.sql.contains("m.date > ?"));
}

#[test]
fn end_date_field_covers_its_whole_day() {
    let mut r = request(b"");
    r.end_date = Some(b"2024-01-01".to_vec());
    let q = search_query(&r);
    assert!(q.sql.contains(" AND m.date < ?"));
    assert_eq!(q.params, vec![Param::Int(725_846_399_000_000_000)]);
}

#[test]
fn bare_query_text_lowers_into_the_same_pipeline() {
    let filters =
        chat_search::filters::normalize_query_text(b"ping FROM:a@b.com AFTER:2024-01-01".to_vec());
    let q = chat_search::compose::compose_query(filters);
    assert!(q.sql.contains(" AND m.text LIKE ?"));
    assert!(q.sql.contains(" AND m.date > ?"));
    assert!(q.sql.contains("LOWER(h.id) = LOWER(?)"));
    assert!(q.sql.ends_with(" ORDER BY m.date DESC LIMIT 100"));
    assert_eq!(
        q.params,
        vec![
            Param::Text(b"%ping%".to_vec()),
            Param::Int(725_760_000_000_000_000),
            Param::Text(b"a@b.com".to_vec()),
            Param::Text(b"a@b.com".to_vec()),
        ]
    );
}
