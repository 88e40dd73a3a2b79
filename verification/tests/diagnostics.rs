use chat_search::filters::request_diagnostics;
use chat_search::filters::ContactIdentifier;
use chat_search::filters::Diagnostic;
use chat_search::filters::SearchRequest;

fn base_request(query: &[u8]) -> SearchRequest {
    SearchRequest {
        query: query.to_vec(),
        start_date: None,
        end_date: None,
        contact_identifiers: Vec::<ContactIdentifier>::new(),
        conversation_id: None,
        show_only_my_messages: false,
        show_only_attachments: false,
        sort_direction: b"desc".to_vec(),
        conversation_type: b"all".to_vec(),
    }
}

#[test]
fn clean_request_reports_nothing() {
    let r = base_request(b"hello AFTER:2024-01-01 CONVERSATION:5");
    assert!(request_diagnostics(&r).is_empty());
}

#[test]
fn unreadable_date_directive_is_reported() {
    let r = base_request(b"AFTER:2024-99-99");
    assert_eq!(
        request_diagnostics(&r),
        vec![Diagnostic::BadAfterDate(b"2024-99-99".to_vec())]
    );
}

#[test]
fn unreadable_field_is_reported_when_consulted() {
    let mut r = base_request(b"");
    r.start_date = Some(b"soon".to_vec());
    assert_eq!(
        request_diagnostics(&r),
        vec![Diagnostic::BadAfterDate(b"soon".to_vec())]
    );
}

#[test]
fn valid_directive_leaves_the_field_unread() {
    let mut r = base_request(b"BEFORE:2024-01-01");
    r.end_date = Some(b"nonsense".to_vec());
    assert!(request_diagnostics(&r).is_empty());
}

#[test]
fn rejected_conversation_id_is_reported() {
    let r = base_request(b"CONVERSATION:abc");
    assert_eq!(
        request_diagnostics(&r),
        vec![Diagnostic::BadConversationId(b"abc".to_vec())]
    );
}

#[test]
fn diagnostics_come_in_clause_order() {
    let mut r = base_request(b"AFTER:x BEFORE:y CONVERSATION:z");
    r.start_date = Some(b"w".to_vec());
    assert_eq!(
        request_diagnostics(&r),
        vec![
            Diagnostic::BadAfterDate(b"x".to_vec()),
            Diagnostic::BadAfterDate(b"w".to_vec()),
            Diagnostic::BadBeforeDate(b"y".to_vec()),
            Diagnostic::BadConversationId(b"z".to_vec()),
        ]
    );
}
