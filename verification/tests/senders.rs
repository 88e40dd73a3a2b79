use chat_search::senders::any_matcher_matches;
use chat_search::senders::classify_sender;
use chat_search::senders::digits_of;
use chat_search::senders::matcher_matches;
use chat_search::senders::phone_suffix;
use chat_search::senders::SenderMatcher;

#[test]
fn phone_value_normalizes_to_digits() {
    let m = classify_sender(b"+1 (415) 555-0100".to_vec());
    assert_eq!(m, SenderMatcher::PhoneDigits(b"14155550100".to_vec()));
    assert_eq!(phone_suffix(b"14155550100"), b"4155550100".to_vec());
}

#[test]
fn short_phone_keeps_all_digits() {
    let m = classify_sender(b"911".to_vec());
    assert_eq!(m, SenderMatcher::PhoneDigits(b"911".to_vec()));
    assert_eq!(phone_suffix(b"911"), b"911".to_vec());
}

#[test]
fn value_with_at_sign_is_an_address() {
    let m = classify_sender(b"John@Example.com".to_vec());
    assert_eq!(m, SenderMatcher::Email(b"John@Example.com".to_vec()));
}

#[test]
fn other_values_match_as_raw_identifiers() {
    let m = classify_sender(b"a b".to_vec());
    assert_eq!(m, SenderMatcher::RawIdentifier(b"a b".to_vec()));
    let m = classify_sender(b"".to_vec());
    assert_eq!(m, SenderMatcher::RawIdentifier(b"".to_vec()));
    let m = classify_sender(b"---".to_vec());
    assert_eq!(m, SenderMatcher::RawIdentifier(b"---".to_vec()));
}

#[test]
fn digits_of_drops_everything_else() {
    assert_eq!(digits_of(b"+1 (415) 555-0100"), b"14155550100".to_vec());
    assert_eq!(digits_of(b"no digits"), b"".to_vec());
}

#[test]
fn phone_matcher_compares_last_ten_digits() {
    let m = SenderMatcher::PhoneDigits(b"14155550100".to_vec());
    assert!(matcher_matches(&m, b"+1-415-555-0100"));
    assert!(matcher_matches(&m, b"4155550100"));
    assert!(matcher_matches(&m, b"+44 4155550100"));
    assert!(!matcher_matches(&m, b"+1-415-555-0101"));
}

#[test]
fn email_matcher_ignores_ascii_case() {
    let m = SenderMatcher::Email(b"a@B.com".to_vec());
    assert!(matcher_matches(&m, b"A@b.COM"));
    assert!(!matcher_matches(&m, b"x@b.com"));
    assert!(!matcher_matches(&m, b"a@b.com.br"));
}

#[test]
fn raw_matcher_matches_anywhere_inside() {
    let m = SenderMatcher::RawIdentifier(b"doe".to_vec());
    assert!(matcher_matches(&m, b"john doe jr"));
    assert!(!matcher_matches(&m, b"john d o e"));
}

#[test]
fn matchers_combine_by_or() {
    let ms = vec![
        SenderMatcher::Email(b"a@b.com".to_vec()),
        SenderMatcher::PhoneDigits(b"911".to_vec()),
    ];
    assert!(any_matcher_matches(&ms, b"a@b.com"));
    assert!(any_matcher_matches(&ms, b"911"));
    assert!(!any_matcher_matches(&ms, b"c@d.com"));
    assert!(!any_matcher_matches(&Vec::new(), b"a@b.com"));
}
