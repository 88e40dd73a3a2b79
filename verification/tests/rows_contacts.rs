use chat_search::contacts::contact_from_row;
use chat_search::contacts::ContactPhoto;
use chat_search::contacts::ContactRow;
use chat_search::contacts::ImportCounts;
use chat_search::errors::AppError;
use chat_search::rows::map_conversation_row;
use chat_search::rows::map_message_row;
use chat_search::rows::map_search_rows;
use chat_search::rows::ConversationRow;
use chat_search::rows::MessageRow;

fn message_row() -> MessageRow {
    MessageRow {
        message_id: 10,
        text: Some("hi".to_string()),
        date_ns: Some(1_500_000_000),
        is_from_me: Some(0),
        chat_id: Some(3),
        sender_id: Some("+14155550100".to_string()),
        attachment_path: None,
        conversation_name: Some("Friends".to_string()),
    }
}

#[test]
fn absent_text_gets_the_placeholder() {
    let mut row = message_row();
    row.text = None;
    let m = map_message_row(row);
    assert_eq!(m.text, "[Attachment or empty message]");
}

#[test]
fn present_text_is_kept() {
    let m = map_message_row(message_row());
    assert_eq!(m.text, "hi");
    assert_eq!(m.id, 10);
    assert_eq!(m.chat_id, Some(3));
    assert_eq!(m.conversation_name.as_deref(), Some("Friends"));
}

#[test]
fn store_date_becomes_unix_seconds() {
    let m = map_message_row(message_row());
    assert_eq!(m.date, 978_307_201);
    let mut row = message_row();
    row.date_ns = None;
    assert_eq!(map_message_row(row).date, 0);
}

#[test]
fn sender_shown_only_on_received_messages() {
    let m = map_message_row(message_row());
    assert!(!m.is_from_me);
    assert_eq!(m.sender_name.as_deref(), Some("+14155550100"));
    let mut row = message_row();
    row.is_from_me = Some(1);
    let m = map_message_row(row);
    assert!(m.is_from_me);
    assert_eq!(m.sender_name, None);
    let mut row = message_row();
    row.is_from_me = None;
    let m = map_message_row(row);
    assert!(!m.is_from_me);
    assert_eq!(m.sender_name.as_deref(), Some("+14155550100"));
}

#[test]
fn search_rows_map_in_order() {
    let mut a = message_row();
    a.message_id = 1;
    let mut b = message_row();
    b.message_id = 2;
    let r = map_search_rows(vec![a, b]);
    assert_eq!(r.messages.len(), 2);
    assert_eq!(r.messages[0].id, 1);
    assert_eq!(r.messages[1].id, 2);
}

#[test]
fn conversation_name_falls_back_to_the_handle() {
    let row = ConversationRow {
        chat_id: 5,
        display_name: None,
        handle_id: Some("+14155550100".to_string()),
        last_message: Some("yo".to_string()),
        last_message_date_ns: Some(2_000_000_000),
    };
    let c = map_conversation_row(row);
    assert_eq!(c.id, 5);
    assert_eq!(c.name.as_deref(), Some("+14155550100"));
    assert_eq!(c.last_message.as_deref(), Some("yo"));
    assert_eq!(c.last_message_date, 978_307_202);
}

#[test]
fn conversation_without_usable_date_reports_zero() {
    let row = ConversationRow {
        chat_id: 5,
        display_name: Some("Team".to_string()),
        handle_id: Some("x".to_string()),
        last_message: None,
        last_message_date_ns: Some(-7),
    };
    let c = map_conversation_row(row);
    assert_eq!(c.name.as_deref(), Some("Team"));
    assert_eq!(c.last_message_date, 0);
}

#[test]
fn inline_jpeg_and_png_are_recognized() {
    assert!(ContactPhoto::is_valid_image_data(&[1, 0xFF, 0xD8, 0xFF, 0x00]));
    assert!(ContactPhoto::is_valid_image_data(&[1, 0x89, 0x50, 0x4E, 0x47]));
    assert!(!ContactPhoto::is_valid_image_data(&[0, 0xFF, 0xD8, 0xFF]));
    assert!(!ContactPhoto::is_valid_image_data(&[1, 0x00, 0x11, 0x22]));
    assert!(!ContactPhoto::is_valid_image_data(&[1, 0xFF]));
}

#[test]
fn photo_encodes_as_a_data_url() {
    let url = ContactPhoto::prepare_image_data(&[1, 0xFF, 0xD8, 0xFF, 0x00]).unwrap();
    assert_eq!(url, "data:image/jpeg;base64,/9j/AA==");
    let url = ContactPhoto::prepare_image_data(&[1, 0x89, 0x50, 0x4E, 0x00]).unwrap();
    assert_eq!(url, "data:image/png;base64,iVBOAA==");
    assert_eq!(ContactPhoto::prepare_image_data(&[1, 0x00, 0x11, 0x22, 0x33]), None);
    assert_eq!(ContactPhoto::prepare_image_data(&[1, 0xFF]), None);
}

fn contact_row() -> ContactRow {
    ContactRow {
        contact_id: 9,
        first_name: Some("Ada".to_string()),
        last_name: None,
        nickname: None,
        organization: None,
        full_photo: None,
        thumbnail: None,
    }
}

#[test]
fn contact_without_photo_blob_has_none() {
    let mut row = contact_row();
    row.thumbnail = Some(vec![1, 0xFF, 0xD8, 0xFF, 0x00]);
    let c = contact_from_row(row);
    assert_eq!(c.contact_id, 9);
    assert_eq!(c.first_name.as_deref(), Some("Ada"));
    assert!(c.photo.is_none());
    assert!(c.emails.is_empty());
    assert!(c.phones.is_empty());
}

#[test]
fn contact_with_valid_full_photo_encodes_it() {
    let mut row = contact_row();
    row.full_photo = Some(vec![1, 0xFF, 0xD8, 0xFF, 0x00]);
    let c = contact_from_row(row);
    let photo = c.photo.unwrap();
    assert_eq!(photo.full_photo.as_deref(), Some("data:image/jpeg;base64,/9j/AA=="));
    assert_eq!(photo.thumbnail, None);
    assert_eq!(photo.legacy_photo, None);
}

#[test]
fn invalid_full_photo_with_valid_thumbnail_keeps_the_thumbnail() {
    let mut row = contact_row();
    row.full_photo = Some(vec![1, 0x00, 0x11, 0x22, 0x33]);
    row.thumbnail = Some(vec![1, 0x89, 0x50, 0x4E, 0x00]);
    let c = contact_from_row(row);
    let photo = c.photo.unwrap();
    assert_eq!(photo.full_photo, None);
    assert_eq!(photo.thumbnail.as_deref(), Some("data:image/png;base64,iVBOAA=="));
}

#[test]
fn import_counts_fold_by_return_value() {
    let counts = ImportCounts::new();
    let counts = counts.record_contact().record_email().record_email().record_phone();
    assert_eq!(counts.contacts, 1);
    assert_eq!(counts.emails, 2);
    assert_eq!(counts.phones, 1);
}

#[test]
fn error_messages_name_their_kind() {
    assert_eq!(AppError::DatabaseNotFound.message(), "iMessage database not found");
    assert_eq!(
        AppError::DatabaseQueryError("no such table".to_string()).message(),
        "Database query error: no such table"
    );
    assert_eq!(
        AppError::PermissionError("denied".to_string()).message(),
        "Permission error: denied"
    );
}
