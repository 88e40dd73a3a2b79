//! The result mapper: rows the store hands back, converted to the
//! records a caller consumes.
//!
//! A row arrives as plain optional column values; absent text gets a
//! fixed placeholder, the store timestamp becomes a Unix second, and
//! the sender is shown only for messages the archive's owner did not
//! send.  A row that fails to decode is the caller's to skip — the
//! mappers here are total.

use vstd::prelude::*;
use crate::dates::spec_store_ns_to_unix;
use crate::dates::store_ns_to_unix;

verus! {

/// One message row as the store returns it, column by column; `None`
/// where the column was null or failed to decode.
#[derive(Debug, Clone, PartialEq, Eq)]
pub struct MessageRow {
    pub message_id: i64,
    pub text: Option<String>,
    pub date_ns: Option<i64>,
    pub is_from_me: Option<i64>,
    pub chat_id: Option<i64>,
    pub sender_id: Option<String>,
    pub attachment_path: Option<String>,
    pub conversation_name: Option<String>,
}

/// One message, as a caller sees it.
#[derive(Debug, Clone, PartialEq, Eq)]
pub struct Message {
    pub id: i64,
    pub text: String,
    /// Unix seconds.
    pub date: i64,
    pub is_from_me: bool,
    pub chat_id: Option<i64>,
    pub sender_name: Option<String>,
    pub attachment_path: Option<String>,
    pub conversation_name: Option<String>,
}

/// An ordered list of matching messages.
#[derive(Debug, Clone, PartialEq, Eq)]
pub struct SearchResult {
    pub messages: Vec<Message>,
}

/// One conversation row as the store returns it.
#[derive(Debug, Clone, PartialEq, Eq)]
pub struct ConversationRow {
    pub chat_id: i64,
    pub display_name: Option<String>,
    pub handle_id: Option<String>,
    pub last_message: Option<String>,
    pub last_message_date_ns: Option<i64>,
}

/// One conversation, as a caller sees it.
#[derive(Debug, Clone, PartialEq, Eq)]
pub struct Conversation {
    pub id: i64,
    pub name: Option<String>,
    pub last_message: Option<String>,
    /// Unix seconds; zero where the store had no usable date.
    pub last_message_date: i64,
}

/// What the message mapper guarantees, row by row: placeholder text
/// where the store had none, store time to Unix seconds (zero where
/// absent), the from-me flag read as the store writes it, and the
/// sender shown only on messages someone else sent.
pub open spec fn spec_mapped_message(row: MessageRow, r: Message) -> bool {
    &&& r.id == row.message_id
    &&& match row.text {
        Some(t) => r.text == t,
        None => r.text@ == "[Attachment or empty message]"@,
    }
    &&& match row.date_ns {
        Some(ns) => r.date == spec_store_ns_to_unix(ns as int),
        None => r.date == 0,
    }
    &&& r.is_from_me == (row.is_from_me == Some(1i64))
    &&& r.chat_id == row.chat_id
    &&& r.sender_name == (if row.is_from_me != Some(1i64) {
        row.sender_id
    } else {
        None
    })
    &&& r.attachment_path == row.attachment_path
    &&& r.conversation_name == row.conversation_name
}

/// Converts one message row.
pub fn map_message_row(row: MessageRow) -> (r: Message)
    ensures
        spec_mapped_message(row, r),
{
    let is_from_me = match &row.is_from_me {
        Some(v) => *v == 1,
        None => false,
    };
    let text = match row.text {
        Some(t) => t,
        None => String::from_str("[Attachment or empty message]"),
    };
    let date = match row.date_ns {
        Some(ns) => store_ns_to_unix(ns),
        None => 0,
    };
    let sender_name = if !is_from_me {
        row.sender_id
    } else {
        None
    };
    Message {
        id: row.message_id,
        text,
        date,
        is_from_me,
        chat_id: row.chat_id,
        sender_name,
        attachment_path: row.attachment_path,
        conversation_name: row.conversation_name,
    }
}

/// Converts one conversation row: the display name where one is set,
/// else the handle; a positive store date becomes Unix seconds,
/// anything else is zero.
pub fn map_conversation_row(row: ConversationRow) -> (r: Conversation)
    ensures
        r.id == row.chat_id,
        r.name == (match (row.display_name, row.handle_id) {
            (Some(d), _) => Some(d),
            (None, Some(h)) => Some(h),
            (None, None) => None::<String>,
        }),
        r.last_message == row.last_message,
        r.last_message_date == (match row.last_message_date_ns {
            Some(ns) => if ns > 0 {
                spec_store_ns_to_unix(ns as int)
            } else {
                0
            },
            None => 0,
        }),
{
    let name = match (row.display_name, row.handle_id) {
        (Some(d), _) => Some(d),
        (None, Some(h)) => Some(h),
        (None, None) => None,
    };
    let last_message_date = match row.last_message_date_ns {
        Some(ns) => {
            if ns > 0 {
                store_ns_to_unix(ns)
            } else {
                0
            }
        },
        None => 0,
    };
    Conversation { id: row.chat_id, name, last_message: row.last_message, last_message_date }
}

/// Converts the rows a search returned, in order.
pub fn map_search_rows(rows: Vec<MessageRow>) -> (r: SearchResult)
    ensures
        r.messages@.len() == rows@.len(),
        forall|i: int|
            0 <= i < rows@.len() ==> #[trigger] spec_mapped_message(rows@[i], r.messages@[i]),
{
    let ghost all = rows@;
    let mut messages: Vec<Message> = Vec::new();
    let mut rest = rows;
    while rest.len() > 0
        invariant
            messages@.len() + rest@.len() == all.len(),
            rest@ == all.skip(messages@.len() as int),
            forall|j: int|
                0 <= j < messages@.len() ==> #[trigger] spec_mapped_message(
                    all[j],
                    messages@[j],
                ),
        decreases rest@.len(),
    {
        let ghost i = messages@.len() as int;
        let row = rest.remove(0);
        proof {
            assert(row == all[i]);
            assert(rest@ =~= all.skip(i + 1));
        }
        messages.push(map_message_row(row));
    }
    SearchResult { messages }
}

} // verus!
