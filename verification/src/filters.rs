//! Normalized search filters, and their derivation from raw query
//! text plus the structured filter fields a caller supplies.
//!
//! Every directive value is converted once into a canonical,
//! comparison-ready form: dates become store timestamps, sender
//! values become classified matchers, and the conversation id must
//! read as a non-negative integer — anything else closes the filter
//! (no results) rather than widening it to an unfiltered query.

use vstd::prelude::*;
use crate::dates::spec_is_digit;
use crate::dates::spec_digit;
use crate::dates::spec_date_store_ns;
use crate::dates::date_start_store_ns;
use crate::dates::date_end_store_ns;
use crate::extract::spec_parse_query;
use crate::extract::extract;
use crate::senders::SenderMatcher;
use crate::senders::SenderMatcherView;
use crate::senders::matcher_views;
use crate::senders::spec_classify;
use crate::senders::spec_digits_of;
use crate::senders::classify_sender;
use crate::senders::digits_of;
use crate::tokens::tokenize;

verus! {

/// Which conversations the search is scoped to.
#[derive(Debug, Clone, Copy, PartialEq, Eq, Structural)]
pub enum ConversationKind {
    Any,
    Direct,
    Group,
}

/// The order of returned messages, by timestamp.
#[derive(Debug, Clone, Copy, PartialEq, Eq, Structural)]
pub enum SortOrder {
    Ascending,
    Descending,
}

/// The conversation-id filter.  A value that does not read as a
/// non-negative integer rejects every row — fail-closed — rather than
/// silently dropping the filter.
#[derive(Debug, Clone, Copy, PartialEq, Eq, Structural)]
pub enum ConversationFilter {
    Unfiltered,
    Only(i64),
    Rejected,
}

/// The mathematical shape of a [`ConversationFilter`].
#[verifier::ext_equal]
pub enum ConversationFilterView {
    Unfiltered,
    Only(int),
    Rejected,
}

impl View for ConversationFilter {
    type V = ConversationFilterView;

    open spec fn view(&self) -> ConversationFilterView {
        match self {
            ConversationFilter::Unfiltered => ConversationFilterView::Unfiltered,
            ConversationFilter::Only(id) => ConversationFilterView::Only(*id as int),
            ConversationFilter::Rejected => ConversationFilterView::Rejected,
        }
    }
}

pub open spec fn spec_all_digits(v: Seq<u8>) -> bool {
    v.len() > 0 && forall|i: int| 0 <= i < v.len() ==> spec_is_digit(v[i])
}

/// The number a digit string denotes, most significant digit first.
pub open spec fn spec_decimal_value(v: Seq<u8>) -> int
    decreases v.len(),
{
    if v.len() == 0 {
        0
    } else {
        spec_decimal_value(v.drop_last()) * 10 + spec_digit(v.last())
    }
}

/// The conversation id a byte string denotes: all digits and within
/// `i64`, or nothing.
pub open spec fn spec_parse_conv_id(v: Seq<u8>) -> Option<int> {
    if spec_all_digits(v) && spec_decimal_value(v) <= i64::MAX {
        Some(spec_decimal_value(v))
    } else {
        None
    }
}

proof fn lemma_decimal_value_nonneg(v: Seq<u8>)
    requires
        forall|i: int| 0 <= i < v.len() ==> spec_is_digit(v[i]),
    ensures
        spec_decimal_value(v) >= 0,
    decreases v.len(),
{
    if v.len() > 0 {
        lemma_decimal_value_nonneg(v.drop_last());
    }
}

proof fn lemma_decimal_value_grows(v: Seq<u8>, j: int)
    requires
        forall|i: int| 0 <= i < v.len() ==> spec_is_digit(v[i]),
        0 <= j <= v.len(),
    ensures
        spec_decimal_value(v) >= spec_decimal_value(v.subrange(0, j)),
    decreases v.len() - j,
{
    if j < v.len() {
        lemma_decimal_value_grows(v, j + 1);
        let pre = v.subrange(0, j);
        let post = v.subrange(0, j + 1);
        assert(post.drop_last() =~= pre);
        lemma_decimal_value_nonneg(pre);
        assert(spec_decimal_value(post) == spec_decimal_value(pre) * 10 + spec_digit(post.last()));
    } else {
        assert(v.subrange(0, v.len() as int) =~= v);
    }
}

/// Reads a conversation id: nothing unless the whole value is digits
/// denoting an integer the store's row ids can hold.
pub fn parse_conversation_id(v: &[u8]) -> (r: Option<i64>)
    ensures
        match r {
            Some(id) => spec_parse_conv_id(v@) == Some(id as int),
            None => spec_parse_conv_id(v@) is None,
        },
{
    if v.len() == 0 {
        return None;
    }
    let mut acc: i64 = 0;
    let mut i: usize = 0;
    proof {
        assert(v@.subrange(0, 0) =~= Seq::<u8>::empty());
    }
    while i < v.len()
        invariant
            i <= v@.len(),
            forall|j: int| 0 <= j < i ==> spec_is_digit(v@[j]),
            acc == spec_decimal_value(v@.subrange(0, i as int)),
            acc >= 0,
        decreases v@.len() - i,
    {
        let ghost pre = v@.subrange(0, i as int);
        let ghost post = v@.subrange(0, i as int + 1);
        proof {
            assert(post.drop_last() =~= pre);
            assert(post.last() == v@[i as int]);
        }
        let b = v[i];
        if !(48 <= b && b <= 57) {
            return None;
        }
        let d: i64 = (b - 48) as i64;
        if acc > (9223372036854775807 - d) / 10 {
            proof {
                vstd::arithmetic::div_mod::lemma_fundamental_div_mod(9223372036854775807 - d, 10);
                vstd::arithmetic::div_mod::lemma_mod_bound(9223372036854775807 - d, 10);
                assert(spec_decimal_value(post) > i64::MAX);
                if spec_all_digits(v@) {
                    lemma_decimal_value_grows(v@, i as int + 1);
                }
            }
            return None;
        }
        acc = acc * 10 + d;
        i = i + 1;
    }
    proof {
        assert(v@.subrange(0, v@.len() as int) =~= v@);
    }
    Some(acc)
}

/// One contact a caller wants messages from: an optional raw
/// identifier plus the contact's known phone numbers and addresses.
#[derive(Debug, Clone, PartialEq, Eq)]
pub struct ContactIdentifier {
    pub contact_id: Option<Vec<u8>>,
    pub phones: Vec<Vec<u8>>,
    pub emails: Vec<Vec<u8>>,
}

/// The mathematical shape of a [`ContactIdentifier`].
#[verifier::ext_equal]
pub struct ContactIdentifierView {
    pub contact_id: Option<Seq<u8>>,
    pub phones: Seq<Seq<u8>>,
    pub emails: Seq<Seq<u8>>,
}

impl View for ContactIdentifier {
    type V = ContactIdentifierView;

    open spec fn view(&self) -> ContactIdentifierView {
        ContactIdentifierView {
            contact_id: crate::extract::opt_bytes_view(self.contact_id),
            phones: self.phones@.map_values(|v: Vec<u8>| v@),
            emails: self.emails@.map_values(|v: Vec<u8>| v@),
        }
    }
}

/// The structured search input: free-form query text beside
/// structured filter fields.
#[derive(Debug, Clone, PartialEq, Eq)]
pub struct SearchRequest {
    /// Free-form text; may carry directives, quoting and groups.
    pub query: Vec<u8>,
    /// Lower date bound, `YYYY-MM-DD`.
    pub start_date: Option<Vec<u8>>,
    /// Upper date bound, `YYYY-MM-DD`.
    pub end_date: Option<Vec<u8>>,
    /// Contacts whose messages are wanted; they combine by *or*.
    pub contact_identifiers: Vec<ContactIdentifier>,
    /// Scope to one conversation, as its decimal row id.
    pub conversation_id: Option<Vec<u8>>,
    pub show_only_my_messages: bool,
    pub show_only_attachments: bool,
    /// `asc` for oldest first; anything else sorts newest first.
    pub sort_direction: Vec<u8>,
    /// `direct` or `group`; anything else means any conversation.
    pub conversation_type: Vec<u8>,
}

/// The mathematical shape of a [`SearchRequest`].
#[verifier::ext_equal]
pub struct SearchRequestView {
    pub query: Seq<u8>,
    pub start_date: Option<Seq<u8>>,
    pub end_date: Option<Seq<u8>>,
    pub contact_identifiers: Seq<ContactIdentifierView>,
    pub conversation_id: Option<Seq<u8>>,
    pub show_only_my_messages: bool,
    pub show_only_attachments: bool,
    pub sort_direction: Seq<u8>,
    pub conversation_type: Seq<u8>,
}

impl View for SearchRequest {
    type V = SearchRequestView;

    open spec fn view(&self) -> SearchRequestView {
        SearchRequestView {
            query: self.query@,
            start_date: crate::extract::opt_bytes_view(self.start_date),
            end_date: crate::extract::opt_bytes_view(self.end_date),
            contact_identifiers: self.contact_identifiers@.map_values(
                |c: ContactIdentifier| c@,
            ),
            conversation_id: crate::extract::opt_bytes_view(self.conversation_id),
            show_only_my_messages: self.show_only_my_messages,
            show_only_attachments: self.show_only_attachments,
            sort_direction: self.sort_direction@,
            conversation_type: self.conversation_type@,
        }
    }
}

/// The normalized filters a search runs with.
#[derive(Debug, Clone, PartialEq, Eq)]
pub struct SearchFilters {
    /// The free text wrapped as a contains pattern, or nothing when
    /// the query carried no free text.
    pub text_pattern: Option<Vec<u8>>,
    /// Messages strictly after this store timestamp.
    pub after_ns: Option<i64>,
    /// Messages strictly before this store timestamp.
    pub before_ns: Option<i64>,
    /// Sender matchers; they combine by *or*.
    pub senders: Vec<SenderMatcher>,
    pub conversation: ConversationFilter,
    pub only_from_me: bool,
    pub only_with_attachment: bool,
    pub kind: ConversationKind,
    pub sort: SortOrder,
}

/// The mathematical shape of [`SearchFilters`].
#[verifier::ext_equal]
pub struct FiltersView {
    pub text_pattern: Option<Seq<u8>>,
    pub after_ns: Option<int>,
    pub before_ns: Option<int>,
    pub senders: Seq<SenderMatcherView>,
    pub conversation: ConversationFilterView,
    pub only_from_me: bool,
    pub only_with_attachment: bool,
    pub kind: ConversationKind,
    pub sort: SortOrder,
}

pub open spec fn opt_ns_view(v: Option<i64>) -> Option<int> {
    match v {
        Some(x) => Some(x as int),
        None => None,
    }
}

impl View for SearchFilters {
    type V = FiltersView;

    open spec fn view(&self) -> FiltersView {
        FiltersView {
            text_pattern: crate::extract::opt_bytes_view(self.text_pattern),
            after_ns: opt_ns_view(self.after_ns),
            before_ns: opt_ns_view(self.before_ns),
            senders: matcher_views(self.senders@),
            conversation: self.conversation@,
            only_from_me: self.only_from_me,
            only_with_attachment: self.only_with_attachment,
            kind: self.kind,
            sort: self.sort,
        }
    }
}

/// Empty free text means no text filter; anything else is wrapped as
/// a contains pattern, `%` on both sides.
pub open spec fn spec_text_pattern(free: Seq<u8>) -> Option<Seq<u8>> {
    if free.len() == 0 {
        None
    } else {
        Some(seq![37u8] + free + seq![37u8])
    }
}

/// A date bound: the directive value where it reads as a date, else
/// the structured field where that reads as a date, else nothing —
/// a malformed value is dropped, never an error.
pub open spec fn spec_date_bound(
    directive: Option<Seq<u8>>,
    field: Option<Seq<u8>>,
    second_of_day: int,
) -> Option<int> {
    let from_field = match field {
        Some(d) => spec_date_store_ns(d, second_of_day),
        None => None,
    };
    match directive {
        Some(v) => match spec_date_store_ns(v, second_of_day) {
            Some(ns) => Some(ns),
            None => from_field,
        },
        None => from_field,
    }
}

/// The conversation filter: the directive value where one appeared
/// (even malformed — it then rejects everything), else the structured
/// field, else unfiltered.
pub open spec fn spec_conversation_filter(v: Option<Seq<u8>>) -> ConversationFilterView {
    match v {
        None => ConversationFilterView::Unfiltered,
        Some(s) => match spec_parse_conv_id(s) {
            Some(id) => ConversationFilterView::Only(id),
            None => ConversationFilterView::Rejected,
        },
    }
}

/// `asc` sorts oldest first; everything else newest first.
pub open spec fn spec_sort_of(v: Seq<u8>) -> SortOrder {
    if v == seq![97u8, 115u8, 99u8] {
        SortOrder::Ascending
    } else {
        SortOrder::Descending
    }
}

/// `direct` and `group` scope the conversation kind; everything else
/// leaves it open.
pub open spec fn spec_kind_of(v: Seq<u8>) -> ConversationKind {
    if v == seq![100u8, 105u8, 114u8, 101u8, 99u8, 116u8] {
        ConversationKind::Direct
    } else if v == seq![103u8, 114u8, 111u8, 117u8, 112u8] {
        ConversationKind::Group
    } else {
        ConversationKind::Any
    }
}

/// Matchers from a contact's phone list: digits only, empty ones
/// skipped.
pub open spec fn spec_phone_matchers(ps: Seq<Seq<u8>>) -> Seq<SenderMatcherView>
    decreases ps.len(),
{
    if ps.len() == 0 {
        Seq::empty()
    } else {
        spec_phone_matchers(ps.drop_last()) + (if spec_digits_of(ps.last()).len() > 0 {
            seq![SenderMatcherView::PhoneDigits(spec_digits_of(ps.last()))]
        } else {
            Seq::empty()
        })
    }
}

/// Matchers from a contact's address list.
pub open spec fn spec_email_matchers(es: Seq<Seq<u8>>) -> Seq<SenderMatcherView> {
    es.map_values(|e: Seq<u8>| SenderMatcherView::Email(e))
}

/// All matchers one contact contributes: its raw identifier
/// (classified like a directive value), then its phones, then its
/// addresses.
pub open spec fn spec_identifier_matchers(c: ContactIdentifierView) -> Seq<SenderMatcherView> {
    (match c.contact_id {
        Some(id) => seq![spec_classify(id)],
        None => Seq::empty(),
    }) + spec_phone_matchers(c.phones) + spec_email_matchers(c.emails)
}

/// Matchers from all structured contacts, in order.
pub open spec fn spec_structured_matchers(cs: Seq<ContactIdentifierView>) -> Seq<SenderMatcherView>
    decreases cs.len(),
{
    if cs.len() == 0 {
        Seq::empty()
    } else {
        spec_structured_matchers(cs.drop_last()) + spec_identifier_matchers(cs.last())
    }
}

/// Matchers from the query's `FROM:` directives, classified in order.
pub open spec fn spec_from_matchers(vs: Seq<Seq<u8>>) -> Seq<SenderMatcherView> {
    vs.map_values(|v: Seq<u8>| spec_classify(v))
}

/// The normalized filters of a structured request: the query text is
/// tokenized and its directives extracted, directive values override
/// the corresponding structured fields, and sender matchers from the
/// structured contacts and from `FROM:` directives accumulate.
pub open spec fn spec_normalize(rv: SearchRequestView) -> FiltersView {
    let ex = spec_parse_query(rv.query);
    FiltersView {
        text_pattern: spec_text_pattern(ex.free_text),
        after_ns: spec_date_bound(ex.after_value, rv.start_date, 0),
        before_ns: spec_date_bound(ex.before_value, rv.end_date, 86399),
        senders: spec_structured_matchers(rv.contact_identifiers) + spec_from_matchers(
            ex.from_values,
        ),
        conversation: spec_conversation_filter(
            match ex.conversation_value {
                Some(v) => Some(v),
                None => rv.conversation_id,
            },
        ),
        only_from_me: rv.show_only_my_messages,
        only_with_attachment: rv.show_only_attachments,
        kind: spec_kind_of(rv.conversation_type),
        sort: spec_sort_of(rv.sort_direction),
    }
}

/// One value the normalizer dropped or rejected.  Malformed values
/// never raise an error — a bad date is treated as absent and a bad
/// conversation id closes the query — but they are reported here
/// beside the primary result rather than only vanishing.
#[derive(Debug, Clone, PartialEq, Eq)]
pub enum Diagnostic {
    /// A lower-bound date that did not read as a representable
    /// `YYYY-MM-DD` date.
    BadAfterDate(Vec<u8>),
    /// An upper-bound date that did not read as a representable
    /// `YYYY-MM-DD` date.
    BadBeforeDate(Vec<u8>),
    /// A conversation id that did not read as a non-negative integer;
    /// the composed query is closed, never widened.
    BadConversationId(Vec<u8>),
}

/// The mathematical shape of a [`Diagnostic`].
#[verifier::ext_equal]
pub enum DiagnosticView {
    BadAfterDate(Seq<u8>),
    BadBeforeDate(Seq<u8>),
    BadConversationId(Seq<u8>),
}

impl View for Diagnostic {
    type V = DiagnosticView;

    open spec fn view(&self) -> DiagnosticView {
        match self {
            Diagnostic::BadAfterDate(v) => DiagnosticView::BadAfterDate(v@),
            Diagnostic::BadBeforeDate(v) => DiagnosticView::BadBeforeDate(v@),
            Diagnostic::BadConversationId(v) => DiagnosticView::BadConversationId(v@),
        }
    }
}

pub open spec fn diag_views(ds: Seq<Diagnostic>) -> Seq<DiagnosticView> {
    ds.map_values(|d: Diagnostic| d@)
}

/// The unreadable values among a date bound's sources: the directive
/// where one appeared, and the structured field wherever it was
/// consulted — a valid directive leaves the field unread.
pub open spec fn spec_bad_date_diag(v: Seq<u8>, before: bool) -> DiagnosticView {
    if before {
        DiagnosticView::BadBeforeDate(v)
    } else {
        DiagnosticView::BadAfterDate(v)
    }
}

pub open spec fn spec_field_date_diags(
    field: Option<Seq<u8>>,
    second_of_day: int,
    before: bool,
) -> Seq<DiagnosticView> {
    match field {
        Some(d) => if spec_date_store_ns(d, second_of_day) is None {
            seq![spec_bad_date_diag(d, before)]
        } else {
            Seq::empty()
        },
        None => Seq::empty(),
    }
}

pub open spec fn spec_date_bound_diags(
    directive: Option<Seq<u8>>,
    field: Option<Seq<u8>>,
    second_of_day: int,
    before: bool,
) -> Seq<DiagnosticView> {
    match directive {
        Some(v) => if spec_date_store_ns(v, second_of_day) is None {
            seq![spec_bad_date_diag(v, before)] + spec_field_date_diags(
                field,
                second_of_day,
                before,
            )
        } else {
            Seq::empty()
        },
        None => spec_field_date_diags(field, second_of_day, before),
    }
}

/// The unreadable conversation id, where the consulted value (the
/// directive, else the field) has one.
pub open spec fn spec_conversation_diags(v: Option<Seq<u8>>) -> Seq<DiagnosticView> {
    match v {
        Some(s) => if spec_parse_conv_id(s) is None {
            seq![DiagnosticView::BadConversationId(s)]
        } else {
            Seq::empty()
        },
        None => Seq::empty(),
    }
}

/// Everything the normalizer drops or rejects on this request, in a
/// fixed order: the after bound's values, the before bound's, then
/// the conversation id.
pub open spec fn spec_diagnostics(rv: SearchRequestView) -> Seq<DiagnosticView> {
    let ex = spec_parse_query(rv.query);
    spec_date_bound_diags(ex.after_value, rv.start_date, 0, false) + spec_date_bound_diags(
        ex.before_value,
        rv.end_date,
        86399,
        true,
    ) + spec_conversation_diags(
        match ex.conversation_value {
            Some(v) => Some(v),
            None => rv.conversation_id,
        },
    )
}

fn date_bound(directive: &Option<Vec<u8>>, field: &Option<Vec<u8>>, end_of_day: bool) -> (r: Option<
    i64,
>)
    ensures
        opt_ns_view(r) == spec_date_bound(
            crate::extract::opt_bytes_view(*directive),
            crate::extract::opt_bytes_view(*field),
            if end_of_day {
                86399int
            } else {
                0int
            },
        ),
{
    let from_field: Option<i64> = match field {
        Some(d) => {
            if end_of_day {
                date_end_store_ns(d.as_slice())
            } else {
                date_start_store_ns(d.as_slice())
            }
        },
        None => None,
    };
    match directive {
        Some(v) => {
            let direct = if end_of_day {
                date_end_store_ns(v.as_slice())
            } else {
                date_start_store_ns(v.as_slice())
            };
            match direct {
                Some(ns) => Some(ns),
                None => from_field,
            }
        },
        None => from_field,
    }
}

fn sort_of(v: &Vec<u8>) -> (r: SortOrder)
    ensures
        r == spec_sort_of(v@),
{
    proof {
        if v@ == seq![97u8, 115u8, 99u8] {
            assert(v@.len() == 3);
            assert(v@[0] == 97 && v@[1] == 115 && v@[2] == 99);
        }
    }
    if v.len() == 3 && v[0] == 97 && v[1] == 115 && v[2] == 99 {
        proof {
            assert(v@ =~= seq![97u8, 115u8, 99u8]);
        }
        SortOrder::Ascending
    } else {
        SortOrder::Descending
    }
}

fn kind_of(v: &Vec<u8>) -> (r: ConversationKind)
    ensures
        r == spec_kind_of(v@),
{
    proof {
        if v@ == seq![100u8, 105u8, 114u8, 101u8, 99u8, 116u8] {
            assert(v@.len() == 6);
            assert(v@[0] == 100 && v@[1] == 105 && v@[2] == 114 && v@[3] == 101 && v@[4] == 99
                && v@[5] == 116);
        }
        if v@ == seq![103u8, 114u8, 111u8, 117u8, 112u8] {
            assert(v@.len() == 5);
            assert(v@[0] == 103 && v@[1] == 114 && v@[2] == 111 && v@[3] == 117 && v@[4] == 112);
        }
    }
    if v.len() == 6 && v[0] == 100 && v[1] == 105 && v[2] == 114 && v[3] == 101 && v[4] == 99
        && v[5] == 116 {
        proof {
            assert(v@ =~= seq![100u8, 105u8, 114u8, 101u8, 99u8, 116u8]);
        }
        ConversationKind::Direct
    } else if v.len() == 5 && v[0] == 103 && v[1] == 114 && v[2] == 111 && v[3] == 117 && v[4]
        == 112 {
        proof {
            assert(v@ =~= seq![103u8, 114u8, 111u8, 117u8, 112u8]);
        }
        ConversationKind::Group
    } else {
        ConversationKind::Any
    }
}

fn push_identifier_matchers(acc: &mut Vec<SenderMatcher>, c: &ContactIdentifier)
    ensures
        matcher_views(final(acc)@) == matcher_views(old(acc)@) + spec_identifier_matchers(c@),
{
    let ghost base = matcher_views(old(acc)@);
    let ghost cid_part: Seq<SenderMatcherView> = match c@.contact_id {
        Some(id) => seq![spec_classify(id)],
        None => Seq::empty(),
    };
    match &c.contact_id {
        Some(id) => {
            let m = classify_sender(vstd::slice::slice_to_vec(id.as_slice()));
            acc.push(m);
            proof {
                assert(matcher_views(acc@) =~= base + cid_part);
            }
        },
        None => {
            proof {
                assert(matcher_views(acc@) =~= base + cid_part);
            }
        },
    }
    let mut i: usize = 0;
    proof {
        assert(c@.phones.subrange(0, 0) =~= Seq::<Seq<u8>>::empty());
        assert(matcher_views(acc@) =~= base + cid_part + spec_phone_matchers(
            c@.phones.subrange(0, 0),
        ));
    }
    while i < c.phones.len()
        invariant
            i <= c.phones@.len(),
            c@.phones.len() == c.phones@.len(),
            matcher_views(acc@) == base + cid_part + spec_phone_matchers(
                c@.phones.subrange(0, i as int),
            ),
        decreases c.phones@.len() - i,
    {
        let ghost pre = c@.phones.subrange(0, i as int);
        let ghost post = c@.phones.subrange(0, i as int + 1);
        proof {
            assert(post.drop_last() =~= pre);
            assert(post.last() == c@.phones[i as int]);
            assert(c@.phones[i as int] == c.phones@[i as int]@);
        }
        let d = digits_of(c.phones[i].as_slice());
        if d.len() > 0 {
            let ghost prev_acc = acc@;
            let md = SenderMatcher::PhoneDigits(d);
            let ghost mdv = md@;
            acc.push(md);
            proof {
                assert(acc@ == prev_acc.push(SenderMatcher::PhoneDigits(d)));
                assert(matcher_views(acc@) =~~= matcher_views(prev_acc).push(mdv));
                assert(mdv == SenderMatcherView::PhoneDigits(spec_digits_of(post.last())));
                assert(spec_phone_matchers(post) =~~= spec_phone_matchers(pre).push(mdv));
                assert(matcher_views(acc@) =~~= base + cid_part + spec_phone_matchers(post));
            }
        } else {
            proof {
                assert(matcher_views(acc@) =~~= base + cid_part + spec_phone_matchers(post));
            }
        }
        i = i + 1;
    }
    proof {
        assert(c@.phones.subrange(0, c@.phones.len() as int) =~= c@.phones);
    }
    let ghost phones_part = spec_phone_matchers(c@.phones);
    let mut j: usize = 0;
    proof {
        assert(c@.emails.subrange(0, 0) =~= Seq::<Seq<u8>>::empty());
        assert(spec_email_matchers(c@.emails.subrange(0, 0)) =~= Seq::<SenderMatcherView>::empty());
        assert(matcher_views(acc@) =~= base + cid_part + phones_part + spec_email_matchers(
            c@.emails.subrange(0, 0),
        ));
    }
    while j < c.emails.len()
        invariant
            j <= c.emails@.len(),
            c@.emails.len() == c.emails@.len(),
            matcher_views(acc@) == base + cid_part + phones_part + spec_email_matchers(
                c@.emails.subrange(0, j as int),
            ),
        decreases c.emails@.len() - j,
    {
        let ghost pre = c@.emails.subrange(0, j as int);
        let ghost post = c@.emails.subrange(0, j as int + 1);
        proof {
            assert(c@.emails[j as int] == c.emails@[j as int]@);
        }
        let ghost prev_acc = acc@;
        let em = SenderMatcher::Email(vstd::slice::slice_to_vec(c.emails[j].as_slice()));
        let ghost emv = em@;
        acc.push(em);
        proof {
            assert(matcher_views(acc@) =~~= matcher_views(prev_acc).push(emv));
            assert(emv == SenderMatcherView::Email(c@.emails[j as int]));
            assert(spec_email_matchers(post) =~~= spec_email_matchers(pre).push(
                SenderMatcherView::Email(c@.emails[j as int]),
            ));
            assert(matcher_views(acc@) =~~= base + cid_part + phones_part + spec_email_matchers(
                post,
            ));
        }
        j = j + 1;
    }
    proof {
        assert(c@.emails.subrange(0, c@.emails.len() as int) =~= c@.emails);
        assert(base + cid_part + phones_part + spec_email_matchers(c@.emails) =~= base
            + spec_identifier_matchers(c@));
    }
}

/// Normalizes a structured request into comparison-ready filters:
/// the one derivation every search goes through.
pub fn normalize_request(req: &SearchRequest) -> (r: SearchFilters)
    ensures
        r@ == spec_normalize(req@),
{
    let toks = tokenize(req.query.as_slice());
    let ex = extract(&toks);
    let text_pattern: Option<Vec<u8>> = if ex.free_text.len() == 0 {
        None
    } else {
        let mut p: Vec<u8> = Vec::new();
        p.push(37);
        p.extend_from_slice(ex.free_text.as_slice());
        p.push(37);
        proof {
            assert(p@ =~= seq![37u8] + ex.free_text@ + seq![37u8]);
        }
        Some(p)
    };
    let after_ns = date_bound(&ex.after_value, &req.start_date, false);
    let before_ns = date_bound(&ex.before_value, &req.end_date, true);
    let conv_raw: Option<&Vec<u8>> = match &ex.conversation_value {
        Some(v) => Some(v),
        None => match &req.conversation_id {
            Some(v) => Some(v),
            None => None,
        },
    };
    let conversation = match conv_raw {
        None => ConversationFilter::Unfiltered,
        Some(v) => match parse_conversation_id(v.as_slice()) {
            Some(id) => ConversationFilter::Only(id),
            None => ConversationFilter::Rejected,
        },
    };
    let mut senders: Vec<SenderMatcher> = Vec::new();
    let mut i: usize = 0;
    proof {
        assert(req@.contact_identifiers.subrange(0, 0) =~= Seq::<ContactIdentifierView>::empty());
        assert(matcher_views(senders@) =~= spec_structured_matchers(
            req@.contact_identifiers.subrange(0, 0),
        ));
    }
    while i < req.contact_identifiers.len()
        invariant
            i <= req.contact_identifiers@.len(),
            req@.contact_identifiers.len() == req.contact_identifiers@.len(),
            matcher_views(senders@) == spec_structured_matchers(
                req@.contact_identifiers.subrange(0, i as int),
            ),
        decreases req.contact_identifiers@.len() - i,
    {
        let ghost pre = req@.contact_identifiers.subrange(0, i as int);
        let ghost post = req@.contact_identifiers.subrange(0, i as int + 1);
        proof {
            assert(post.drop_last() =~= pre);
            assert(post.last() == req@.contact_identifiers[i as int]);
            assert(req@.contact_identifiers[i as int] == req.contact_identifiers@[i as int]@);
        }
        push_identifier_matchers(&mut senders, &req.contact_identifiers[i]);
        i = i + 1;
    }
    proof {
        assert(req@.contact_identifiers.subrange(0, req@.contact_identifiers.len() as int)
            =~= req@.contact_identifiers);
    }
    let ghost structured = spec_structured_matchers(req@.contact_identifiers);
    let mut j: usize = 0;
    proof {
        assert(ex@.from_values.subrange(0, 0) =~= Seq::<Seq<u8>>::empty());
        assert(spec_from_matchers(ex@.from_values.subrange(0, 0)) =~= Seq::<
            SenderMatcherView,
        >::empty());
        assert(matcher_views(senders@) =~= structured + spec_from_matchers(
            ex@.from_values.subrange(0, 0),
        ));
    }
    while j < ex.from_values.len()
        invariant
            j <= ex.from_values@.len(),
            ex@.from_values.len() == ex.from_values@.len(),
            matcher_views(senders@) == structured + spec_from_matchers(
                ex@.from_values.subrange(0, j as int),
            ),
        decreases ex.from_values@.len() - j,
    {
        let ghost pre = ex@.from_values.subrange(0, j as int);
        let ghost post = ex@.from_values.subrange(0, j as int + 1);
        proof {
            assert(ex@.from_values[j as int] == ex.from_values@[j as int]@);
        }
        let ghost prev_acc = senders@;
        let m = classify_sender(vstd::slice::slice_to_vec(ex.from_values[j].as_slice()));
        let ghost mv = m@;
        senders.push(m);
        proof {
            assert(matcher_views(senders@) =~~= matcher_views(prev_acc).push(mv));
            assert(mv == spec_classify(ex@.from_values[j as int]));
            assert(spec_from_matchers(post) =~~= spec_from_matchers(pre).push(
                spec_classify(ex@.from_values[j as int]),
            ));
            assert(matcher_views(senders@) =~~= structured + spec_from_matchers(post));
        }
        j = j + 1;
    }
    proof {
        assert(ex@.from_values.subrange(0, ex@.from_values.len() as int) =~= ex@.from_values);
    }
    let sort = sort_of(&req.sort_direction);
    let kind = kind_of(&req.conversation_type);
    let r = SearchFilters {
        text_pattern,
        after_ns,
        before_ns,
        senders,
        conversation,
        only_from_me: req.show_only_my_messages,
        only_with_attachment: req.show_only_attachments,
        kind,
        sort,
    };
    proof {
        assert(r@ =~= spec_normalize(req@));
    }
    r
}

fn push_field_date_diag(out: &mut Vec<Diagnostic>, field: &Option<Vec<u8>>, end_of_day: bool)
    ensures
        diag_views(final(out)@) == diag_views(old(out)@) + spec_field_date_diags(
            crate::extract::opt_bytes_view(*field),
            if end_of_day {
                86399int
            } else {
                0int
            },
            end_of_day,
        ),
{
    let ghost base = diag_views(out@);
    let ghost part = spec_field_date_diags(
        crate::extract::opt_bytes_view(*field),
        if end_of_day {
            86399int
        } else {
            0int
        },
        end_of_day,
    );
    match field {
        Some(d) => {
            let parsed = if end_of_day {
                date_end_store_ns(d.as_slice())
            } else {
                date_start_store_ns(d.as_slice())
            };
            match parsed {
                Some(_) => {
                    proof {
                        assert(diag_views(out@) =~~= base + part);
                    }
                },
                None => {
                    let v = vstd::slice::slice_to_vec(d.as_slice());
                    if end_of_day {
                        out.push(Diagnostic::BadBeforeDate(v));
                    } else {
                        out.push(Diagnostic::BadAfterDate(v));
                    }
                    proof {
                        assert(diag_views(out@) =~~= base + part);
                    }
                },
            }
        },
        None => {
            proof {
                assert(diag_views(out@) =~~= base + part);
            }
        },
    }
}

fn push_date_bound_diags(
    out: &mut Vec<Diagnostic>,
    directive: &Option<Vec<u8>>,
    field: &Option<Vec<u8>>,
    end_of_day: bool,
)
    ensures
        diag_views(final(out)@) == diag_views(old(out)@) + spec_date_bound_diags(
            crate::extract::opt_bytes_view(*directive),
            crate::extract::opt_bytes_view(*field),
            if end_of_day {
                86399int
            } else {
                0int
            },
            end_of_day,
        ),
{
    let ghost base = diag_views(out@);
    let ghost part = spec_date_bound_diags(
        crate::extract::opt_bytes_view(*directive),
        crate::extract::opt_bytes_view(*field),
        if end_of_day {
            86399int
        } else {
            0int
        },
        end_of_day,
    );
    match directive {
        Some(v) => {
            let parsed = if end_of_day {
                date_end_store_ns(v.as_slice())
            } else {
                date_start_store_ns(v.as_slice())
            };
            match parsed {
                Some(_) => {
                    proof {
                        assert(diag_views(out@) =~~= base + part);
                    }
                },
                None => {
                    let bad = vstd::slice::slice_to_vec(v.as_slice());
                    if end_of_day {
                        out.push(Diagnostic::BadBeforeDate(bad));
                    } else {
                        out.push(Diagnostic::BadAfterDate(bad));
                    }
                    push_field_date_diag(out, field, end_of_day);
                    proof {
                        assert(diag_views(out@) =~~= base + part);
                    }
                },
            }
        },
        None => {
            push_field_date_diag(out, field, end_of_day);
        },
    }
}

/// Everything this request's normalization drops or rejects, in a
/// fixed order, so that a caller can surface it instead of losing it
/// to a log.
pub fn request_diagnostics(req: &SearchRequest) -> (r: Vec<Diagnostic>)
    ensures
        diag_views(r@) == spec_diagnostics(req@),
{
    let toks = tokenize(req.query.as_slice());
    let ex = extract(&toks);
    let mut out: Vec<Diagnostic> = Vec::new();
    proof {
        assert(diag_views(out@) =~~= Seq::<DiagnosticView>::empty());
    }
    push_date_bound_diags(&mut out, &ex.after_value, &req.start_date, false);
    push_date_bound_diags(&mut out, &ex.before_value, &req.end_date, true);
    let ghost date_parts = spec_date_bound_diags(
        crate::extract::opt_bytes_view(ex.after_value),
        req@.start_date,
        0,
        false,
    ) + spec_date_bound_diags(
        crate::extract::opt_bytes_view(ex.before_value),
        req@.end_date,
        86399,
        true,
    );
    let conv_raw: Option<&Vec<u8>> = match &ex.conversation_value {
        Some(v) => Some(v),
        None => match &req.conversation_id {
            Some(v) => Some(v),
            None => None,
        },
    };
    match conv_raw {
        Some(v) => {
            match parse_conversation_id(v.as_slice()) {
                Some(_) => {
                    proof {
                        assert(diag_views(out@) =~~= date_parts + spec_conversation_diags(
                            Some(v@),
                        ));
                    }
                },
                None => {
                    out.push(Diagnostic::BadConversationId(vstd::slice::slice_to_vec(
                        v.as_slice(),
                    )));
                    proof {
                        assert(diag_views(out@) =~~= date_parts + spec_conversation_diags(
                            Some(v@),
                        ));
                    }
                },
            }
        },
        None => {
            proof {
                assert(diag_views(out@) =~~= date_parts + spec_conversation_diags(None));
            }
        },
    }
    proof {
        assert(diag_views(out@) =~~= spec_diagnostics(req@));
    }
    out
}

/// Normalizes bare query text alone: the legacy entry point, lowered
/// into an otherwise empty structured request.
pub fn normalize_query_text(query: Vec<u8>) -> (r: SearchFilters)
    ensures
        r@ == spec_normalize(
            SearchRequestView {
                query: query@,
                start_date: None,
                end_date: None,
                contact_identifiers: Seq::empty(),
                conversation_id: None,
                show_only_my_messages: false,
                show_only_attachments: false,
                sort_direction: Seq::empty(),
                conversation_type: Seq::empty(),
            },
        ),
{
    let req = SearchRequest {
        query,
        start_date: None,
        end_date: None,
        contact_identifiers: Vec::new(),
        conversation_id: None,
        show_only_my_messages: false,
        show_only_attachments: false,
        sort_direction: Vec::new(),
        conversation_type: Vec::new(),
    };
    let r = normalize_request(&req);
    proof {
        assert(req@ =~= SearchRequestView {
            query: req.query@,
            start_date: None,
            end_date: None,
            contact_identifiers: Seq::empty(),
            conversation_id: None,
            show_only_my_messages: false,
            show_only_attachments: false,
            sort_direction: Seq::empty(),
            conversation_type: Seq::empty(),
        });
    }
    r
}

} // verus!
