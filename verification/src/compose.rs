//! The query composer: normalized filters to an ordered clause list,
//! and the clause list to a parameterized query.
//!
//! Clause order is fixed — text, date-after, date-before, sender
//! group, conversation, my-messages, attachment, conversation kind —
//! so that a given filter set always composes the same query.  Every
//! user-supplied value travels as a bound parameter; the query text
//! itself is assembled from constant fragments only.

use vstd::prelude::*;
use crate::filters::SearchFilters;
use crate::filters::FiltersView;
use crate::filters::ConversationFilter;
use crate::filters::ConversationFilterView;
use crate::filters::ConversationKind;
use crate::filters::SortOrder;
use crate::senders::SenderMatcher;
use crate::senders::SenderMatcherView;
use crate::senders::matcher_views;
use crate::senders::spec_any_matcher_matches;
use crate::senders::spec_matcher_matches;
use crate::senders::spec_contains_sub;
use crate::senders::spec_phone_suffix;
use crate::senders::phone_suffix;

verus! {

/// One atom of the composed `WHERE` condition.
#[derive(Debug, Clone, PartialEq, Eq)]
pub enum Clause {
    /// The message text holds the free text (a contains pattern).
    TextLike(Vec<u8>),
    /// The message is dated after this store timestamp.
    DateAfter(i64),
    /// The message is dated before this store timestamp.
    DateBefore(i64),
    /// The sender passes at least one matcher.
    SenderGroup(Vec<SenderMatcher>),
    /// The message belongs to this conversation.
    ConversationIs(i64),
    /// No row at all: the fail-closed conversation filter.
    Never,
    /// The message was sent by the archive's owner.
    FromMe,
    /// The message carries an attachment.
    HasAttachment,
    /// The conversation has at most one other participant.
    KindDirect,
    /// The conversation has more than one other participant.
    KindGroup,
}

/// The mathematical shape of a [`Clause`].
#[verifier::ext_equal]
pub enum ClauseView {
    TextLike(Seq<u8>),
    DateAfter(int),
    DateBefore(int),
    SenderGroup(Seq<SenderMatcherView>),
    ConversationIs(int),
    Never,
    FromMe,
    HasAttachment,
    KindDirect,
    KindGroup,
}

impl View for Clause {
    type V = ClauseView;

    open spec fn view(&self) -> ClauseView {
        match self {
            Clause::TextLike(p) => ClauseView::TextLike(p@),
            Clause::DateAfter(ns) => ClauseView::DateAfter(*ns as int),
            Clause::DateBefore(ns) => ClauseView::DateBefore(*ns as int),
            Clause::SenderGroup(ms) => ClauseView::SenderGroup(matcher_views(ms@)),
            Clause::ConversationIs(id) => ClauseView::ConversationIs(*id as int),
            Clause::Never => ClauseView::Never,
            Clause::FromMe => ClauseView::FromMe,
            Clause::HasAttachment => ClauseView::HasAttachment,
            Clause::KindDirect => ClauseView::KindDirect,
            Clause::KindGroup => ClauseView::KindGroup,
        }
    }
}

pub open spec fn clause_views(cs: Seq<Clause>) -> Seq<ClauseView> {
    cs.map_values(|c: Clause| c@)
}

pub open spec fn spec_text_part(t: Option<Seq<u8>>) -> Seq<ClauseView> {
    match t {
        Some(p) => seq![ClauseView::TextLike(p)],
        None => Seq::empty(),
    }
}

pub open spec fn spec_after_part(ns: Option<int>) -> Seq<ClauseView> {
    match ns {
        Some(n) => seq![ClauseView::DateAfter(n)],
        None => Seq::empty(),
    }
}

pub open spec fn spec_before_part(ns: Option<int>) -> Seq<ClauseView> {
    match ns {
        Some(n) => seq![ClauseView::DateBefore(n)],
        None => Seq::empty(),
    }
}

pub open spec fn spec_sender_part(ms: Seq<SenderMatcherView>) -> Seq<ClauseView> {
    if ms.len() > 0 {
        seq![ClauseView::SenderGroup(ms)]
    } else {
        Seq::empty()
    }
}

pub open spec fn spec_conversation_part(c: ConversationFilterView) -> Seq<ClauseView> {
    match c {
        ConversationFilterView::Unfiltered => Seq::empty(),
        ConversationFilterView::Only(id) => seq![ClauseView::ConversationIs(id)],
        ConversationFilterView::Rejected => seq![ClauseView::Never],
    }
}

pub open spec fn spec_from_me_part(only_from_me: bool) -> Seq<ClauseView> {
    if only_from_me {
        seq![ClauseView::FromMe]
    } else {
        Seq::empty()
    }
}

pub open spec fn spec_attachment_part(only_with_attachment: bool) -> Seq<ClauseView> {
    if only_with_attachment {
        seq![ClauseView::HasAttachment]
    } else {
        Seq::empty()
    }
}

pub open spec fn spec_kind_part(kind: ConversationKind) -> Seq<ClauseView> {
    match kind {
        ConversationKind::Any => Seq::empty(),
        ConversationKind::Direct => seq![ClauseView::KindDirect],
        ConversationKind::Group => seq![ClauseView::KindGroup],
    }
}

/// The clauses of a filter set, in the fixed order.
pub open spec fn spec_clauses(f: FiltersView) -> Seq<ClauseView> {
    spec_text_part(f.text_pattern) + spec_after_part(f.after_ns) + spec_before_part(f.before_ns)
        + spec_sender_part(f.senders) + spec_conversation_part(f.conversation)
        + spec_from_me_part(f.only_from_me) + spec_attachment_part(f.only_with_attachment)
        + spec_kind_part(f.kind)
}

fn push_text_clause(out: &mut Vec<Clause>, v: Option<Vec<u8>>)
    ensures
        clause_views(final(out)@) == clause_views(old(out)@) + spec_text_part(
            crate::extract::opt_bytes_view(v),
        ),
{
    let ghost prev = clause_views(out@);
    match v {
        Some(p) => {
            out.push(Clause::TextLike(p));
            proof {
                assert(clause_views(out@) =~~= prev + spec_text_part(
                    crate::extract::opt_bytes_view(v),
                ));
            }
        },
        None => {
            proof {
                assert(clause_views(out@) =~~= prev + spec_text_part(
                    crate::extract::opt_bytes_view(v),
                ));
            }
        },
    }
}

fn push_after_clause(out: &mut Vec<Clause>, v: Option<i64>)
    ensures
        clause_views(final(out)@) == clause_views(old(out)@) + spec_after_part(
            crate::filters::opt_ns_view(v),
        ),
{
    let ghost prev = clause_views(out@);
    match v {
        Some(n) => {
            out.push(Clause::DateAfter(n));
            proof {
                assert(clause_views(out@) =~~= prev + spec_after_part(
                    crate::filters::opt_ns_view(v),
                ));
            }
        },
        None => {
            proof {
                assert(clause_views(out@) =~~= prev + spec_after_part(
                    crate::filters::opt_ns_view(v),
                ));
            }
        },
    }
}

fn push_before_clause(out: &mut Vec<Clause>, v: Option<i64>)
    ensures
        clause_views(final(out)@) == clause_views(old(out)@) + spec_before_part(
            crate::filters::opt_ns_view(v),
        ),
{
    let ghost prev = clause_views(out@);
    match v {
        Some(n) => {
            out.push(Clause::DateBefore(n));
            proof {
                assert(clause_views(out@) =~~= prev + spec_before_part(
                    crate::filters::opt_ns_view(v),
                ));
            }
        },
        None => {
            proof {
                assert(clause_views(out@) =~~= prev + spec_before_part(
                    crate::filters::opt_ns_view(v),
                ));
            }
        },
    }
}

fn push_sender_clause(out: &mut Vec<Clause>, ms: Vec<SenderMatcher>)
    ensures
        clause_views(final(out)@) == clause_views(old(out)@) + spec_sender_part(
            matcher_views(ms@),
        ),
{
    let ghost prev = clause_views(out@);
    let ghost msv = matcher_views(ms@);
    if ms.len() > 0 {
        out.push(Clause::SenderGroup(ms));
        proof {
            assert(clause_views(out@) =~~= prev + spec_sender_part(msv));
        }
    } else {
        proof {
            assert(clause_views(out@) =~~= prev + spec_sender_part(msv));
        }
    }
}

fn push_conversation_clause(out: &mut Vec<Clause>, c: ConversationFilter)
    ensures
        clause_views(final(out)@) == clause_views(old(out)@) + spec_conversation_part(c@),
{
    let ghost prev = clause_views(out@);
    match c {
        ConversationFilter::Unfiltered => {
            proof {
                assert(clause_views(out@) =~~= prev + spec_conversation_part(c@));
            }
        },
        ConversationFilter::Only(id) => {
            out.push(Clause::ConversationIs(id));
            proof {
                assert(clause_views(out@) =~~= prev + spec_conversation_part(c@));
            }
        },
        ConversationFilter::Rejected => {
            out.push(Clause::Never);
            proof {
                assert(clause_views(out@) =~~= prev + spec_conversation_part(c@));
            }
        },
    }
}

fn push_flag_clause(out: &mut Vec<Clause>, on: bool, clause: Clause, part: Ghost<Seq<ClauseView>>)
    requires
        on ==> part@ == seq![clause@],
        !on ==> part@ == Seq::<ClauseView>::empty(),
    ensures
        clause_views(final(out)@) == clause_views(old(out)@) + part@,
{
    let ghost prev = clause_views(out@);
    if on {
        out.push(clause);
        proof {
            assert(clause_views(out@) =~~= prev + part@);
        }
    } else {
        proof {
            assert(clause_views(out@) =~~= prev + part@);
        }
    }
}

fn push_kind_clause(out: &mut Vec<Clause>, kind: ConversationKind)
    ensures
        clause_views(final(out)@) == clause_views(old(out)@) + spec_kind_part(kind),
{
    let ghost prev = clause_views(out@);
    match kind {
        ConversationKind::Any => {
            proof {
                assert(clause_views(out@) =~~= prev + spec_kind_part(kind));
            }
        },
        ConversationKind::Direct => {
            out.push(Clause::KindDirect);
            proof {
                assert(clause_views(out@) =~~= prev + spec_kind_part(kind));
            }
        },
        ConversationKind::Group => {
            out.push(Clause::KindGroup);
            proof {
                assert(clause_views(out@) =~~= prev + spec_kind_part(kind));
            }
        },
    }
}

/// Lays out the clauses of a filter set, in the fixed order.
#[verifier::rlimit(60)]
pub fn compose_clauses(f: SearchFilters) -> (r: Vec<Clause>)
    ensures
        clause_views(r@) == spec_clauses(f@),
{
    let ghost fv = f@;
    let mut out: Vec<Clause> = Vec::new();
    proof {
        assert(clause_views(out@) =~~= Seq::<ClauseView>::empty());
    }
    push_text_clause(&mut out, f.text_pattern);
    push_after_clause(&mut out, f.after_ns);
    push_before_clause(&mut out, f.before_ns);
    push_sender_clause(&mut out, f.senders);
    push_conversation_clause(&mut out, f.conversation);
    push_flag_clause(&mut out, f.only_from_me, Clause::FromMe, Ghost(spec_from_me_part(f.only_from_me)));
    push_flag_clause(
        &mut out,
        f.only_with_attachment,
        Clause::HasAttachment,
        Ghost(spec_attachment_part(f.only_with_attachment)),
    );
    push_kind_clause(&mut out, f.kind);
    proof {
        assert(clause_views(out@) =~~= spec_clauses(fv));
    }
    out
}

/// What the composed condition reads of one message row.
pub struct RowModel {
    /// The message text.
    pub text: Seq<u8>,
    /// The store timestamp.
    pub date_ns: int,
    pub is_from_me: bool,
    /// The conversation's row id.
    pub chat_id: int,
    /// The sender's canonical identifier.
    pub handle: Seq<u8>,
    /// The sender's identifier as originally written, where kept.
    pub uncanonical: Seq<u8>,
    pub has_attachment: bool,
    /// How many identified participants the conversation has.
    pub participant_count: int,
}

/// The free text inside a contains pattern: the pattern with its
/// wildcard wrapping taken back off.
pub open spec fn spec_like_core(p: Seq<u8>) -> Seq<u8> {
    if p.len() >= 2 {
        p.subrange(1, p.len() - 1)
    } else {
        p
    }
}

/// What one clause demands of a row.
pub open spec fn spec_clause_matches(c: ClauseView, m: RowModel) -> bool {
    match c {
        ClauseView::TextLike(p) => spec_contains_sub(m.text, spec_like_core(p)),
        ClauseView::DateAfter(ns) => m.date_ns > ns,
        ClauseView::DateBefore(ns) => m.date_ns < ns,
        ClauseView::SenderGroup(ms) => spec_any_matcher_matches(ms, m.handle)
            || spec_any_matcher_matches(ms, m.uncanonical),
        ClauseView::ConversationIs(id) => m.chat_id == id,
        ClauseView::Never => false,
        ClauseView::FromMe => m.is_from_me,
        ClauseView::HasAttachment => m.has_attachment,
        ClauseView::KindDirect => m.participant_count <= 1,
        ClauseView::KindGroup => m.participant_count > 1,
    }
}

/// A row passes the composed condition when every clause admits it:
/// clauses join by *and*.
pub open spec fn spec_clauses_match(cs: Seq<ClauseView>, m: RowModel) -> bool {
    forall|i: int| 0 <= i < cs.len() ==> spec_clause_matches(cs[i], m)
}

/// A rejected conversation filter closes the query: no row at all
/// passes the composed clauses, whatever else the row looks like —
/// never an unfiltered result set.
pub proof fn lemma_rejected_conversation_closes(f: FiltersView, m: RowModel)
    requires
        f.conversation is Rejected,
    ensures
        !spec_clauses_match(spec_clauses(f), m),
{
    let cs = spec_clauses(f);
    let pre = spec_text_part(f.text_pattern) + spec_after_part(f.after_ns) + spec_before_part(
        f.before_ns,
    ) + spec_sender_part(f.senders);
    let k = pre.len() as int;
    assert(spec_conversation_part(f.conversation) == seq![ClauseView::Never]);
    assert(cs[k] == ClauseView::Never);
    assert(!spec_clause_matches(cs[k], m));
}

/// Sender matchers combine by *or*: the sender clause admits a row
/// exactly when some one matcher accepts the row's sender identifier,
/// canonical or as written.
pub proof fn lemma_sender_group_or(ms: Seq<SenderMatcherView>, m: RowModel)
    ensures
        spec_clause_matches(ClauseView::SenderGroup(ms), m) <==> exists|i: int|
            0 <= i < ms.len() && (spec_matcher_matches(ms[i], m.handle) || spec_matcher_matches(
                ms[i],
                m.uncanonical,
            )),
{
    if spec_clause_matches(ClauseView::SenderGroup(ms), m) {
        if spec_any_matcher_matches(ms, m.handle) {
            let i = choose|i: int| 0 <= i < ms.len() && spec_matcher_matches(ms[i], m.handle);
            assert(0 <= i < ms.len() && (spec_matcher_matches(ms[i], m.handle)
                || spec_matcher_matches(ms[i], m.uncanonical)));
        } else {
            let i = choose|i: int|
                0 <= i < ms.len() && spec_matcher_matches(ms[i], m.uncanonical);
            assert(0 <= i < ms.len() && (spec_matcher_matches(ms[i], m.handle)
                || spec_matcher_matches(ms[i], m.uncanonical)));
        }
    }
    if exists|i: int|
        0 <= i < ms.len() && (spec_matcher_matches(ms[i], m.handle) || spec_matcher_matches(
            ms[i],
            m.uncanonical,
        )) {
        let i = choose|i: int|
            0 <= i < ms.len() && (spec_matcher_matches(ms[i], m.handle) || spec_matcher_matches(
                ms[i],
                m.uncanonical,
            ));
        if spec_matcher_matches(ms[i], m.handle) {
            assert(spec_any_matcher_matches(ms, m.handle));
        } else {
            assert(spec_any_matcher_matches(ms, m.uncanonical));
        }
    }
}

/// A date range turned inside out — lower bound at or past the upper
/// bound — is accepted and simply matches nothing, never an error.
pub proof fn lemma_inverted_date_range_is_empty(f: FiltersView, m: RowModel)
    requires
        f.after_ns is Some,
        f.before_ns is Some,
        f.after_ns->0 >= f.before_ns->0,
    ensures
        !spec_clauses_match(spec_clauses(f), m),
{
    let cs = spec_clauses(f);
    let t = spec_text_part(f.text_pattern);
    let ka = t.len() as int;
    let kb = ka + 1;
    assert(spec_after_part(f.after_ns) == seq![ClauseView::DateAfter(f.after_ns->0)]);
    assert(spec_before_part(f.before_ns) == seq![ClauseView::DateBefore(f.before_ns->0)]);
    assert(cs[ka] == ClauseView::DateAfter(f.after_ns->0));
    assert(cs[kb] == ClauseView::DateBefore(f.before_ns->0));
    if spec_clauses_match(cs, m) {
        assert(spec_clause_matches(cs[ka], m));
        assert(spec_clause_matches(cs[kb], m));
    }
}

/// A row the composed condition admits was accepted by some one
/// sender matcher, on its canonical or its as-written identifier:
/// several sender filters widen the result, never narrow it.
pub proof fn lemma_admitted_row_matches_some_sender(f: FiltersView, m: RowModel)
    requires
        f.senders.len() > 0,
        spec_clauses_match(spec_clauses(f), m),
    ensures
        exists|i: int|
            0 <= i < f.senders.len() && (spec_matcher_matches(f.senders[i], m.handle)
                || spec_matcher_matches(f.senders[i], m.uncanonical)),
{
    let cs = spec_clauses(f);
    let pre = spec_text_part(f.text_pattern) + spec_after_part(f.after_ns) + spec_before_part(
        f.before_ns,
    );
    let k = pre.len() as int;
    assert(spec_sender_part(f.senders) == seq![ClauseView::SenderGroup(f.senders)]);
    assert(cs[k] == ClauseView::SenderGroup(f.senders));
    assert(spec_clause_matches(cs[k], m));
    lemma_sender_group_or(f.senders, m);
}

/// With no free text there is no text clause at all — directives
/// alone never smuggle a text test into the query — and with free
/// text present the text clause stands first and holds exactly the
/// pattern.
pub proof fn lemma_text_clause_exact(f: FiltersView)
    ensures
        (f.text_pattern is None) ==> forall|i: int|
            0 <= i < spec_clauses(f).len() ==> !(#[trigger] spec_clauses(f)[i] is TextLike),
        (f.text_pattern is Some) ==> spec_clauses(f).len() > 0 && spec_clauses(f)[0]
            == ClauseView::TextLike(f.text_pattern->0),
{
    let cs = spec_clauses(f);
    if f.text_pattern is None {
        let p2 = spec_after_part(f.after_ns);
        let p3 = spec_before_part(f.before_ns);
        let p4 = spec_sender_part(f.senders);
        let p5 = spec_conversation_part(f.conversation);
        let p6 = spec_from_me_part(f.only_from_me);
        let p7 = spec_attachment_part(f.only_with_attachment);
        let p8 = spec_kind_part(f.kind);
        assert(spec_text_part(f.text_pattern) =~= Seq::<ClauseView>::empty());
        assert forall|i: int| 0 <= i < cs.len() implies !(#[trigger] cs[i] is TextLike) by {
            let n2 = p2.len() as int;
            let n3 = n2 + p3.len();
            let n4 = n3 + p4.len();
            let n5 = n4 + p5.len();
            let n6 = n5 + p6.len();
            let n7 = n6 + p7.len();
            if i < n2 {
                assert(cs[i] == p2[i]);
            } else if i < n3 {
                assert(cs[i] == p3[i - n2]);
            } else if i < n4 {
                assert(cs[i] == p4[i - n3]);
            } else if i < n5 {
                assert(cs[i] == p5[i - n4]);
            } else if i < n6 {
                assert(cs[i] == p6[i - n5]);
            } else if i < n7 {
                assert(cs[i] == p7[i - n6]);
            } else {
                assert(cs[i] == p8[i - n7]);
            }
        }
    }
}

/// One message row's facts as plain values, for evaluating the
/// composed condition outside the store.
#[derive(Debug, Clone, PartialEq, Eq)]
pub struct MessageFacts {
    pub text: Vec<u8>,
    pub date_ns: i64,
    pub is_from_me: bool,
    pub chat_id: i64,
    pub handle: Vec<u8>,
    pub uncanonical: Vec<u8>,
    pub has_attachment: bool,
    pub participant_count: i64,
}

impl View for MessageFacts {
    type V = RowModel;

    open spec fn view(&self) -> RowModel {
        RowModel {
            text: self.text@,
            date_ns: self.date_ns as int,
            is_from_me: self.is_from_me,
            chat_id: self.chat_id as int,
            handle: self.handle@,
            uncanonical: self.uncanonical@,
            has_attachment: self.has_attachment,
            participant_count: self.participant_count as int,
        }
    }
}

fn like_core<'a>(p: &'a [u8]) -> (r: &'a [u8])
    ensures
        r@ == spec_like_core(p@),
{
    if p.len() >= 2 {
        vstd::slice::slice_subrange(p, 1, p.len() - 1)
    } else {
        p
    }
}

/// Whether one clause admits a row, computed exactly as the clause's
/// meaning says.
pub fn clause_admits(c: &Clause, m: &MessageFacts) -> (r: bool)
    ensures
        r == spec_clause_matches(c@, m@),
{
    match c {
        Clause::TextLike(p) => crate::senders::contains_sub(
            m.text.as_slice(),
            like_core(p.as_slice()),
        ),
        Clause::DateAfter(ns) => m.date_ns > *ns,
        Clause::DateBefore(ns) => m.date_ns < *ns,
        Clause::SenderGroup(ms) => crate::senders::any_matcher_matches(ms, m.handle.as_slice())
            || crate::senders::any_matcher_matches(ms, m.uncanonical.as_slice()),
        Clause::ConversationIs(id) => m.chat_id == *id,
        Clause::Never => false,
        Clause::FromMe => m.is_from_me,
        Clause::HasAttachment => m.has_attachment,
        Clause::KindDirect => m.participant_count <= 1,
        Clause::KindGroup => m.participant_count > 1,
    }
}

/// The reference evaluator of a composed condition: a row passes
/// exactly when every clause admits it.  What the store computes from
/// the rendered query is meant to agree with this.
pub fn clauses_admit(clauses: &Vec<Clause>, m: &MessageFacts) -> (r: bool)
    ensures
        r == spec_clauses_match(clause_views(clauses@), m@),
{
    let mut i: usize = 0;
    while i < clauses.len()
        invariant
            i <= clauses@.len(),
            forall|j: int|
                0 <= j < i ==> spec_clause_matches(clause_views(clauses@)[j], m@),
        decreases clauses@.len() - i,
    {
        if !clause_admits(&clauses[i], m) {
            proof {
                assert(clause_views(clauses@)[i as int] == clauses@[i as int]@);
            }
            return false;
        }
        proof {
            assert(clause_views(clauses@)[i as int] == clauses@[i as int]@);
        }
        i = i + 1;
    }
    true
}

/// One bound parameter of the composed query.
#[derive(Debug, Clone, PartialEq, Eq)]
pub enum Param {
    Text(Vec<u8>),
    Int(i64),
}

/// The mathematical shape of a [`Param`].
#[verifier::ext_equal]
pub enum ParamView {
    Text(Seq<u8>),
    Int(int),
}

impl View for Param {
    type V = ParamView;

    open spec fn view(&self) -> ParamView {
        match self {
            Param::Text(v) => ParamView::Text(v@),
            Param::Int(n) => ParamView::Int(*n as int),
        }
    }
}

pub open spec fn param_views(ps: Seq<Param>) -> Seq<ParamView> {
    ps.map_values(|p: Param| p@)
}

/// The fixed head of every composed query.
pub open spec fn spec_base_sql() -> Seq<char> {
    "SELECT DISTINCT m.ROWID as message_id, m.text, m.date, m.is_from_me, cmj.chat_id, h.id as handle_id, COALESCE(h.uncanonicalized_id, h.id) as sender_id, (SELECT a.filename FROM attachment a JOIN message_attachment_join maj ON maj.attachment_id = a.ROWID WHERE maj.message_id = m.ROWID LIMIT 1) as attachment_path FROM message m INNER JOIN chat_message_join cmj ON m.ROWID = cmj.message_id LEFT JOIN handle h ON m.handle_id = h.ROWID WHERE 1 = 1"@
}

/// The condition one matcher renders to, against the canonical and
/// the as-written identifier; its two placeholders take the same
/// value.
pub open spec fn spec_matcher_sql(m: SenderMatcherView) -> Seq<char> {
    match m {
        SenderMatcherView::PhoneDigits(_) => "(REPLACE(REPLACE(REPLACE(REPLACE(REPLACE(h.id, '+', ''), '-', ''), ' ', ''), '(', ''), ')', '') LIKE '%' || ? OR REPLACE(REPLACE(REPLACE(REPLACE(REPLACE(COALESCE(h.uncanonicalized_id, h.id), '+', ''), '-', ''), ' ', ''), '(', ''), ')', '') LIKE '%' || ?)"@,
        SenderMatcherView::Email(_) => "(LOWER(h.id) = LOWER(?) OR LOWER(COALESCE(h.uncanonicalized_id, h.id)) = LOWER(?))"@,
        SenderMatcherView::RawIdentifier(_) => "(INSTR(h.id, ?) > 0 OR INSTR(COALESCE(h.uncanonicalized_id, h.id), ?) > 0)"@,
    }
}

/// The two values one matcher binds: its comparison digits, address
/// or raw value, once per identifier column.
pub open spec fn spec_matcher_params(m: SenderMatcherView) -> Seq<ParamView> {
    match m {
        SenderMatcherView::PhoneDigits(d) => seq![
            ParamView::Text(spec_phone_suffix(d)),
            ParamView::Text(spec_phone_suffix(d)),
        ],
        SenderMatcherView::Email(e) => seq![ParamView::Text(e), ParamView::Text(e)],
        SenderMatcherView::RawIdentifier(r) => seq![ParamView::Text(r), ParamView::Text(r)],
    }
}

/// Matcher conditions joined by ` OR `.
pub open spec fn spec_sender_group_sql(ms: Seq<SenderMatcherView>) -> Seq<char>
    decreases ms.len(),
{
    if ms.len() == 0 {
        Seq::empty()
    } else if ms.len() == 1 {
        spec_matcher_sql(ms[0])
    } else {
        spec_sender_group_sql(ms.drop_last()) + " OR "@ + spec_matcher_sql(ms.last())
    }
}

pub open spec fn spec_sender_group_params(ms: Seq<SenderMatcherView>) -> Seq<ParamView>
    decreases ms.len(),
{
    if ms.len() == 0 {
        Seq::empty()
    } else {
        spec_sender_group_params(ms.drop_last()) + spec_matcher_params(ms.last())
    }
}

/// The text one clause appends to the query.
pub open spec fn spec_clause_sql(c: ClauseView) -> Seq<char> {
    match c {
        ClauseView::TextLike(_) => " AND m.text LIKE ?"@,
        ClauseView::DateAfter(_) => " AND m.date > ?"@,
        ClauseView::DateBefore(_) => " AND m.date < ?"@,
        ClauseView::SenderGroup(ms) => " AND ("@ + spec_sender_group_sql(ms) + ")"@,
        ClauseView::ConversationIs(_) => " AND cmj.chat_id = ?"@,
        ClauseView::Never => " AND 1 = 0"@,
        ClauseView::FromMe => " AND m.is_from_me = 1"@,
        ClauseView::HasAttachment => " AND EXISTS (SELECT 1 FROM attachment a JOIN message_attachment_join maj ON maj.attachment_id = a.ROWID WHERE maj.message_id = m.ROWID)"@,
        ClauseView::KindDirect => " AND (SELECT COUNT(DISTINCT h2.id) FROM chat_handle_join chj2 JOIN handle h2 ON h2.ROWID = chj2.handle_id WHERE chj2.chat_id = cmj.chat_id) <= 1"@,
        ClauseView::KindGroup => " AND (SELECT COUNT(DISTINCT h2.id) FROM chat_handle_join chj2 JOIN handle h2 ON h2.ROWID = chj2.handle_id WHERE chj2.chat_id = cmj.chat_id) > 1"@,
    }
}

/// The values one clause binds, in placeholder order.
pub open spec fn spec_clause_params(c: ClauseView) -> Seq<ParamView> {
    match c {
        ClauseView::TextLike(p) => seq![ParamView::Text(p)],
        ClauseView::DateAfter(ns) => seq![ParamView::Int(ns)],
        ClauseView::DateBefore(ns) => seq![ParamView::Int(ns)],
        ClauseView::SenderGroup(ms) => spec_sender_group_params(ms),
        ClauseView::ConversationIs(id) => seq![ParamView::Int(id)],
        ClauseView::Never => Seq::empty(),
        ClauseView::FromMe => Seq::empty(),
        ClauseView::HasAttachment => Seq::empty(),
        ClauseView::KindDirect => Seq::empty(),
        ClauseView::KindGroup => Seq::empty(),
    }
}

pub open spec fn spec_clauses_sql(cs: Seq<ClauseView>) -> Seq<char>
    decreases cs.len(),
{
    if cs.len() == 0 {
        Seq::empty()
    } else {
        spec_clauses_sql(cs.drop_last()) + spec_clause_sql(cs.last())
    }
}

pub open spec fn spec_clauses_params(cs: Seq<ClauseView>) -> Seq<ParamView>
    decreases cs.len(),
{
    if cs.len() == 0 {
        Seq::empty()
    } else {
        spec_clauses_params(cs.drop_last()) + spec_clause_params(cs.last())
    }
}

/// The fixed tail: deterministic order by timestamp and a stable cap
/// on returned rows.
pub open spec fn spec_order_sql(sort: SortOrder) -> Seq<char> {
    match sort {
        SortOrder::Ascending => " ORDER BY m.date ASC LIMIT 100"@,
        SortOrder::Descending => " ORDER BY m.date DESC LIMIT 100"@,
    }
}

/// The whole query text of a clause list.
pub open spec fn spec_query_sql(cs: Seq<ClauseView>, sort: SortOrder) -> Seq<char> {
    spec_base_sql() + spec_clauses_sql(cs) + spec_order_sql(sort)
}

/// An ordered, parameterized query: constant text with placeholders,
/// and the values to bind to them, in placeholder order.
#[derive(Debug, Clone, PartialEq, Eq)]
pub struct ComposedQuery {
    pub sql: String,
    pub params: Vec<Param>,
}

fn append_matcher(sql: &mut String, params: &mut Vec<Param>, m: &SenderMatcher)
    ensures
        final(sql)@ == old(sql)@ + spec_matcher_sql(m@),
        param_views(final(params)@) == param_views(old(params)@) + spec_matcher_params(m@),
{
    let ghost pparams = param_views(params@);
    match m {
        SenderMatcher::PhoneDigits(d) => {
            sql.append(
                "(REPLACE(REPLACE(REPLACE(REPLACE(REPLACE(h.id, '+', ''), '-', ''), ' ', ''), '(', ''), ')', '') LIKE '%' || ? OR REPLACE(REPLACE(REPLACE(REPLACE(REPLACE(COALESCE(h.uncanonicalized_id, h.id), '+', ''), '-', ''), ' ', ''), '(', ''), ')', '') LIKE '%' || ?)",
            );
            let s1 = phone_suffix(d.as_slice());
            let s2 = phone_suffix(d.as_slice());
            params.push(Param::Text(s1));
            params.push(Param::Text(s2));
            proof {
                assert(param_views(params@) =~~= pparams + spec_matcher_params(m@));
            }
        },
        SenderMatcher::Email(e) => {
            sql.append("(LOWER(h.id) = LOWER(?) OR LOWER(COALESCE(h.uncanonicalized_id, h.id)) = LOWER(?))");
            let s1 = vstd::slice::slice_to_vec(e.as_slice());
            let s2 = vstd::slice::slice_to_vec(e.as_slice());
            params.push(Param::Text(s1));
            params.push(Param::Text(s2));
            proof {
                assert(param_views(params@) =~~= pparams + spec_matcher_params(m@));
            }
        },
        SenderMatcher::RawIdentifier(r) => {
            sql.append("(INSTR(h.id, ?) > 0 OR INSTR(COALESCE(h.uncanonicalized_id, h.id), ?) > 0)");
            let s1 = vstd::slice::slice_to_vec(r.as_slice());
            let s2 = vstd::slice::slice_to_vec(r.as_slice());
            params.push(Param::Text(s1));
            params.push(Param::Text(s2));
            proof {
                assert(param_views(params@) =~~= pparams + spec_matcher_params(m@));
            }
        },
    }
}

fn append_sender_group(sql: &mut String, params: &mut Vec<Param>, ms: &Vec<SenderMatcher>)
    ensures
        final(sql)@ == old(sql)@ + " AND ("@ + spec_sender_group_sql(matcher_views(ms@)) + ")"@,
        param_views(final(params)@) == param_views(old(params)@) + spec_sender_group_params(
            matcher_views(ms@),
        ),
{
    let ghost msv = matcher_views(ms@);
    let ghost psql = sql@;
    let ghost pparams = param_views(params@);
    sql.append(" AND (");
    let mut i: usize = 0;
    proof {
        assert(msv.subrange(0, 0) =~= Seq::<SenderMatcherView>::empty());
        assert(spec_sender_group_sql(msv.subrange(0, 0)) =~= Seq::<char>::empty());
        assert(sql@ =~= psql + " AND ("@ + spec_sender_group_sql(msv.subrange(0, 0)));
        assert(param_views(params@) =~= pparams + spec_sender_group_params(msv.subrange(0, 0)));
    }
    while i < ms.len()
        invariant
            i <= ms@.len(),
            msv.len() == ms@.len(),
            msv == matcher_views(ms@),
            sql@ == psql + " AND ("@ + spec_sender_group_sql(msv.subrange(0, i as int)),
            param_views(params@) == pparams + spec_sender_group_params(msv.subrange(0, i as int)),
        decreases ms@.len() - i,
    {
        let ghost pre = msv.subrange(0, i as int);
        let ghost post = msv.subrange(0, i as int + 1);
        proof {
            assert(post.drop_last() =~= pre);
            assert(post.last() == msv[i as int]);
            assert(msv[i as int] == ms@[i as int]@);
        }
        if i > 0 {
            sql.append(" OR ");
        }
        append_matcher(sql, params, &ms[i]);
        proof {
            if i == 0 {
                assert(spec_sender_group_sql(post) == spec_matcher_sql(msv[0]));
                assert(sql@ =~= psql + " AND ("@ + spec_sender_group_sql(post));
            } else {
                assert(spec_sender_group_sql(post) == spec_sender_group_sql(pre) + " OR "@
                    + spec_matcher_sql(msv[i as int]));
                assert(sql@ =~= psql + " AND ("@ + spec_sender_group_sql(post));
            }
            assert(param_views(params@) =~= pparams + spec_sender_group_params(post));
        }
        i = i + 1;
    }
    proof {
        assert(msv.subrange(0, msv.len() as int) =~= msv);
    }
    sql.append(")");
}

fn append_clause(sql: &mut String, params: &mut Vec<Param>, c: &Clause)
    ensures
        final(sql)@ == old(sql)@ + spec_clause_sql(c@),
        param_views(final(params)@) == param_views(old(params)@) + spec_clause_params(c@),
{
    let ghost psql = sql@;
    let ghost pparams = param_views(params@);
    match c {
        Clause::TextLike(p) => {
            sql.append(" AND m.text LIKE ?");
            params.push(Param::Text(vstd::slice::slice_to_vec(p.as_slice())));
            proof {
                assert(param_views(params@) =~~= pparams + spec_clause_params(c@));
            }
        },
        Clause::DateAfter(ns) => {
            sql.append(" AND m.date > ?");
            params.push(Param::Int(*ns));
            proof {
                assert(param_views(params@) =~~= pparams + spec_clause_params(c@));
            }
        },
        Clause::DateBefore(ns) => {
            sql.append(" AND m.date < ?");
            params.push(Param::Int(*ns));
            proof {
                assert(param_views(params@) =~~= pparams + spec_clause_params(c@));
            }
        },
        Clause::SenderGroup(ms) => {
            append_sender_group(sql, params, ms);
            proof {
                assert(sql@ =~= psql + spec_clause_sql(c@));
            }
        },
        Clause::ConversationIs(id) => {
            sql.append(" AND cmj.chat_id = ?");
            params.push(Param::Int(*id));
            proof {
                assert(param_views(params@) =~~= pparams + spec_clause_params(c@));
            }
        },
        Clause::Never => {
            sql.append(" AND 1 = 0");
            proof {
                assert(param_views(params@) =~~= pparams + spec_clause_params(c@));
            }
        },
        Clause::FromMe => {
            sql.append(" AND m.is_from_me = 1");
            proof {
                assert(param_views(params@) =~~= pparams + spec_clause_params(c@));
            }
        },
        Clause::HasAttachment => {
            sql.append(
                " AND EXISTS (SELECT 1 FROM attachment a JOIN message_attachment_join maj ON maj.attachment_id = a.ROWID WHERE maj.message_id = m.ROWID)",
            );
            proof {
                assert(param_views(params@) =~~= pparams + spec_clause_params(c@));
            }
        },
        Clause::KindDirect => {
            sql.append(
                " AND (SELECT COUNT(DISTINCT h2.id) FROM chat_handle_join chj2 JOIN handle h2 ON h2.ROWID = chj2.handle_id WHERE chj2.chat_id = cmj.chat_id) <= 1",
            );
            proof {
                assert(param_views(params@) =~~= pparams + spec_clause_params(c@));
            }
        },
        Clause::KindGroup => {
            sql.append(
                " AND (SELECT COUNT(DISTINCT h2.id) FROM chat_handle_join chj2 JOIN handle h2 ON h2.ROWID = chj2.handle_id WHERE chj2.chat_id = cmj.chat_id) > 1",
            );
            proof {
                assert(param_views(params@) =~~= pparams + spec_clause_params(c@));
            }
        },
    }
}

/// Renders a clause list as query text plus its bound parameters.
/// The text is assembled from constant fragments alone: every
/// user-supplied value travels in the parameter list.
pub fn render_query(clauses: &Vec<Clause>, sort: SortOrder) -> (r: ComposedQuery)
    ensures
        r.sql@ == spec_query_sql(clause_views(clauses@), sort),
        param_views(r.params@) == spec_clauses_params(clause_views(clauses@)),
{
    let ghost cv = clause_views(clauses@);
    let mut sql = String::from_str(
        "SELECT DISTINCT m.ROWID as message_id, m.text, m.date, m.is_from_me, cmj.chat_id, h.id as handle_id, COALESCE(h.uncanonicalized_id, h.id) as sender_id, (SELECT a.filename FROM attachment a JOIN message_attachment_join maj ON maj.attachment_id = a.ROWID WHERE maj.message_id = m.ROWID LIMIT 1) as attachment_path FROM message m INNER JOIN chat_message_join cmj ON m.ROWID = cmj.message_id LEFT JOIN handle h ON m.handle_id = h.ROWID WHERE 1 = 1",
    );
    let mut params: Vec<Param> = Vec::new();
    let mut i: usize = 0;
    proof {
        assert(cv.subrange(0, 0) =~= Seq::<ClauseView>::empty());
        assert(sql@ =~= spec_base_sql() + spec_clauses_sql(cv.subrange(0, 0)));
        assert(param_views(params@) =~= spec_clauses_params(cv.subrange(0, 0)));
    }
    while i < clauses.len()
        invariant
            i <= clauses@.len(),
            cv.len() == clauses@.len(),
            cv == clause_views(clauses@),
            sql@ == spec_base_sql() + spec_clauses_sql(cv.subrange(0, i as int)),
            param_views(params@) == spec_clauses_params(cv.subrange(0, i as int)),
        decreases clauses@.len() - i,
    {
        let ghost pre = cv.subrange(0, i as int);
        let ghost post = cv.subrange(0, i as int + 1);
        proof {
            assert(post.drop_last() =~= pre);
            assert(post.last() == cv[i as int]);
            assert(cv[i as int] == clauses@[i as int]@);
        }
        append_clause(&mut sql, &mut params, &clauses[i]);
        proof {
            assert(sql@ =~= spec_base_sql() + spec_clauses_sql(post));
            assert(param_views(params@) =~= spec_clauses_params(post));
        }
        i = i + 1;
    }
    proof {
        assert(cv.subrange(0, cv.len() as int) =~= cv);
    }
    match sort {
        SortOrder::Ascending => {
            sql.append(" ORDER BY m.date ASC LIMIT 100");
        },
        SortOrder::Descending => {
            sql.append(" ORDER BY m.date DESC LIMIT 100");
        },
    }
    ComposedQuery { sql, params }
}

/// Composes the one query a filter set stands for: fixed clause
/// order, constant query text, all values bound.
pub fn compose_query(f: SearchFilters) -> (r: ComposedQuery)
    ensures
        r.sql@ == spec_query_sql(spec_clauses(f@), f@.sort),
        param_views(r.params@) == spec_clauses_params(spec_clauses(f@)),
{
    let sort = f.sort;
    let clauses = compose_clauses(f);
    render_query(&clauses, sort)
}

/// What shapes a matcher's rendered condition: its kind alone.
pub enum MatcherKind {
    Phone,
    Address,
    Raw,
}

pub open spec fn spec_matcher_kind(m: SenderMatcherView) -> MatcherKind {
    match m {
        SenderMatcherView::PhoneDigits(_) => MatcherKind::Phone,
        SenderMatcherView::Email(_) => MatcherKind::Address,
        SenderMatcherView::RawIdentifier(_) => MatcherKind::Raw,
    }
}

pub open spec fn spec_matcher_kinds(ms: Seq<SenderMatcherView>) -> Seq<MatcherKind> {
    ms.map_values(|m: SenderMatcherView| spec_matcher_kind(m))
}

/// Whether the conversation filter is absent, set, or closed.
pub enum ConversationShape {
    Open,
    Scoped,
    Closed,
}

pub open spec fn spec_conversation_shape(c: ConversationFilterView) -> ConversationShape {
    match c {
        ConversationFilterView::Unfiltered => ConversationShape::Open,
        ConversationFilterView::Only(_) => ConversationShape::Scoped,
        ConversationFilterView::Rejected => ConversationShape::Closed,
    }
}

/// Everything of a filter set that the query *text* may depend on:
/// which filters are present, the sender matchers' kinds, and the
/// fixed enumerations — never a user-supplied byte.
#[verifier::ext_equal]
pub struct QueryShape {
    pub has_text: bool,
    pub has_after: bool,
    pub has_before: bool,
    pub sender_kinds: Seq<MatcherKind>,
    pub conversation: ConversationShape,
    pub only_from_me: bool,
    pub only_with_attachment: bool,
    pub kind: ConversationKind,
    pub sort: SortOrder,
}

pub open spec fn spec_shape_of(f: FiltersView) -> QueryShape {
    QueryShape {
        has_text: f.text_pattern is Some,
        has_after: f.after_ns is Some,
        has_before: f.before_ns is Some,
        sender_kinds: spec_matcher_kinds(f.senders),
        conversation: spec_conversation_shape(f.conversation),
        only_from_me: f.only_from_me,
        only_with_attachment: f.only_with_attachment,
        kind: f.kind,
        sort: f.sort,
    }
}

proof fn lemma_clauses_sql_concat(a: Seq<ClauseView>, b: Seq<ClauseView>)
    ensures
        spec_clauses_sql(a + b) == spec_clauses_sql(a) + spec_clauses_sql(b),
    decreases b.len(),
{
    if b.len() == 0 {
        assert(a + b =~= a);
        assert(spec_clauses_sql(a) + Seq::<char>::empty() =~= spec_clauses_sql(a));
    } else {
        lemma_clauses_sql_concat(a, b.drop_last());
        assert((a + b).drop_last() =~= a + b.drop_last());
        assert((a + b).last() == b.last());
        assert(spec_clauses_sql(a) + (spec_clauses_sql(b.drop_last()) + spec_clause_sql(b.last()))
            =~= (spec_clauses_sql(a) + spec_clauses_sql(b.drop_last())) + spec_clause_sql(
            b.last(),
        ));
    }
}

proof fn lemma_sql_singleton(c: ClauseView)
    ensures
        spec_clauses_sql(seq![c]) == spec_clause_sql(c),
{
    assert(seq![c].drop_last() =~= Seq::<ClauseView>::empty());
    assert(seq![c].last() == c);
    assert(spec_clauses_sql(Seq::<ClauseView>::empty()) == Seq::<char>::empty());
    assert(Seq::<char>::empty() + spec_clause_sql(c) =~= spec_clause_sql(c));
}

proof fn lemma_group_sql_by_kinds(m1: Seq<SenderMatcherView>, m2: Seq<SenderMatcherView>)
    requires
        spec_matcher_kinds(m1) == spec_matcher_kinds(m2),
    ensures
        spec_sender_group_sql(m1) == spec_sender_group_sql(m2),
    decreases m1.len(),
{
    assert(spec_matcher_kinds(m1).len() == m1.len());
    assert(spec_matcher_kinds(m2).len() == m2.len());
    assert(m1.len() == m2.len());
    if m1.len() == 0 {
    } else {
        assert(spec_matcher_kinds(m1.drop_last()) =~= spec_matcher_kinds(m2.drop_last())) by {
            assert forall|j: int|
                0 <= j < m1.len() - 1 implies spec_matcher_kinds(m1.drop_last())[j]
                == spec_matcher_kinds(m2.drop_last())[j] by {
                assert(m1.drop_last()[j] == m1[j]);
                assert(m2.drop_last()[j] == m2[j]);
                assert(spec_matcher_kinds(m1)[j] == spec_matcher_kind(m1[j]));
                assert(spec_matcher_kinds(m2)[j] == spec_matcher_kind(m2[j]));
                assert(spec_matcher_kinds(m1.drop_last())[j] == spec_matcher_kind(m1[j]));
                assert(spec_matcher_kinds(m2.drop_last())[j] == spec_matcher_kind(m2[j]));
            }
        }
        lemma_group_sql_by_kinds(m1.drop_last(), m2.drop_last());
        assert(spec_matcher_kind(m1.last()) == spec_matcher_kind(m2.last())) by {
            assert(spec_matcher_kinds(m1)[m1.len() - 1] == spec_matcher_kind(m1.last()));
            assert(spec_matcher_kinds(m2)[m2.len() - 1] == spec_matcher_kind(m2.last()));
        }
        assert(spec_matcher_sql(m1.last()) == spec_matcher_sql(m2.last()));
    }
}

/// Two filter sets of one shape compose the same query text, letter
/// for letter: user-supplied values can steer only the bound
/// parameters, so no input can smuggle anything into the query
/// itself.
pub proof fn lemma_sql_depends_on_shape_alone(f1: FiltersView, f2: FiltersView)
    requires
        spec_shape_of(f1) == spec_shape_of(f2),
    ensures
        spec_query_sql(spec_clauses(f1), f1.sort) == spec_query_sql(spec_clauses(f2), f2.sort),
{
    let t1 = spec_text_part(f1.text_pattern);
    let t2 = spec_text_part(f2.text_pattern);
    let a1 = spec_after_part(f1.after_ns);
    let a2 = spec_after_part(f2.after_ns);
    let b1 = spec_before_part(f1.before_ns);
    let b2 = spec_before_part(f2.before_ns);
    let s1 = spec_sender_part(f1.senders);
    let s2 = spec_sender_part(f2.senders);
    let c1 = spec_conversation_part(f1.conversation);
    let c2 = spec_conversation_part(f2.conversation);
    let g1 = spec_from_me_part(f1.only_from_me);
    let g2 = spec_from_me_part(f2.only_from_me);
    let h1 = spec_attachment_part(f1.only_with_attachment);
    let h2 = spec_attachment_part(f2.only_with_attachment);
    let k1 = spec_kind_part(f1.kind);
    let k2 = spec_kind_part(f2.kind);
    assert(spec_shape_of(f1).has_text == spec_shape_of(f2).has_text);
    assert(spec_shape_of(f1).sender_kinds == spec_shape_of(f2).sender_kinds);
    assert(spec_clauses_sql(t1) == spec_clauses_sql(t2)) by {
        if f1.text_pattern is Some {
            lemma_sql_singleton(ClauseView::TextLike(f1.text_pattern->0));
            lemma_sql_singleton(ClauseView::TextLike(f2.text_pattern->0));
        }
    }
    assert(spec_clauses_sql(a1) == spec_clauses_sql(a2)) by {
        if f1.after_ns is Some {
            lemma_sql_singleton(ClauseView::DateAfter(f1.after_ns->0));
            lemma_sql_singleton(ClauseView::DateAfter(f2.after_ns->0));
        }
    }
    assert(spec_clauses_sql(b1) == spec_clauses_sql(b2)) by {
        if f1.before_ns is Some {
            lemma_sql_singleton(ClauseView::DateBefore(f1.before_ns->0));
            lemma_sql_singleton(ClauseView::DateBefore(f2.before_ns->0));
        }
    }
    assert(spec_clauses_sql(s1) == spec_clauses_sql(s2)) by {
        assert(spec_matcher_kinds(f1.senders).len() == f1.senders.len());
        assert(spec_matcher_kinds(f2.senders).len() == f2.senders.len());
        assert(f1.senders.len() == f2.senders.len());
        if f1.senders.len() > 0 {
            lemma_sql_singleton(ClauseView::SenderGroup(f1.senders));
            lemma_sql_singleton(ClauseView::SenderGroup(f2.senders));
            lemma_group_sql_by_kinds(f1.senders, f2.senders);
        }
    }
    assert(spec_clauses_sql(c1) == spec_clauses_sql(c2)) by {
        match f1.conversation {
            ConversationFilterView::Unfiltered => {},
            ConversationFilterView::Only(id) => {
                lemma_sql_singleton(ClauseView::ConversationIs(id));
                lemma_sql_singleton(ClauseView::ConversationIs(f2.conversation->Only_0));
            },
            ConversationFilterView::Rejected => {
                lemma_sql_singleton(ClauseView::Never);
            },
        }
    }
    assert(spec_clauses_sql(g1) == spec_clauses_sql(g2)) by {
        if f1.only_from_me {
            lemma_sql_singleton(ClauseView::FromMe);
        }
    }
    assert(spec_clauses_sql(h1) == spec_clauses_sql(h2)) by {
        if f1.only_with_attachment {
            lemma_sql_singleton(ClauseView::HasAttachment);
        }
    }
    assert(spec_clauses_sql(k1) == spec_clauses_sql(k2)) by {
        match f1.kind {
            ConversationKind::Any => {},
            ConversationKind::Direct => {
                lemma_sql_singleton(ClauseView::KindDirect);
            },
            ConversationKind::Group => {
                lemma_sql_singleton(ClauseView::KindGroup);
            },
        }
    }
    lemma_clauses_sql_concat(t1, a1);
    lemma_clauses_sql_concat(t1 + a1, b1);
    lemma_clauses_sql_concat(t1 + a1 + b1, s1);
    lemma_clauses_sql_concat(t1 + a1 + b1 + s1, c1);
    lemma_clauses_sql_concat(t1 + a1 + b1 + s1 + c1, g1);
    lemma_clauses_sql_concat(t1 + a1 + b1 + s1 + c1 + g1, h1);
    lemma_clauses_sql_concat(t1 + a1 + b1 + s1 + c1 + g1 + h1, k1);
    lemma_clauses_sql_concat(t2, a2);
    lemma_clauses_sql_concat(t2 + a2, b2);
    lemma_clauses_sql_concat(t2 + a2 + b2, s2);
    lemma_clauses_sql_concat(t2 + a2 + b2 + s2, c2);
    lemma_clauses_sql_concat(t2 + a2 + b2 + s2 + c2, g2);
    lemma_clauses_sql_concat(t2 + a2 + b2 + s2 + c2 + g2, h2);
    lemma_clauses_sql_concat(t2 + a2 + b2 + s2 + c2 + g2 + h2, k2);
    assert(f1.sort == f2.sort);
}

/// The whole pipeline: free-form query text and structured filter
/// fields in, one deterministic parameterized query out.
pub fn search_query(req: &crate::filters::SearchRequest) -> (r: ComposedQuery)
    ensures
        r.sql@ == spec_query_sql(
            spec_clauses(crate::filters::spec_normalize(req@)),
            crate::filters::spec_normalize(req@).sort,
        ),
        param_views(r.params@) == spec_clauses_params(
            spec_clauses(crate::filters::spec_normalize(req@)),
        ),
{
    let f = crate::filters::normalize_request(req);
    compose_query(f)
}

} // verus!
