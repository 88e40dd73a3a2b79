//! Sender matchers: classified rules for matching a message's sender
//! identifier against a user-supplied value.
//!
//! Classification happens once, from the raw value, and is never
//! re-derived: a phone-shaped value keeps only its digits and matches
//! by suffix, to absorb country-code and formatting variance; a value
//! with `@` matches exactly but ASCII case-insensitively; anything
//! else matches as a substring of the stored identifier.

use vstd::prelude::*;
use crate::dates::spec_is_digit;

verus! {

/// A classified rule for matching a sender identifier.
#[derive(Debug, Clone, PartialEq, Eq)]
pub enum SenderMatcher {
    /// The digits of a phone-shaped value.
    PhoneDigits(Vec<u8>),
    /// A value with `@`.
    Email(Vec<u8>),
    /// Any other value.
    RawIdentifier(Vec<u8>),
}

/// The mathematical shape of a [`SenderMatcher`].
#[verifier::ext_equal]
pub enum SenderMatcherView {
    PhoneDigits(Seq<u8>),
    Email(Seq<u8>),
    RawIdentifier(Seq<u8>),
}

impl View for SenderMatcher {
    type V = SenderMatcherView;

    open spec fn view(&self) -> SenderMatcherView {
        match self {
            SenderMatcher::PhoneDigits(v) => SenderMatcherView::PhoneDigits(v@),
            SenderMatcher::Email(v) => SenderMatcherView::Email(v@),
            SenderMatcher::RawIdentifier(v) => SenderMatcherView::RawIdentifier(v@),
        }
    }
}

pub open spec fn matcher_views(ms: Seq<SenderMatcher>) -> Seq<SenderMatcherView> {
    ms.map_values(|m: SenderMatcher| m@)
}

/// Punctuation that commonly decorates a written phone number.
pub open spec fn spec_is_phone_punct(b: u8) -> bool {
    b == 32 || b == 43 || b == 45 || b == 40 || b == 41 || b == 46
}

/// Whether a value is written like a phone number: nonempty, nothing
/// but digits and phone punctuation, and at least one digit.
pub open spec fn spec_is_phone_shaped(v: Seq<u8>) -> bool {
    &&& v.len() > 0
    &&& forall|i: int| 0 <= i < v.len() ==> spec_is_digit(v[i]) || spec_is_phone_punct(v[i])
    &&& exists|i: int| 0 <= i < v.len() && spec_is_digit(v[i])
}

/// The digits of a value, in order, everything else dropped.
pub open spec fn spec_digits_of(v: Seq<u8>) -> Seq<u8>
    decreases v.len(),
{
    if v.len() == 0 {
        Seq::empty()
    } else if spec_is_digit(v.last()) {
        spec_digits_of(v.drop_last()).push(v.last())
    } else {
        spec_digits_of(v.drop_last())
    }
}

/// How a raw sender value is classified, by precedence: phone shape
/// first, then `@`, else a plain identifier.
pub open spec fn spec_classify(v: Seq<u8>) -> SenderMatcherView {
    if spec_is_phone_shaped(v) {
        SenderMatcherView::PhoneDigits(spec_digits_of(v))
    } else if v.contains(64u8) {
        SenderMatcherView::Email(v)
    } else {
        SenderMatcherView::RawIdentifier(v)
    }
}

/// Keeps only the digits of a value.
pub fn digits_of(v: &[u8]) -> (r: Vec<u8>)
    ensures
        r@ == spec_digits_of(v@),
{
    let mut out: Vec<u8> = Vec::new();
    let mut i: usize = 0;
    proof {
        assert(v@.subrange(0, 0) =~= Seq::<u8>::empty());
    }
    while i < v.len()
        invariant
            i <= v@.len(),
            out@ == spec_digits_of(v@.subrange(0, i as int)),
        decreases v@.len() - i,
    {
        let ghost pre = v@.subrange(0, i as int);
        let ghost post = v@.subrange(0, i as int + 1);
        proof {
            assert(post.drop_last() =~= pre);
            assert(post.last() == v@[i as int]);
        }
        let b = v[i];
        if 48 <= b && b <= 57 {
            out.push(b);
        }
        i = i + 1;
    }
    proof {
        assert(v@.subrange(0, v@.len() as int) =~= v@);
    }
    out
}

/// Classifies a raw sender value into its matcher.
pub fn classify_sender(v: Vec<u8>) -> (r: SenderMatcher)
    ensures
        r@ == spec_classify(v@),
{
    let mut all_phone: bool = true;
    let mut any_digit: bool = false;
    let mut any_at: bool = false;
    let mut i: usize = 0;
    while i < v.len()
        invariant
            i <= v@.len(),
            all_phone == (forall|j: int|
                0 <= j < i ==> spec_is_digit(v@[j]) || spec_is_phone_punct(v@[j])),
            any_digit == (exists|j: int| 0 <= j < i && spec_is_digit(v@[j])),
            any_at == (exists|j: int| 0 <= j < i && v@[j] == 64u8),
        decreases v@.len() - i,
    {
        let b = v[i];
        if !(48 <= b && b <= 57 || b == 32 || b == 43 || b == 45 || b == 40 || b == 41 || b
            == 46) {
            all_phone = false;
        }
        if 48 <= b && b <= 57 {
            any_digit = true;
        }
        if b == 64 {
            any_at = true;
        }
        i = i + 1;
    }
    if v.len() > 0 && all_phone && any_digit {
        let d = digits_of(v.as_slice());
        SenderMatcher::PhoneDigits(d)
    } else if any_at {
        SenderMatcher::Email(v)
    } else {
        SenderMatcher::RawIdentifier(v)
    }
}

/// The digits a phone matcher compares: the last ten, or all of them
/// where there are no more than ten.
pub open spec fn spec_phone_suffix(d: Seq<u8>) -> Seq<u8> {
    if d.len() > 10 {
        d.subrange(d.len() - 10, d.len() as int)
    } else {
        d
    }
}

/// The comparison digits of a phone matcher.
pub fn phone_suffix(d: &[u8]) -> (r: Vec<u8>)
    ensures
        r@ == spec_phone_suffix(d@),
{
    if d.len() > 10 {
        vstd::slice::slice_to_vec(vstd::slice::slice_subrange(d, d.len() - 10, d.len()))
    } else {
        vstd::slice::slice_to_vec(d)
    }
}

pub open spec fn spec_is_suffix_of(suf: Seq<u8>, s: Seq<u8>) -> bool {
    suf.len() <= s.len() && s.subrange(s.len() - suf.len(), s.len() as int) == suf
}

/// ASCII letters lowered, all other bytes untouched.
pub open spec fn spec_ascii_lower(v: Seq<u8>) -> Seq<u8> {
    v.map_values(
        |b: u8|
            if 65 <= b && b <= 90 {
                (b + 32) as u8
            } else {
                b
            },
    )
}

pub open spec fn spec_contains_sub(hay: Seq<u8>, needle: Seq<u8>) -> bool {
    exists|k: int|
        0 <= k <= hay.len() - needle.len() && #[trigger] hay.subrange(k, k + needle.len())
            == needle
}

/// What it means for one matcher to accept a stored sender identifier.
pub open spec fn spec_matcher_matches(m: SenderMatcherView, ident: Seq<u8>) -> bool {
    match m {
        SenderMatcherView::PhoneDigits(d) => spec_is_suffix_of(
            spec_phone_suffix(d),
            spec_digits_of(ident),
        ),
        SenderMatcherView::Email(e) => spec_ascii_lower(e) == spec_ascii_lower(ident),
        SenderMatcherView::RawIdentifier(r) => spec_contains_sub(ident, r),
    }
}

fn range_eq(hay: &[u8], at: usize, needle: &[u8]) -> (r: bool)
    requires
        at + needle@.len() <= hay@.len(),
    ensures
        r == (hay@.subrange(at as int, at as int + needle@.len()) == needle@),
{
    let hn = hay.len();
    let mut j: usize = 0;
    while j < needle.len()
        invariant
            j <= needle@.len(),
            at + needle@.len() <= hay@.len(),
            hay@.len() == hn,
            forall|k: int| 0 <= k < j ==> hay@[at + k] == needle@[k],
        decreases needle@.len() - j,
    {
        if hay[at + j] != needle[j] {
            proof {
                assert(hay@.subrange(at as int, at as int + needle@.len())[j as int] != needle@[j as int]);
            }
            return false;
        }
        j = j + 1;
    }
    proof {
        assert(hay@.subrange(at as int, at as int + needle@.len()) =~= needle@);
    }
    true
}

/// Whether `needle` occurs anywhere inside `hay`.
pub fn contains_sub(hay: &[u8], needle: &[u8]) -> (r: bool)
    ensures
        r == spec_contains_sub(hay@, needle@),
{
    if needle.len() > hay.len() {
        return false;
    }
    if needle.len() == 0 {
        proof {
            assert(hay@.subrange(0, 0 + needle@.len() as int) =~= needle@);
        }
        return true;
    }
    let hn = hay.len();
    let mut k: usize = 0;
    while k <= hay.len() - needle.len()
        invariant
            1 <= needle@.len() <= hay@.len(),
            hay@.len() == hn,
            k <= hay@.len() - needle@.len() + 1,
            forall|k2: int|
                0 <= k2 < k ==> #[trigger] hay@.subrange(k2, k2 + needle@.len()) != needle@,
        decreases hay@.len() - needle@.len() + 1 - k,
    {
        if range_eq(hay, k, needle) {
            return true;
        }
        k = k + 1;
    }
    false
}

fn is_suffix_of(suf: &[u8], s: &[u8]) -> (r: bool)
    ensures
        r == spec_is_suffix_of(suf@, s@),
{
    if suf.len() > s.len() {
        return false;
    }
    range_eq(s, s.len() - suf.len(), suf)
}

fn lower_eq(a: &[u8], b: &[u8]) -> (r: bool)
    ensures
        r == (spec_ascii_lower(a@) == spec_ascii_lower(b@)),
{
    if a.len() != b.len() {
        proof {
            assert(spec_ascii_lower(a@).len() == a@.len());
            assert(spec_ascii_lower(b@).len() == b@.len());
        }
        return false;
    }
    let mut i: usize = 0;
    while i < a.len()
        invariant
            a@.len() == b@.len(),
            i <= a@.len(),
            forall|j: int| 0 <= j < i ==> spec_ascii_lower(a@)[j] == spec_ascii_lower(b@)[j],
        decreases a@.len() - i,
    {
        let mut x = a[i];
        let mut y = b[i];
        if 65 <= x && x <= 90 {
            x = x + 32;
        }
        if 65 <= y && y <= 90 {
            y = y + 32;
        }
        if x != y {
            proof {
                assert(spec_ascii_lower(a@)[i as int] != spec_ascii_lower(b@)[i as int]);
            }
            return false;
        }
        i = i + 1;
    }
    proof {
        assert(spec_ascii_lower(a@) =~= spec_ascii_lower(b@));
    }
    true
}

/// Whether one matcher accepts a stored sender identifier.
pub fn matcher_matches(m: &SenderMatcher, ident: &[u8]) -> (r: bool)
    ensures
        r == spec_matcher_matches(m@, ident@),
{
    match m {
        SenderMatcher::PhoneDigits(d) => {
            let suf = phone_suffix(d.as_slice());
            let ident_digits = digits_of(ident);
            is_suffix_of(suf.as_slice(), ident_digits.as_slice())
        },
        SenderMatcher::Email(e) => lower_eq(e.as_slice(), ident),
        SenderMatcher::RawIdentifier(r) => contains_sub(ident, r.as_slice()),
    }
}

/// Whether a message sender matches any one of the matchers: several
/// sender filters combine by *or*.
pub open spec fn spec_any_matcher_matches(ms: Seq<SenderMatcherView>, ident: Seq<u8>) -> bool {
    exists|i: int| 0 <= i < ms.len() && spec_matcher_matches(ms[i], ident)
}

/// A sender identifier passes a list of matchers exactly when some
/// one matcher accepts it.
pub fn any_matcher_matches(ms: &Vec<SenderMatcher>, ident: &[u8]) -> (r: bool)
    ensures
        r == spec_any_matcher_matches(matcher_views(ms@), ident@),
{
    let mut i: usize = 0;
    while i < ms.len()
        invariant
            i <= ms@.len(),
            forall|j: int|
                0 <= j < i ==> !spec_matcher_matches(matcher_views(ms@)[j], ident@),
        decreases ms@.len() - i,
    {
        if matcher_matches(&ms[i], ident) {
            proof {
                assert(matcher_views(ms@)[i as int] == ms@[i as int]@);
            }
            return true;
        }
        i = i + 1;
    }
    false
}

} // verus!
