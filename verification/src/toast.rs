//! Toast notifications: which messages read as errors, how a long message
//! becomes a headline and a detail, and how long a toast stays.

use vstd::prelude::*;
use crate::client::opt_view;
use crate::text::{
    ascii_lower_all, before_char, chars_of, contains, contains_chars, index_of, is_whitespace,
    is_ws, lower_ascii_chars, owned, push_char, push_str, starts_with, starts_with_chars,
    string_of, trim, trimmed,
};

verus! {

/// The kind of a toast.
#[derive(Clone, Copy, Debug, PartialEq, Eq)]
pub enum ToastKind {
    Success,
    Error,
    Info,
}

/// Words that mark a message as an error, in any ASCII case.
pub open spec fn error_words() -> Seq<Seq<char>> {
    seq![
        "fail"@,
        "error"@,
        "invalid"@,
        "unable"@,
        "denied"@,
        "unauthorized"@,
        "forbidden"@,
        "not found"@,
        "timeout"@,
        "panic"@,
        "api key missing"@,
    ]
}

/// A message reads as an error when, ASCII case aside, it holds one of the
/// error words or starts with `llm error`.
pub open spec fn errorish(message: Seq<char>) -> bool {
    let lower = ascii_lower_all(message);
    (exists|k: int| 0 <= k < error_words().len() && contains(lower, #[trigger] error_words()[k]))
        || starts_with(lower, "llm error"@)
}

pub fn looks_like_error(message: &str) -> (r: bool)
    ensures
        r == errorish(message@),
{
    let lower = lower_ascii_chars(message);
    let words: [&str; 11] = [
        "fail",
        "error",
        "invalid",
        "unable",
        "denied",
        "unauthorized",
        "forbidden",
        "not found",
        "timeout",
        "panic",
        "api key missing",
    ];
    proof {
        reveal_strlit("fail");
        reveal_strlit("error");
        reveal_strlit("invalid");
        reveal_strlit("unable");
        reveal_strlit("denied");
        reveal_strlit("unauthorized");
        reveal_strlit("forbidden");
        reveal_strlit("not found");
        reveal_strlit("timeout");
        reveal_strlit("panic");
        reveal_strlit("api key missing");
        reveal_strlit("llm error");
        assert(words@.len() == 11);
        assert forall|k: int| 0 <= k < 11 implies words@[k]@ == error_words()[k] by {}
    }
    let mut i: usize = 0;
    while i < 11
        invariant
            i <= 11,
            words@.len() == 11,
            lower@ == ascii_lower_all(message@),
            forall|k: int| 0 <= k < 11 ==> words@[k]@ == error_words()[k],
            forall|k: int| 0 <= k < i ==> !contains(lower@, #[trigger] error_words()[k]),
        decreases 11 - i,
    {
        if contains_chars(&lower, &chars_of(words[i])) {
            assert(contains(lower@, error_words()[i as int]));
            return true;
        }
        i = i + 1;
    }
    starts_with_chars(&lower, &chars_of("llm error"))
}

/// Whether a message reads as an error does not depend on ASCII case.
pub proof fn lemma_errorish_ignores_ascii_case(message: Seq<char>)
    ensures
        errorish(ascii_lower_all(message)) == errorish(message),
{
    assert(ascii_lower_all(ascii_lower_all(message)) =~= ascii_lower_all(message));
}

/// Characters dropped from the end of a cut headline.
pub open spec fn is_cut_junk(c: char) -> bool {
    is_ws(c) || c == ',' || c == ':' || c == '{'
}

/// `s` without trailing whitespace, commas, colons and opening braces.
pub open spec fn strip_cut_junk(s: Seq<char>) -> Seq<char>
    decreases s.len(),
{
    if s.len() > 0 && is_cut_junk(s.last()) {
        strip_cut_junk(s.drop_last())
    } else {
        s
    }
}

/// The longest a one-line headline gets before it is cut.
pub const HEAD_LIMIT: usize = 120;

/// The headline and the detail of a toast message. The message is trimmed.
/// When it has a second line with text, the trimmed first line is the
/// headline and the trimmed rest the detail. Otherwise a message of more
/// than [`HEAD_LIMIT`] characters is cut to that many, stripped of trailing
/// separators and ended with `…`, with the whole message as detail.
pub open spec fn toast_parts(message: Seq<char>) -> (Seq<char>, Option<Seq<char>>) {
    let t = trim(message);
    let head = before_char(t, '\n');
    let rest = trim(t.skip(head.len() + 1int));
    if t.len() == 0 {
        (Seq::empty(), None)
    } else if head.len() < t.len() && rest.len() > 0 {
        (trim(head), Some(rest))
    } else if t.len() > HEAD_LIMIT {
        (strip_cut_junk(t.take(HEAD_LIMIT as int)).push('…'), Some(t))
    } else {
        (t, None)
    }
}

/// Splits a message into a short headline and an expandable detail.
pub fn split_toast_parts(message: &str) -> (r: (String, Option<String>))
    ensures
        (r.0@, opt_view(r.1)) == toast_parts(message@),
{
    let t = trimmed(message);
    let cs = chars_of(t.as_str());
    if cs.len() == 0 {
        return (String::new(), None);
    }
    let nl = index_of(&cs, 0, '\n');
    proof {
        assert(cs@.skip(0) =~= cs@);
    }
    if nl < cs.len() {
        let head = string_of(&cs, 0, nl);
        let rest_raw = string_of(&cs, nl + 1, cs.len());
        assert(rest_raw@ =~= cs@.skip(head@.len() + 1int));
        let rest = trimmed(rest_raw.as_str());
        if !rest.as_str().is_empty() {
            return (trimmed(head.as_str()), Some(rest));
        }
    }
    if cs.len() > HEAD_LIMIT {
        let mut end: usize = HEAD_LIMIT;
        while end > 0 && (is_whitespace(cs[end - 1]) || cs[end - 1] == ',' || cs[end - 1] == ':'
            || cs[end - 1] == '{')
            invariant
                end <= HEAD_LIMIT < cs@.len(),
                strip_cut_junk(cs@.take(end as int)) == strip_cut_junk(cs@.take(HEAD_LIMIT as int)),
            decreases end,
        {
            assert(cs@.take(end as int).drop_last() =~= cs@.take(end - 1));
            end = end - 1;
        }
        let mut head = string_of(&cs, 0, end);
        assert(head@ =~= cs@.take(end as int));
        push_char(&mut head, '…');
        return (head, Some(t));
    }
    (t, None)
}

/// How long a toast stays, in milliseconds: errors with a detail longest.
pub open spec fn timeout_for(kind: ToastKind, has_detail: bool) -> u32 {
    match kind {
        ToastKind::Error => if has_detail {
            8000
        } else {
            5000
        },
        ToastKind::Success => 2400,
        ToastKind::Info => 2800,
    }
}

pub fn toast_timeout_ms(kind: ToastKind, has_detail: bool) -> (r: u32)
    ensures
        r == timeout_for(kind, has_detail),
{
    match kind {
        ToastKind::Error => if has_detail {
            8000
        } else {
            5000
        },
        ToastKind::Success => 2400,
        ToastKind::Info => 2800,
    }
}

/// The kind of a plain toast: an error when the message reads as one.
pub fn toast_kind_for(message: &str) -> (r: ToastKind)
    ensures
        r == (if errorish(message@) {
            ToastKind::Error
        } else {
            ToastKind::Info
        }),
{
    if looks_like_error(message) {
        ToastKind::Error
    } else {
        ToastKind::Info
    }
}

/// A detail counts when it has text other than whitespace.
pub fn has_visible_detail(detail: &Option<String>) -> (r: bool)
    ensures
        r == (match detail {
            Some(d) => trim(d@).len() > 0,
            None => false,
        }),
{
    match detail {
        Some(d) => !trimmed(d.as_str()).as_str().is_empty(),
        None => false,
    }
}

/// The detail of an error toast: the caller's detail and the detail split
/// off the message, one per line when both are there and differ.
pub open spec fn merged_detail(given: Option<Seq<char>>, split: Option<Seq<char>>) -> Option<
    Seq<char>,
> {
    match (given, split) {
        (Some(d), Some(s)) => if d != s {
            Some(d + seq!['\n'] + s)
        } else {
            Some(d)
        },
        (Some(d), None) => Some(d),
        (None, s) => s,
    }
}

pub fn merge_detail(given: Option<String>, split: Option<String>) -> (r: Option<String>)
    ensures
        opt_view(r) == merged_detail(opt_view(given), opt_view(split)),
{
    match given {
        Some(d) => match split {
            Some(s) => {
                if crate::text::str_eq(d.as_str(), s.as_str()) {
                    Some(d)
                } else {
                    let mut m = d;
                    push_char(&mut m, '\n');
                    push_str(&mut m, s.as_str());
                    Some(m)
                }
            },
            None => Some(d),
        },
        None => split,
    }
}

/// A message reads as an error exactly when, ASCII case aside, it holds
/// one of the error words or starts with `llm error`.
pub proof fn lemma_error_words(message: Seq<char>)
    ensures
        contains(ascii_lower_all(message), "fail"@) ==> errorish(message),
        contains(ascii_lower_all(message), "error"@) ==> errorish(message),
        contains(ascii_lower_all(message), "invalid"@) ==> errorish(message),
        contains(ascii_lower_all(message), "unable"@) ==> errorish(message),
        contains(ascii_lower_all(message), "denied"@) ==> errorish(message),
        contains(ascii_lower_all(message), "unauthorized"@) ==> errorish(message),
        contains(ascii_lower_all(message), "forbidden"@) ==> errorish(message),
        contains(ascii_lower_all(message), "not found"@) ==> errorish(message),
        contains(ascii_lower_all(message), "timeout"@) ==> errorish(message),
        contains(ascii_lower_all(message), "panic"@) ==> errorish(message),
        contains(ascii_lower_all(message), "api key missing"@) ==> errorish(message),
        starts_with(ascii_lower_all(message), "llm error"@) ==> errorish(message),
        errorish(message) ==> (contains(ascii_lower_all(message), "fail"@)
            || contains(ascii_lower_all(message), "error"@)
            || contains(ascii_lower_all(message), "invalid"@)
            || contains(ascii_lower_all(message), "unable"@)
            || contains(ascii_lower_all(message), "denied"@)
            || contains(ascii_lower_all(message), "unauthorized"@)
            || contains(ascii_lower_all(message), "forbidden"@)
            || contains(ascii_lower_all(message), "not found"@)
            || contains(ascii_lower_all(message), "timeout"@)
            || contains(ascii_lower_all(message), "panic"@)
            || contains(ascii_lower_all(message), "api key missing"@)
            || starts_with(ascii_lower_all(message), "llm error"@)),
{
    if errorish(message) && !starts_with(ascii_lower_all(message), "llm error"@) {
        let k = choose|k: int|
            0 <= k < error_words().len() && contains(ascii_lower_all(message), #[trigger] error_words()[k]);
        assert(error_words()[0] == "fail"@);
        assert(error_words()[1] == "error"@);
        assert(error_words()[2] == "invalid"@);
        assert(error_words()[3] == "unable"@);
        assert(error_words()[4] == "denied"@);
        assert(error_words()[5] == "unauthorized"@);
        assert(error_words()[6] == "forbidden"@);
        assert(error_words()[7] == "not found"@);
        assert(error_words()[8] == "timeout"@);
        assert(error_words()[9] == "panic"@);
        assert(error_words()[10] == "api key missing"@);
    }
    assert(error_words()[0] == "fail"@);
    assert(contains(ascii_lower_all(message), "fail"@)
        ==> contains(ascii_lower_all(message), error_words()[0]));
    assert(contains(ascii_lower_all(message), "error"@)
        ==> contains(ascii_lower_all(message), error_words()[1]));
    assert(contains(ascii_lower_all(message), "invalid"@)
        ==> contains(ascii_lower_all(message), error_words()[2]));
    assert(contains(ascii_lower_all(message), "unable"@)
        ==> contains(ascii_lower_all(message), error_words()[3]));
    assert(contains(ascii_lower_all(message), "denied"@)
        ==> contains(ascii_lower_all(message), error_words()[4]));
    assert(contains(ascii_lower_all(message), "unauthorized"@)
        ==> contains(ascii_lower_all(message), error_words()[5]));
    assert(contains(ascii_lower_all(message), "forbidden"@)
        ==> contains(ascii_lower_all(message), error_words()[6]));
    assert(contains(ascii_lower_all(message), "not found"@)
        ==> contains(ascii_lower_all(message), error_words()[7]));
    assert(contains(ascii_lower_all(message), "timeout"@)
        ==> contains(ascii_lower_all(message), error_words()[8]));
    assert(contains(ascii_lower_all(message), "panic"@)
        ==> contains(ascii_lower_all(message), error_words()[9]));
    assert(contains(ascii_lower_all(message), "api key missing"@)
        ==> contains(ascii_lower_all(message), error_words()[10]));
}

/// Error toasts stay longest, and longer still with a detail; info toasts
/// stay longer than success toasts.
pub proof fn lemma_toast_timeouts(has_detail: bool, other: bool)
    ensures
        timeout_for(ToastKind::Error, true) == 8000,
        timeout_for(ToastKind::Error, false) == 5000,
        timeout_for(ToastKind::Info, has_detail) == 2800,
        timeout_for(ToastKind::Success, has_detail) == 2400,
        timeout_for(ToastKind::Error, true) > timeout_for(ToastKind::Error, false),
        timeout_for(ToastKind::Error, other) > timeout_for(ToastKind::Info, has_detail),
        timeout_for(ToastKind::Info, other) > timeout_for(ToastKind::Success, has_detail),
{
}

/// The detail of an error toast keeps the caller's detail first; the split
/// detail follows on its own line when it is there and differs, and stands
/// alone when the caller gave none.
pub proof fn lemma_merged_detail(given: Option<Seq<char>>, split: Option<Seq<char>>)
    ensures
        given is None ==> merged_detail(given, split) == split,
        given is Some && split is None ==> merged_detail(given, split) == given,
        given is Some && split == given ==> merged_detail(given, split) == given,
        given is Some && split is Some && split != given ==> merged_detail(given, split) == Some(
            given->0 + seq!['\n'] + split->0,
        ),
{
}

/// A one-line headline is never longer than [`HEAD_LIMIT`] characters and
/// `…`; a longer headline is the first line of a message that has more.
pub proof fn lemma_headline_short(message: Seq<char>)
    ensures
        toast_parts(message).0.len() <= HEAD_LIMIT + 1 || (toast_parts(message).1 is Some
            && toast_parts(message).0 == trim(before_char(trim(message), '\n'))),
{
    let t = trim(message);
    if t.len() > HEAD_LIMIT {
        lemma_strip_cut_junk_len(t.take(HEAD_LIMIT as int));
    }
}

proof fn lemma_strip_cut_junk_len(s: Seq<char>)
    ensures
        strip_cut_junk(s).len() <= s.len(),
    decreases s.len(),
{
    if s.len() > 0 && is_cut_junk(s.last()) {
        lemma_strip_cut_junk_len(s.drop_last());
    }
}

} // verus!
