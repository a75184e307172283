//! Card timestamps for people: the form handed to the browser's date
//! parser, and "in 3 hours" / "2 days ago" phrases.

use vstd::prelude::*;
use vstd::utf8::*;
use crate::text::{decimal, owned, push_char, push_decimal, push_str, trim, trimmed};

verus! {

broadcast use {vstd::string::group_string_axioms, vstd::utf8::group_utf8_lib};

/// The UTF-8 encoding of `a + b` is the encodings of `a` and `b` in turn.
pub proof fn lemma_encode_concat(a: Seq<char>, b: Seq<char>)
    ensures
        encode_utf8(a + b) == encode_utf8(a) + encode_utf8(b),
    decreases a.len(),
{
    if a.len() == 0 {
        assert(a + b =~= b);
        assert(encode_utf8(a) + encode_utf8(b) =~= encode_utf8(b));
    } else {
        lemma_encode_concat(a.drop_first(), b);
        assert((a + b).drop_first() =~= a.drop_first() + b);
        assert((a + b)[0] == a[0]);
        assert(encode_utf8(a + b) =~= encode_utf8(a) + encode_utf8(b));
    }
}

proof fn lemma_encode_ascii_char(c: char)
    requires
        '\0' <= c <= '\u{7f}',
    ensures
        encode_utf8(seq![c]) == seq![c as u8],
{
    let s = seq![c];
    assert(is_ascii_chars(s));
    is_ascii_chars_encode_utf8(s);
    assert(encode_utf8(s) =~= seq![c as u8]);
}

/// The bytes of a timestamp as the date parser gets them: `YYYY-MM-DD hh:mm:ss`
/// (19 bytes, a space at byte 10) becomes `YYYY-MM-DDThh:mm:ssZ`; anything else
/// stays as it is.
pub open spec fn parser_form(t: Seq<char>) -> Seq<u8> {
    let b = encode_utf8(t);
    if b.len() == 19 && b[10] == 32u8 {
        b.take(10) + seq![84u8] + b.subrange(11, 19) + seq![90u8]
    } else {
        b
    }
}

/// The trimmed timestamp in the form the date parser reads; `None` for a blank one.
pub fn normalize_timestamp(value: &str) -> (r: Option<String>)
    ensures
        match r {
            Some(s) => trim(value@).len() > 0 && encode_utf8(s@) == parser_form(trim(value@)),
            None => trim(value@).len() == 0,
        },
{
    let t = trimmed(value);
    let ts = t.as_str();
    if ts.is_empty() {
        return None;
    }
    let b = ts.as_bytes();
    if b.len() == 19 && b[10] == 32u8 {
        let ghost bytes = b@;
        proof {
            assert(bytes == encode_utf8(t@));
            assert(!is_continuation_byte(bytes[10]));
            assert(is_char_boundary(bytes, 10));
        }
        let (head, tail) = ts.split_at(10);
        proof {
            let tb = encode_utf8(tail@);
            assert(tb =~= bytes.subrange(10, 19));
            assert(valid_utf8(tb));
            assert(tb[0] == 32u8);
            assert(length_of_first_scalar(tb) == 1);
            assert(is_char_boundary(pop_first_scalar(tb), 0));
            assert(is_char_boundary(tb, 1));
        }
        let (_, rest) = tail.split_at(1);
        let mut out = owned(head);
        push_char(&mut out, 'T');
        push_str(&mut out, rest);
        push_char(&mut out, 'Z');
        proof {
            lemma_encode_ascii_char('T');
            lemma_encode_ascii_char('Z');
            lemma_encode_concat(head@, seq!['T']);
            lemma_encode_concat(head@ + seq!['T'], rest@);
            lemma_encode_concat(head@ + seq!['T'] + rest@, seq!['Z']);
            assert(out@ == head@ + seq!['T'] + rest@ + seq!['Z']);
            assert(encode_utf8(rest@) =~= bytes.subrange(11, 19));
            assert(encode_utf8(out@) =~= parser_form(trim(value@)));
        }
        Some(out)
    } else {
        Some(t)
    }
}

/// `d` without its sign.
pub open spec fn abs_seconds(d: i64) -> nat {
    if d < 0 {
        (-d) as nat
    } else {
        d as nat
    }
}

/// How a time `delta` seconds away reads: "just now" within a minute; whole
/// minutes, hours or days ("in 1 hour", "3 days ago") within a week; past
/// that there is no phrase (the date itself is shown).
pub open spec fn relative_text(delta: i64) -> Option<Seq<char>> {
    let a = abs_seconds(delta);
    if a < 60 {
        Some("just now"@)
    } else if a >= 604800 {
        None
    } else {
        let amount: nat = if a < 3600 {
            a / 60
        } else if a < 86400 {
            a / 3600
        } else {
            a / 86400
        };
        let unit = if a < 3600 {
            "minute"@
        } else if a < 86400 {
            "hour"@
        } else {
            "day"@
        };
        let unit = if amount == 1 {
            unit
        } else {
            unit + "s"@
        };
        let phrase = decimal(amount) + " "@ + unit;
        Some(
            if delta < 0 {
                phrase + " ago"@
            } else {
                "in "@ + phrase
            },
        )
    }
}

/// The count of whole units, and the unit, that a time `a` seconds away is
/// read in: minutes under an hour, hours under a day, days otherwise.
pub open spec fn units_phrase(count: nat, unit: Seq<char>) -> Seq<char> {
    decimal(count) + " "@ + if count == 1 {
        unit
    } else {
        unit + "s"@
    }
}

/// A time within a minute reads "just now", one a week or more away has no
/// phrase, and any other reads in whole minutes (under an hour), hours
/// (under a day) or days, as "in ..." ahead and "... ago" behind.
pub proof fn lemma_relative_phrases(delta: i64)
    ensures
        -60 < delta < 60 ==> relative_text(delta) == Some("just now"@),
        delta >= 604800 || delta <= -604800 ==> relative_text(delta) is None,
        60 <= delta < 3600 ==> relative_text(delta) == Some(
            "in "@ + units_phrase((delta / 60) as nat, "minute"@),
        ),
        3600 <= delta < 86400 ==> relative_text(delta) == Some(
            "in "@ + units_phrase((delta / 3600) as nat, "hour"@),
        ),
        86400 <= delta < 604800 ==> relative_text(delta) == Some(
            "in "@ + units_phrase((delta / 86400) as nat, "day"@),
        ),
        -3600 < delta <= -60 ==> relative_text(delta) == Some(
            units_phrase(((-delta) / 60) as nat, "minute"@) + " ago"@,
        ),
        -86400 < delta <= -3600 ==> relative_text(delta) == Some(
            units_phrase(((-delta) / 3600) as nat, "hour"@) + " ago"@,
        ),
        -604800 < delta <= -86400 ==> relative_text(delta) == Some(
            units_phrase(((-delta) / 86400) as nat, "day"@) + " ago"@,
        ),
{
}

/// A time as far behind as another is ahead reads with the same words,
/// "... ago" in place of "in ...".
pub proof fn lemma_relative_sides(delta: i64)
    requires
        60 <= delta < 604800,
    ensures
        relative_text(delta) matches Some(ahead) && relative_text((-delta) as i64) matches Some(
            behind,
        ) && ahead.len() >= 3 && ahead.take(3) == "in "@ && behind == ahead.skip(3) + " ago"@,
{
    reveal_strlit("in ");
    let a = abs_seconds(delta);
    assert(abs_seconds((-delta) as i64) == a);
    let amount: nat = if a < 3600 {
        a / 60
    } else if a < 86400 {
        a / 3600
    } else {
        a / 86400
    };
    let unit = if a < 3600 {
        "minute"@
    } else if a < 86400 {
        "hour"@
    } else {
        "day"@
    };
    let unit = if amount == 1 {
        unit
    } else {
        unit + "s"@
    };
    let phrase = decimal(amount) + " "@ + unit;
    assert(relative_text(delta) == Some("in "@ + phrase));
    assert(relative_text((-delta) as i64) == Some(phrase + " ago"@));
    assert(("in "@ + phrase).take(3) =~= "in "@);
    assert(("in "@ + phrase).skip(3) =~= phrase);
}

pub fn relative_time(delta: i64) -> (r: Option<String>)
    ensures
        match r {
            Some(s) => relative_text(delta) == Some(s@),
            None => relative_text(delta) is None,
        },
{
    let a: u64 = if delta < 0 {
        if delta == i64::MIN {
            9223372036854775808u64
        } else {
            (-delta) as u64
        }
    } else {
        delta as u64
    };
    assert(a == abs_seconds(delta));
    if a < 60 {
        return Some(owned("just now"));
    }
    if a >= 604800 {
        return None;
    }
    let (amount, unit) = if a < 3600 {
        (a / 60, "minute")
    } else if a < 86400 {
        (a / 3600, "hour")
    } else {
        (a / 86400, "day")
    };
    let mut phrase = String::new();
    push_decimal(&mut phrase, amount);
    push_char(&mut phrase, ' ');
    push_str(&mut phrase, unit);
    if amount != 1 {
        push_char(&mut phrase, 's');
    }
    proof {
        reveal_strlit("s");
        reveal_strlit(" ");
        assert(" "@ =~= seq![' ']);
        assert("s"@ =~= seq!['s']);
    }
    let r = if delta < 0 {
        push_str(&mut phrase, " ago");
        phrase
    } else {
        let mut s = owned("in ");
        push_str(&mut s, phrase.as_str());
        s
    };
    proof {
        let unit_text = if amount == 1 {
            unit@
        } else {
            unit@ + "s"@
        };
        assert(decimal(amount as nat) + " "@ + unit_text =~= (if amount == 1 {
            decimal(amount as nat) + seq![' '] + unit@
        } else {
            decimal(amount as nat) + seq![' '] + unit@ + seq!['s']
        }));
    }
    Some(r)
}

} // verus!
