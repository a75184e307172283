//! Labels the grounding pages derive from user text: icon names, titles
//! taken from URLs, and how pasted sources are read.

use vstd::prelude::*;
use crate::codec::strings_view;
use crate::text::{
    before_char, chars_of, find_chars, occurs_at, first_occurrence, index_of, is_whitespace, is_ws, owned,
    push_char, push_decimal, push_str, starts_with, starts_with_chars, string_of, decimal, trim,
    trimmed,
};

verus! {

// ------------------------------------------------------------------
// Character sequences
// ------------------------------------------------------------------

/// The part of `s` after its last `c`, or all of it.
pub open spec fn after_last(s: Seq<char>, c: char) -> Seq<char>
    decreases s.len(),
{
    if s.len() == 0 {
        s
    } else if s.last() == c {
        Seq::empty()
    } else {
        after_last(s.drop_last(), c).push(s.last())
    }
}

/// `s` without its trailing `c`s.
pub open spec fn trim_end_char(s: Seq<char>, c: char) -> Seq<char>
    decreases s.len(),
{
    if s.len() > 0 && s.last() == c {
        trim_end_char(s.drop_last(), c)
    } else {
        s
    }
}

/// The words of `s`: its maximal runs of non-whitespace characters, as
/// `str::split_whitespace` gives them.
pub open spec fn words(s: Seq<char>) -> Seq<Seq<char>>
    decreases s.len(),
{
    if s.len() == 0 {
        Seq::empty()
    } else {
        let ws = words(s.drop_last());
        let c = s.last();
        if is_ws(c) {
            ws
        } else if s.len() >= 2 && !is_ws(s[s.len() - 2]) {
            ws.update(ws.len() - 1, ws.last().push(c))
        } else {
            ws.push(seq![c])
        }
    }
}

/// What `char::to_uppercase` gives for `c`: its Unicode uppercase mapping.
pub uninterp spec fn uppercase_of(c: char) -> Seq<char>;

/// Calls `char::to_uppercase` and collects the characters it yields.
///
/// The contract names the result (`uppercase_of`); the Unicode case
/// tables are not restated here.
#[verifier::external_body]
fn uppercase_char(c: char) -> (r: String)
    ensures
        r@ == uppercase_of(c),
{
    c.to_uppercase().collect()
}

/// `w` with its first character in upper case.
pub open spec fn capitalized(w: Seq<char>) -> Seq<char> {
    if w.len() == 0 {
        w
    } else {
        uppercase_of(w[0]) + w.skip(1)
    }
}

/// The words `ws`, each capitalized, joined by single spaces.
pub open spec fn titled(ws: Seq<Seq<char>>) -> Seq<char>
    decreases ws.len(),
{
    if ws.len() == 0 {
        Seq::empty()
    } else if ws.len() == 1 {
        capitalized(ws[0])
    } else {
        titled(ws.drop_last()) + seq![' '] + capitalized(ws.last())
    }
}

fn sub_chars(v: &Vec<char>, from: usize, to: usize) -> (r: Vec<char>)
    requires
        from <= to <= v@.len(),
    ensures
        r@ == v@.subrange(from as int, to as int),
{
    let mut out: Vec<char> = Vec::new();
    let mut i = from;
    while i < to
        invariant
            from <= i <= to <= v@.len(),
            out@ == v@.subrange(from as int, i as int),
        decreases to - i,
    {
        out.push(v[i]);
        assert(out@ =~= v@.subrange(from as int, i + 1));
        i = i + 1;
    }
    out
}

/// Where the last `c` before `end` sits, plus one (0 when there is none).
fn after_last_index(v: &Vec<char>, end: usize, c: char) -> (r: usize)
    requires
        end <= v@.len(),
    ensures
        r <= end,
        v@.subrange(r as int, end as int) == after_last(v@.take(end as int), c),
{
    let mut k = end;
    while k > 0 && v[k - 1] != c
        invariant
            k <= end <= v@.len(),
            after_last(v@.take(end as int), c) == after_last(v@.take(k as int), c) + v@.subrange(
                k as int,
                end as int,
            ),
        decreases k,
    {
        let ghost t = v@.take(k as int);
        assert(t.drop_last() =~= v@.take(k - 1));
        assert(v@.subrange(k - 1, end as int) =~= seq![t.last()] + v@.subrange(
            k as int,
            end as int,
        ));
        assert(after_last(t, c) == after_last(v@.take(k - 1), c).push(t.last()));
        assert(after_last(v@.take(k - 1), c).push(t.last()) + v@.subrange(k as int, end as int)
            =~= after_last(v@.take(k - 1), c) + v@.subrange(k - 1, end as int));
        k = k - 1;
    }
    if k > 0 {
        assert(v@.take(k as int).last() == c);
    } else {
        assert(v@.take(0) =~= Seq::<char>::empty());
    }
    assert(after_last(v@.take(k as int), c) =~= Seq::<char>::empty());
    assert(Seq::<char>::empty() + v@.subrange(k as int, end as int) =~= v@.subrange(
        k as int,
        end as int,
    ));
    k
}

/// Where the trailing `c`s of `v` begin.
fn trim_end_index(v: &Vec<char>, c: char) -> (r: usize)
    ensures
        r <= v@.len(),
        v@.take(r as int) == trim_end_char(v@, c),
{
    let mut end = v.len();
    assert(v@.take(end as int) =~= v@);
    while end > 0 && v[end - 1] == c
        invariant
            end <= v@.len(),
            trim_end_char(v@, c) == trim_end_char(v@.take(end as int), c),
        decreases end,
    {
        assert(v@.take(end as int).drop_last() =~= v@.take(end - 1));
        end = end - 1;
    }
    end
}

/// The words of `s`, as `str::split_whitespace` gives them.
pub fn split_words(s: &str) -> (r: Vec<String>)
    ensures
        strings_view(r@) == words(s@),
{
    let cs = chars_of(s);
    let mut out: Vec<String> = Vec::new();
    let mut cur = String::new();
    let mut i: usize = 0;
    while i < cs.len()
        invariant
            i <= cs@.len(),
            cs@ == s@,
            words(cs@.take(i as int)) == (if cur@.len() > 0 {
                strings_view(out@).push(cur@)
            } else {
                strings_view(out@)
            }),
            cur@.len() > 0 <==> (i > 0 && !is_ws(cs@[i - 1])),
        decreases cs@.len() - i,
    {
        let c = cs[i];
        let ghost t = cs@.take(i + 1);
        proof {
            assert(t.drop_last() =~= cs@.take(i as int));
            assert(t.last() == c);
            if i > 0 {
                assert(t[t.len() - 2] == cs@[i - 1]);
            }
        }
        if is_whitespace(c) {
            if !cur.as_str().is_empty() {
                let ghost before = strings_view(out@);
                let w = cur;
                out.push(w);
                cur = String::new();
                assert(strings_view(out@) =~= before.push(w@));
            }
        } else {
            let ghost before = strings_view(out@);
            let ghost old_cur = cur@;
            push_char(&mut cur, c);
            proof {
                if old_cur.len() > 0 {
                    assert(before.push(old_cur).update(before.len() as int, old_cur.push(c))
                        =~= before.push(cur@));
                } else {
                    assert(cur@ =~= seq![c]);
                }
            }
        }
        i = i + 1;
    }
    assert(cs@.take(cs@.len() as int) =~= cs@);
    if !cur.as_str().is_empty() {
        let ghost before = strings_view(out@);
        let w = cur;
        out.push(w);
        assert(strings_view(out@) =~= before.push(w@));
    }
    out
}

// ------------------------------------------------------------------
// Icons and titles
// ------------------------------------------------------------------

/// `s` with every `from` replaced by `to`.
pub open spec fn replace_char(s: Seq<char>, from: char, to: char) -> Seq<char> {
    Seq::new(s.len(), |i: int| if s[i] == from { to } else { s[i] })
}

/// The readable name of an icon id: after its last `:`, dashes as spaces.
pub open spec fn icon_name(icon: Seq<char>) -> Seq<char> {
    replace_char(after_last(icon, ':'), '-', ' ')
}

/// `after_last(s, c)` is the end of `s` after its last `c`: a suffix of
/// `s` in which `c` does not occur.
pub proof fn lemma_after_last(s: Seq<char>, c: char)
    ensures
        after_last(s, c).len() <= s.len(),
        after_last(s, c) == s.skip(s.len() - after_last(s, c).len()),
        !after_last(s, c).contains(c),
    decreases s.len(),
{
    if s.len() > 0 && s.last() != c {
        lemma_after_last(s.drop_last(), c);
        let t = after_last(s.drop_last(), c);
        assert(s.skip(s.len() - (t.len() + 1)) =~= s.drop_last().skip(s.drop_last().len() - t.len()).push(s.last()));
        assert forall|i: int| 0 <= i < t.len() + 1 implies t.push(s.last())[i] != c by {
            if i < t.len() {
                assert(t.push(s.last())[i] == t[i]);
            }
        }
    } else if s.len() > 0 {
        assert(s.skip(s.len() as int) =~= Seq::<char>::empty());
    }
}

/// An icon's name is what follows the last `:` of its id, with every `-`
/// read as a space: it has the same length, holds no `:` and no `-`, and
/// keeps every other character in place.
pub proof fn lemma_icon_name(icon: Seq<char>)
    ensures
        icon_name(icon).len() == after_last(icon, ':').len(),
        !icon_name(icon).contains('-'),
        !icon_name(icon).contains(':'),
        forall|i: int|
            0 <= i < icon_name(icon).len() && after_last(icon, ':')[i] != '-' ==> #[trigger] icon_name(icon)[i]
                == after_last(icon, ':')[i],
        forall|i: int|
            0 <= i < icon_name(icon).len() && after_last(icon, ':')[i] == '-' ==> #[trigger] icon_name(icon)[i]
                == ' ',
{
    lemma_after_last(icon, ':');
    let t = after_last(icon, ':');
    assert forall|i: int| 0 <= i < icon_name(icon).len() implies icon_name(icon)[i] != ':' by {
        assert(t[i] != ':');
    }
}

pub fn icon_short_name(icon: &str) -> (r: String)
    ensures
        r@ == icon_name(icon@),
{
    let cs = chars_of(icon);
    assert(cs@.take(cs@.len() as int) =~= cs@);
    let start = after_last_index(&cs, cs.len(), ':');
    let mut out = String::new();
    let mut i = start;
    while i < cs.len()
        invariant
            start <= i <= cs@.len(),
            out@ == replace_char(cs@.subrange(start as int, i as int), '-', ' '),
        decreases cs@.len() - i,
    {
        let c = cs[i];
        if c == '-' {
            push_char(&mut out, ' ');
        } else {
            push_char(&mut out, c);
        }
        assert(out@ =~= replace_char(cs@.subrange(start as int, i + 1), '-', ' '));
        i = i + 1;
    }
    out
}

/// The path part of a URL: after the scheme's `://`, from the first `/` up to
/// any further `://`; the whole URL when there is no such path.
pub open spec fn url_path(url: Seq<char>) -> Seq<char> {
    match first_occurrence(url, "://"@) {
        None => url,
        Some(i) => {
            let after = url.skip(i + 3);
            let piece = match first_occurrence(after, "://"@) {
                Some(j) => after.take(j),
                None => after,
            };
            if piece.contains('/') {
                piece.skip(before_char(piece, '/').len() as int)
            } else {
                url
            }
        },
    }
}

/// The last non-empty `/`-separated segment of `path`, or nothing.
pub open spec fn last_segment(path: Seq<char>) -> Seq<char> {
    after_last(trim_end_char(path, '/'), '/')
}

/// `-` and `_` as spaces.
pub open spec fn separators_as_spaces(s: Seq<char>) -> Seq<char> {
    Seq::new(s.len(), |i: int| if s[i] == '-' || s[i] == '_' { ' ' } else { s[i] })
}

/// A title for a linked page: the words of the last segment of its path,
/// capitalized; the URL itself when the path has no segment.
pub open spec fn url_title(url: Seq<char>) -> Seq<char> {
    let last = last_segment(url_path(url));
    if last.len() == 0 {
        url
    } else {
        titled(words(separators_as_spaces(last)))
    }
}

fn path_of(cs: &Vec<char>) -> (r: Vec<char>)
    ensures
        r@ == url_path(cs@),
{
    let sep = chars_of("://");
    proof {
        reveal_strlit("://");
    }
    match find_chars(cs, &sep) {
        None => cs.clone(),
        Some(i) => {
            assert(sep@.len() == 3);
            assert(occurs_at(cs@, sep@, i as int));
            let n = cs.len();
            assert(i + 3 <= n);
            let after = sub_chars(cs, i + 3, n);
            assert(after@ =~= cs@.skip(i + 3));
            let piece = match find_chars(&after, &sep) {
                Some(j) => {
                    let p = sub_chars(&after, 0, j);
                    assert(p@ =~= after@.take(j as int));
                    p
                },
                None => after,
            };
            let k = index_of(&piece, 0, '/');
            assert(piece@.skip(0) =~= piece@);
            if k < piece.len() {
                let p = sub_chars(&piece, k, piece.len());
                assert(p@ =~= piece@.skip(k as int));
                p
            } else {
                cs.clone()
            }
        },
    }
}

/// Capitalizes `w` and appends it.
fn push_capitalized(out: &mut String, w: &str)
    ensures
        final(out)@ == old(out)@ + capitalized(w@),
{
    let cs = chars_of(w);
    if cs.len() == 0 {
        assert(old(out)@ + capitalized(w@) =~= old(out)@);
        return;
    }
    let up = uppercase_char(cs[0]);
    push_str(out, up.as_str());
    let rest = string_of(&cs, 1, cs.len());
    push_str(out, rest.as_str());
    assert(cs@.subrange(1, cs@.len() as int) =~= w@.skip(1));
    assert(final(out)@ =~= old(out)@ + capitalized(w@));
}

/// The words, capitalized and joined by single spaces.
fn title_of(ws: &Vec<String>) -> (r: String)
    ensures
        r@ == titled(strings_view(ws@)),
{
    let ghost all = strings_view(ws@);
    let mut out = String::new();
    let mut k: usize = 0;
    while k < ws.len()
        invariant
            k <= ws@.len(),
            all == strings_view(ws@),
            out@ == titled(all.take(k as int)),
        decreases ws@.len() - k,
    {
        let ghost prev = all.take(k as int);
        proof {
            assert(all.take(k + 1).drop_last() =~= prev);
            assert(all.take(k + 1).last() == ws@[k as int]@);
        }
        if k > 0 {
            push_char(&mut out, ' ');
        } else {
            assert(out@ =~= Seq::<char>::empty());
        }
        push_capitalized(&mut out, ws[k].as_str());
        proof {
            if k == 0 {
                assert(out@ =~= capitalized(all.take(1)[0]));
            } else {
                assert(out@ =~= titled(prev) + seq![' '] + capitalized(all.take(k + 1).last()));
            }
        }
        k = k + 1;
    }
    assert(all.take(ws@.len() as int) =~= all);
    out
}

/// A title for a linked page, from the last segment of its URL's path.
pub fn title_from_url(url: &str) -> (r: String)
    ensures
        r@ == url_title(url@),
{
    let cs = chars_of(url);
    let path = path_of(&cs);
    let end = trim_end_index(&path, '/');
    let start = after_last_index(&path, end, '/');
    proof {
        assert(path@.take(end as int) == trim_end_char(path@, '/'));
    }
    if start == end {
        assert(last_segment(url_path(url@)) =~= Seq::<char>::empty());
        return owned(url);
    }
    let mut spaced = String::new();
    let mut i = start;
    while i < end
        invariant
            start <= i <= end <= path@.len(),
            spaced@ == separators_as_spaces(path@.subrange(start as int, i as int)),
        decreases end - i,
    {
        let c = path[i];
        if c == '-' || c == '_' {
            push_char(&mut spaced, ' ');
        } else {
            push_char(&mut spaced, c);
        }
        assert(spaced@ =~= separators_as_spaces(path@.subrange(start as int, i + 1)));
        i = i + 1;
    }
    let ws = split_words(spaced.as_str());
    title_of(&ws)
}

// ------------------------------------------------------------------
// Pasted sources
// ------------------------------------------------------------------

pub open spec fn is_web_link(w: Seq<char>) -> bool {
    starts_with(w, "https://"@) || starts_with(w, "http://"@)
}

/// The links of pasted text: its words when there are some and every one
/// is an `http(s)://` link; otherwise none (the text is a document).
pub open spec fn pasted_links(input: Seq<char>) -> Seq<Seq<char>> {
    let ws = words(input);
    if ws.len() == 0 || exists|i: int| 0 <= i < ws.len() && !is_web_link(#[trigger] ws[i]) {
        Seq::empty()
    } else {
        ws
    }
}

/// Whatever pasted text is read as links, each is an `http(s)://` link.
pub proof fn lemma_pasted_links_are_web_links(input: Seq<char>)
    ensures
        forall|i: int|
            0 <= i < pasted_links(input).len() ==> is_web_link(#[trigger] pasted_links(input)[i]),
{
}

pub fn source_links(input: &str) -> (r: Vec<String>)
    ensures
        strings_view(r@) == pasted_links(input@),
{
    let ws = split_words(input);
    let https = chars_of("https://");
    let http = chars_of("http://");
    proof {
        reveal_strlit("https://");
        reveal_strlit("http://");
    }
    let mut i: usize = 0;
    while i < ws.len()
        invariant
            i <= ws@.len(),
            strings_view(ws@) == words(input@),
            https@ == "https://"@,
            http@ == "http://"@,
            forall|k: int| 0 <= k < i ==> is_web_link(#[trigger] strings_view(ws@)[k]),
        decreases ws@.len() - i,
    {
        let w = chars_of(ws[i].as_str());
        if !starts_with_chars(&w, &https) && !starts_with_chars(&w, &http) {
            assert(!is_web_link(strings_view(ws@)[i as int]));
            let none: Vec<String> = Vec::new();
            assert(strings_view(none@) =~= Seq::<Seq<char>>::empty());
            return none;
        }
        i = i + 1;
    }
    ws
}

/// The link a pasted URL is titled by: without trailing `/` and scheme,
/// at most 100 characters (the URL as given when it has no scheme).
pub open spec fn link_title_text(url: Seq<char>) -> Seq<char> {
    let t = trim_end_char(url, '/');
    let base = if starts_with(t, "https://"@) {
        t.skip(8)
    } else if starts_with(t, "http://"@) {
        t.skip(7)
    } else {
        url
    };
    if base.len() > 100 {
        base.take(100)
    } else {
        base
    }
}

/// A link's title is at most 100 characters, and is the start of the URL
/// without its trailing `/`s and its `https://` or `http://` scheme.
pub proof fn lemma_link_title(url: Seq<char>)
    ensures
        link_title_text(url).len() <= 100,
        starts_with(trim_end_char(url, '/'), "https://"@) ==> link_title_text(url)
            == trim_end_char(url, '/').skip(8).take(link_title_text(url).len() as int),
        !starts_with(trim_end_char(url, '/'), "https://"@) && starts_with(
            trim_end_char(url, '/'),
            "http://"@,
        ) ==> link_title_text(url) == trim_end_char(url, '/').skip(7).take(
            link_title_text(url).len() as int,
        ),
        !starts_with(trim_end_char(url, '/'), "https://"@) && !starts_with(
            trim_end_char(url, '/'),
            "http://"@,
        ) ==> link_title_text(url) == url.take(link_title_text(url).len() as int),
{
    let t = trim_end_char(url, '/');
    let base = if starts_with(t, "https://"@) {
        t.skip(8)
    } else if starts_with(t, "http://"@) {
        t.skip(7)
    } else {
        url
    };
    if base.len() <= 100 {
        assert(base.take(base.len() as int) =~= base);
    }
}

pub fn link_title(url: &str) -> (r: String)
    ensures
        r@ == link_title_text(url@),
{
    let cs = chars_of(url);
    let end = trim_end_index(&cs, '/');
    let t = sub_chars(&cs, 0, end);
    let https = chars_of("https://");
    let http = chars_of("http://");
    proof {
        reveal_strlit("https://");
        reveal_strlit("http://");
        assert(cs@.subrange(0, end as int) =~= cs@.take(end as int));
    }
    let (base, from) = if starts_with_chars(&t, &https) {
        (t, 8usize)
    } else if starts_with_chars(&t, &http) {
        (t, 7usize)
    } else {
        (cs, 0usize)
    };
    let to = if base.len() - from > 100 {
        from + 100
    } else {
        base.len()
    };
    let r = string_of(&base, from, to);
    proof {
        let b = base@.skip(from as int);
        assert(base@.skip(0) =~= base@);
        if b.len() > 100 {
            assert(r@ =~= b.take(100));
        } else {
            assert(r@ =~= b);
        }
    }
    r
}

/// What the source box says it detected in `input`.
pub open spec fn detection_label(input: Seq<char>) -> Seq<char> {
    let n = pasted_links(input).len();
    if n == 0 {
        "Detected: pasted document"@
    } else if n == 1 {
        "Detected: 1 link"@
    } else {
        "Detected: "@ + decimal(n) + " links"@
    }
}

/// The source box calls pasted text a document unless it reads as links,
/// and then counts them: one link, or the number of links.
pub proof fn lemma_detection_and_button(input: Seq<char>, adding: bool)
    ensures
        pasted_links(input).len() == 0 ==> detection_label(input) == "Detected: pasted document"@,
        pasted_links(input).len() == 1 ==> detection_label(input) == "Detected: 1 link"@,
        pasted_links(input).len() > 1 ==> detection_label(input) == "Detected: "@ + decimal(
            pasted_links(input).len(),
        ) + " links"@,
        adding ==> button_label(input, adding) == "Adding..."@,
        !adding && pasted_links(input).len() == 0 ==> button_label(input, adding)
            == "Add Document"@,
        !adding && pasted_links(input).len() == 1 ==> button_label(input, adding) == "Add Link"@,
        !adding && pasted_links(input).len() > 1 ==> button_label(input, adding) == "Add Links"@,
{
}

pub fn source_detection_label(input: &str) -> (r: String)
    ensures
        r@ == detection_label(input@),
{
    let links = source_links(input);
    if links.len() == 0 {
        owned("Detected: pasted document")
    } else if links.len() == 1 {
        owned("Detected: 1 link")
    } else {
        let mut s = owned("Detected: ");
        push_decimal(&mut s, links.len() as u64);
        push_str(&mut s, " links");
        s
    }
}

/// The label of the add button for `input`.
pub open spec fn button_label(input: Seq<char>, adding: bool) -> Seq<char> {
    let n = pasted_links(input).len();
    if adding {
        "Adding..."@
    } else if n > 1 {
        "Add Links"@
    } else if n == 1 {
        "Add Link"@
    } else {
        "Add Document"@
    }
}

pub fn source_button_label(input: &str, adding: bool) -> (r: &'static str)
    ensures
        r@ == button_label(input@, adding),
{
    if adding {
        return "Adding...";
    }
    let n = source_links(input).len();
    if n > 1 {
        "Add Links"
    } else if n == 1 {
        "Add Link"
    } else {
        "Add Document"
    }
}


// ------------------------------------------------------------------
// Bulk link import
// ------------------------------------------------------------------

/// The pieces of `s` between the `c`s, as `str::split` gives them (always at
/// least one).
pub open spec fn split_on(s: Seq<char>, c: char) -> Seq<Seq<char>>
    decreases s.len(),
{
    if s.len() == 0 {
        seq![Seq::empty()]
    } else {
        let p = split_on(s.drop_last(), c);
        if s.last() == c {
            p.push(Seq::empty())
        } else {
            p.update(p.len() - 1, p.last().push(s.last()))
        }
    }
}

/// The trimmed lines that are neither empty nor `#` comments.
pub open spec fn listed_lines(lines: Seq<Seq<char>>) -> Seq<Seq<char>>
    decreases lines.len(),
{
    if lines.len() == 0 {
        Seq::empty()
    } else {
        let rest = listed_lines(lines.drop_last());
        let t = trim(lines.last());
        if t.len() > 0 && t[0] != '#' {
            rest.push(t)
        } else {
            rest
        }
    }
}

/// The URLs of a bulk import: one per line, trimmed, skipping blank lines
/// and lines that start with `#`.
pub open spec fn bulk_urls(raw: Seq<char>) -> Seq<Seq<char>> {
    listed_lines(split_on(raw, '\n'))
}

/// The listed lines keep their order; each is a trimmed line that is not
/// empty and does not start with `#`, and every such line is listed.
pub proof fn lemma_listed_lines(lines: Seq<Seq<char>>)
    ensures
        listed_lines(lines).len() <= lines.len(),
        forall|k: int|
            0 <= k < listed_lines(lines).len() ==> (#[trigger] listed_lines(lines)[k]).len() > 0
                && listed_lines(lines)[k][0] != '#' && exists|i: int|
                0 <= i < lines.len() && listed_lines(lines)[k] == trim(lines[i]),
        forall|i: int|
            0 <= i < lines.len() && trim(#[trigger] lines[i]).len() > 0 && trim(lines[i])[0] != '#'
                ==> listed_lines(lines).contains(trim(lines[i])),
    decreases lines.len(),
{
    if lines.len() > 0 {
        let init = lines.drop_last();
        lemma_listed_lines(init);
        let rest = listed_lines(init);
        let all = listed_lines(lines);
        let t = trim(lines.last());
        assert forall|k: int| 0 <= k < all.len() implies (#[trigger] all[k]).len() > 0 && all[k][0] != '#'
            && exists|i: int| 0 <= i < lines.len() && all[k] == trim(lines[i]) by {
            if k < rest.len() {
                assert(all[k] == rest[k]);
                let i = choose|i: int| 0 <= i < init.len() && rest[k] == trim(init[i]);
                assert(lines[i] == init[i]);
            } else {
                assert(all[k] == t);
                assert(lines[lines.len() - 1] == lines.last());
            }
        }
        assert forall|i: int|
            0 <= i < lines.len() && trim(#[trigger] lines[i]).len() > 0 && trim(lines[i])[0] != '#'
                implies all.contains(trim(lines[i])) by {
            if i < init.len() {
                assert(lines[i] == init[i]);
                assert(rest.contains(trim(init[i])));
                let k = choose|k: int| 0 <= k < rest.len() && rest[k] == trim(init[i]);
                assert(all[k] == rest[k]);
            } else {
                assert(all[all.len() - 1] == t);
            }
        }
    }
}

pub fn bulk_url_lines(raw: &str) -> (r: Vec<String>)
    ensures
        strings_view(r@) == bulk_urls(raw@),
{
    let cs = chars_of(raw);
    let mut out: Vec<String> = Vec::new();
    let mut cur = String::new();
    let mut i: usize = 0;
    proof {
        assert(cs@.take(0) =~= Seq::<char>::empty());
    }
    while i < cs.len()
        invariant
            i <= cs@.len(),
            cs@ == raw@,
            split_on(cs@.take(i as int), '\n').len() >= 1,
            cur@ == split_on(cs@.take(i as int), '\n').last(),
            strings_view(out@) == listed_lines(split_on(cs@.take(i as int), '\n').drop_last()),
        decreases cs@.len() - i,
    {
        let c = cs[i];
        let ghost t = cs@.take(i + 1);
        let ghost p = split_on(cs@.take(i as int), '\n');
        proof {
            assert(t.drop_last() =~= cs@.take(i as int));
            assert(t.last() == c);
        }
        if c == '\n' {
            let line = trimmed(cur.as_str());
            let lc = chars_of(line.as_str());
            let ghost before = strings_view(out@);
            proof {
                assert(split_on(t, '\n') == p.push(Seq::empty()));
                assert(split_on(t, '\n').drop_last() =~= p);
                assert(p.drop_last().push(p.last()) =~= p);
            }
            if lc.len() > 0 && lc[0] != '#' {
                out.push(line);
                assert(strings_view(out@) =~= before.push(trim(p.last())));
            }
            cur = String::new();
        } else {
            push_char(&mut cur, c);
            proof {
                assert(split_on(t, '\n') == p.update(p.len() - 1, p.last().push(c)));
                assert(split_on(t, '\n').drop_last() =~= p.drop_last());
            }
        }
        i = i + 1;
    }
    assert(cs@.take(cs@.len() as int) =~= cs@);
    let ghost p = split_on(cs@, '\n');
    let line = trimmed(cur.as_str());
    let lc = chars_of(line.as_str());
    let ghost before = strings_view(out@);
    proof {
        assert(p.drop_last().push(p.last()) =~= p);
    }
    if lc.len() > 0 && lc[0] != '#' {
        out.push(line);
        assert(strings_view(out@) =~= before.push(trim(p.last())));
    }
    out
}

/// The toast after a bulk import: how many links were added, and how many
/// failed when some did.
pub open spec fn import_summary_text(ok: nat, failed: nat) -> Seq<char> {
    "Imported "@ + decimal(ok) + " link(s)"@ + if failed > 0 {
        ", "@ + decimal(failed) + " failed"@
    } else {
        Seq::empty()
    }
}

pub fn import_summary(ok: u64, failed: u64) -> (r: String)
    ensures
        r@ == import_summary_text(ok as nat, failed as nat),
{
    let mut s = owned("Imported ");
    push_decimal(&mut s, ok);
    push_str(&mut s, " link(s)");
    if failed > 0 {
        push_str(&mut s, ", ");
        push_decimal(&mut s, failed);
        push_str(&mut s, " failed");
    }
    s
}


// ------------------------------------------------------------------
// The image pool
// ------------------------------------------------------------------

/// The toast after an image joined the pool: the name it was annotated with
/// and the model (`vision` when unnamed), or why annotation fell back and,
/// when known, the model.
pub open spec fn image_added_text(
    annotated: bool,
    name: Seq<char>,
    model: Option<Seq<char>>,
    fallback_reason: Option<Seq<char>>,
) -> Seq<char> {
    if annotated {
        let m = match model {
            Some(m) => m,
            None => "vision"@,
        };
        "Image added · annotated as «"@ + name + "» via "@ + m
    } else {
        let reason = match fallback_reason {
            Some(r) => r,
            None => "annotation skipped"@,
        };
        let m = match model {
            Some(m) => " · model "@ + m,
            None => Seq::empty(),
        };
        "Image added · fallback ("@ + reason + ")"@ + m
    }
}

pub fn image_added_message(
    annotated: bool,
    name: &str,
    model: Option<&str>,
    fallback_reason: Option<&str>,
) -> (r: String)
    ensures
        r@ == image_added_text(
            annotated,
            name@,
            crate::client::opt_str_view(model),
            crate::client::opt_str_view(fallback_reason),
        ),
{
    if annotated {
        let mut s = owned("Image added · annotated as «");
        push_str(&mut s, name);
        push_str(&mut s, "» via ");
        match model {
            Some(m) => push_str(&mut s, m),
            None => push_str(&mut s, "vision"),
        }
        s
    } else {
        let mut s = owned("Image added · fallback (");
        match fallback_reason {
            Some(r) => push_str(&mut s, r),
            None => push_str(&mut s, "annotation skipped"),
        }
        push_str(&mut s, ")");
        match model {
            Some(m) => {
                push_str(&mut s, " · model ");
                push_str(&mut s, m);
            },
            None => {
                assert(s@ + Seq::<char>::empty() =~= s@);
            },
        }
        s
    }
}

} // verus!
