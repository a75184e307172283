//! Searching in case-folded text: how well a pool image fits a card, and
//! which archived cards a search shows, in which order.

use vstd::prelude::*;
use vstd::utf8::encode_utf8;
use crate::client::opt_str_view;
use crate::codec::strings_view;
use crate::ops::or_empty;
use crate::text::{chars_of, contains, contains_chars, owned, push_char, push_str};

verus! {

broadcast use vstd::string::group_string_axioms;

/// What `str::to_lowercase` gives for `s`: its Unicode lowercase mapping.
pub uninterp spec fn lowercase_of(s: Seq<char>) -> Seq<char>;

/// Calls `str::to_lowercase`.
///
/// The contract names the result (`lowercase_of`); the Unicode case
/// tables, final sigma included, are not restated here.
#[verifier::external_body]
fn lowercase(s: &str) -> (r: String)
    ensures
        r@ == lowercase_of(s@),
{
    s.to_lowercase()
}

/// `ws` joined by single spaces.
pub open spec fn space_joined(ws: Seq<Seq<char>>) -> Seq<char>
    decreases ws.len(),
{
    if ws.len() == 0 {
        Seq::empty()
    } else if ws.len() == 1 {
        ws[0]
    } else {
        space_joined(ws.drop_last()) + seq![' '] + ws.last()
    }
}

/// The text an image is searched by: its name, description and tags.
pub open spec fn image_text(
    name: Seq<char>,
    description: Option<Seq<char>>,
    tags: Seq<Seq<char>>,
) -> Seq<char> {
    name + seq![' '] + or_empty(description) + seq![' '] + space_joined(tags)
}

/// How many of `terms` longer than two bytes occur in `text`.
pub open spec fn matching_terms(text: Seq<char>, terms: Seq<Seq<char>>) -> nat
    decreases terms.len(),
{
    if terms.len() == 0 {
        0
    } else {
        let t = terms.last();
        matching_terms(text, terms.drop_last()) + if encode_utf8(t).len() > 2 && contains(text, t) {
            1nat
        } else {
            0nat
        }
    }
}

/// The score counts the card's terms found anywhere in the image's name,
/// description and tags: one more term raises it by one exactly when that
/// term is longer than two bytes and occurs in the lower-cased text made of
/// the name, the description and the tags, joined by spaces.
pub proof fn lemma_context_score_term(
    name: Seq<char>,
    description: Option<Seq<char>>,
    tags: Seq<Seq<char>>,
    terms: Seq<Seq<char>>,
    t: Seq<char>,
)
    ensures
        matching_terms(lowercase_of(image_text(name, description, tags)), terms.push(t))
            == matching_terms(lowercase_of(image_text(name, description, tags)), terms) + if encode_utf8(t).len() > 2
            && contains(
            lowercase_of(
                name + seq![' '] + match description {
                    Some(d) => d,
                    None => Seq::<char>::empty(),
                } + seq![' '] + space_joined(tags),
            ),
            t,
        ) {
            1nat
        } else {
            0nat
        },
{
    assert(terms.push(t).drop_last() =~= terms);
}

/// How well a pool image fits a card: the number of the card's (longer)
/// terms found in the lower-cased name, description and tags of the image.
pub fn context_score(
    name: &str,
    description: Option<&str>,
    tags: &Vec<String>,
    terms: &Vec<String>,
) -> (r: usize)
    ensures
        r == matching_terms(
            lowercase_of(image_text(name@, opt_str_view(description), strings_view(tags@))),
            strings_view(terms@),
        ),
{
    let mut text = owned(name);
    push_char(&mut text, ' ');
    match description {
        Some(d) => push_str(&mut text, d),
        None => {},
    }
    push_char(&mut text, ' ');
    let ghost head = text@;
    let ghost all_tags = strings_view(tags@);
    let mut k: usize = 0;
    while k < tags.len()
        invariant
            k <= tags@.len(),
            all_tags == strings_view(tags@),
            text@ == head + space_joined(all_tags.take(k as int)),
        decreases tags@.len() - k,
    {
        proof {
            assert(all_tags.take(k + 1).drop_last() =~= all_tags.take(k as int));
            assert(all_tags.take(k + 1).last() == tags@[k as int]@);
        }
        if k > 0 {
            push_char(&mut text, ' ');
        }
        push_str(&mut text, tags[k].as_str());
        proof {
            if k == 0 {
                assert(all_tags.take(1)[0] == tags@[0]@);
                assert(text@ =~= head + space_joined(all_tags.take(1)));
            } else {
                assert(text@ =~= head + space_joined(all_tags.take(k + 1)));
            }
        }
        k = k + 1;
    }
    assert(all_tags.take(tags@.len() as int) =~= all_tags);
    assert(text@ =~= image_text(name@, opt_str_view(description), all_tags));
    let lower = lowercase(text.as_str());
    let lc = chars_of(lower.as_str());
    let ghost all_terms = strings_view(terms@);
    let mut count: usize = 0;
    let mut i: usize = 0;
    while i < terms.len()
        invariant
            i <= terms@.len(),
            all_terms == strings_view(terms@),
            count == matching_terms(lc@, all_terms.take(i as int)),
            count <= i,
        decreases terms@.len() - i,
    {
        proof {
            assert(all_terms.take(i + 1).drop_last() =~= all_terms.take(i as int));
            assert(all_terms.take(i + 1).last() == terms@[i as int]@);
        }
        let t = terms[i].as_str();
        if t.as_bytes().len() > 2 && contains_chars(&lc, &chars_of(t)) {
            count = count + 1;
        }
        i = i + 1;
    }
    assert(all_terms.take(terms@.len() as int) =~= all_terms);
    count
}


// ------------------------------------------------------------------
// The archive
// ------------------------------------------------------------------

/// `a` sorts before `b`: character by character, by code point, a proper
/// prefix first (the order of `String`s, whose UTF-8 bytes sort the same way).
pub open spec fn chars_before(a: Seq<char>, b: Seq<char>) -> bool
    decreases a.len(),
{
    if a.len() == 0 {
        b.len() > 0
    } else if b.len() == 0 {
        false
    } else if a[0] != b[0] {
        (a[0] as u32) < (b[0] as u32)
    } else {
        chars_before(a.drop_first(), b.drop_first())
    }
}

proof fn lemma_chars_before_strict(a: Seq<char>, b: Seq<char>, c: Seq<char>)
    ensures
        !chars_before(a, a),
        chars_before(a, b) ==> !chars_before(b, a),
        chars_before(a, b) && chars_before(b, c) ==> chars_before(a, c),
        a != b ==> chars_before(a, b) || chars_before(b, a),
    decreases a.len(),
{
    if a.len() > 0 && b.len() > 0 && c.len() > 0 {
        lemma_chars_before_strict(a.drop_first(), b.drop_first(), c.drop_first());
        if a[0] == b[0] && a.drop_first() == b.drop_first() {
            assert(a =~= seq![a[0]] + a.drop_first());
            assert(b =~= seq![b[0]] + b.drop_first());
        }
    } else if a.len() > 0 && b.len() > 0 {
        lemma_chars_before_strict(a.drop_first(), b.drop_first(), a.drop_first());
        if a[0] == b[0] && a.drop_first() == b.drop_first() {
            assert(a =~= seq![a[0]] + a.drop_first());
            assert(b =~= seq![b[0]] + b.drop_first());
        }
    } else if a.len() > 0 {
        lemma_chars_before_strict(a.drop_first(), a.drop_first(), a.drop_first());
    }
    if a.len() == 0 && b.len() == 0 {
        assert(a =~= b);
    }
    if a.len() > 0 && b.len() > 0 {
        vstd::utf8::char_u32_cast(a[0], a[0] as u32);
        vstd::utf8::char_u32_cast(b[0], b[0] as u32);
    }
}

fn chars_before_exec(a: &Vec<char>, b: &Vec<char>) -> (r: bool)
    ensures
        r == chars_before(a@, b@),
{
    let mut i: usize = 0;
    assert(a@.skip(0) =~= a@);
    assert(b@.skip(0) =~= b@);
    while i < a.len() && i < b.len() && a[i] == b[i]
        invariant
            i <= a@.len(),
            i <= b@.len(),
            chars_before(a@, b@) == chars_before(a@.skip(i as int), b@.skip(i as int)),
        decreases a@.len() - i,
    {
        assert(a@.skip(i as int).drop_first() =~= a@.skip(i + 1));
        assert(b@.skip(i as int).drop_first() =~= b@.skip(i + 1));
        i = i + 1;
    }
    if i == a.len() {
        i < b.len()
    } else if i == b.len() {
        false
    } else {
        (a[i] as u32) < (b[i] as u32)
    }
}

/// The sort key of an archived card.
pub type ArchiveKey = (Seq<char>, Seq<char>, i64);

/// Keys in ascending order: by the first text, then the second, then the id.
pub open spec fn key_before(x: ArchiveKey, y: ArchiveKey) -> bool {
    chars_before(x.0, y.0) || (x.0 == y.0 && (chars_before(x.1, y.1) || (x.1 == y.1 && x.2
        < y.2)))
}

proof fn lemma_key_before_strict(x: ArchiveKey, y: ArchiveKey, z: ArchiveKey)
    ensures
        !key_before(x, x),
        key_before(x, y) && key_before(y, z) ==> key_before(x, z),
        x != y ==> key_before(x, y) || key_before(y, x),
{
    lemma_chars_before_strict(x.0, y.0, z.0);
    lemma_chars_before_strict(x.1, y.1, z.1);
    lemma_chars_before_strict(y.0, x.0, z.0);
    lemma_chars_before_strict(y.1, x.1, z.1);
    lemma_chars_before_strict(x.0, x.0, x.0);
    lemma_chars_before_strict(x.1, x.1, x.1);
}

/// The fields of an archived card that the archive searches and sorts by.
#[derive(Clone, Debug, PartialEq)]
pub struct ArchiveEntry {
    pub id: i64,
    pub status: String,
    pub title: String,
    pub topic_name: String,
    pub full_content: String,
    pub created_at: String,
}

/// The archive searches the lower-cased title, topic and content, and keeps
/// the cards of the chosen status (or of all).
pub open spec fn archive_shows(c: ArchiveEntry, query: Seq<char>, status: Seq<char>) -> bool {
    (status == "all"@ || c.status@ == status) && (query.len() == 0 || contains(
        lowercase_of(c.title@),
        query,
    ) || contains(lowercase_of(c.topic_name@), query) || contains(
        lowercase_of(c.full_content@),
        query,
    ))
}

/// By date: newest first, then the larger id. Otherwise by topic, then
/// title (both lower-cased), then id, ascending.
pub open spec fn archive_key(c: ArchiveEntry, by_date: bool) -> ArchiveKey {
    if by_date {
        (c.created_at@, Seq::empty(), c.id)
    } else {
        (lowercase_of(c.topic_name@), lowercase_of(c.title@), c.id)
    }
}

pub open spec fn archive_before(x: ArchiveKey, y: ArchiveKey, by_date: bool) -> bool {
    if by_date {
        key_before(y, x)
    } else {
        key_before(x, y)
    }
}

struct KeyChars {
    first: Vec<char>,
    second: Vec<char>,
    id: i64,
}

impl KeyChars {
    spec fn model(&self) -> ArchiveKey {
        (self.first@, self.second@, self.id)
    }

    fn before(&self, other: &KeyChars) -> (r: bool)
        ensures
            r == key_before(self.model(), other.model()),
    {
        if chars_before_exec(&self.first, &other.first) {
            return true;
        }
        if chars_before_exec(&other.first, &self.first) {
            proof {
                lemma_chars_before_strict(other.first@, self.first@, self.first@);
            }
            return false;
        }
        proof {
            lemma_chars_before_strict(self.first@, other.first@, other.first@);
        }
        if chars_before_exec(&self.second, &other.second) {
            return true;
        }
        if chars_before_exec(&other.second, &self.second) {
            proof {
                lemma_chars_before_strict(other.second@, self.second@, self.second@);
            }
            return false;
        }
        proof {
            lemma_chars_before_strict(self.second@, other.second@, other.second@);
        }
        self.id < other.id
    }
}

fn key_of(c: &ArchiveEntry, by_date: bool) -> (r: KeyChars)
    ensures
        r.model() == archive_key(*c, by_date),
{
    if by_date {
        KeyChars { first: chars_of(c.created_at.as_str()), second: Vec::new(), id: c.id }
    } else {
        KeyChars {
            first: chars_of(lowercase(c.topic_name.as_str()).as_str()),
            second: chars_of(lowercase(c.title.as_str()).as_str()),
            id: c.id,
        }
    }
}

fn goes_before(x: &KeyChars, y: &KeyChars, by_date: bool) -> (r: bool)
    ensures
        r == archive_before(x.model(), y.model(), by_date),
{
    if by_date {
        y.before(x)
    } else {
        x.before(y)
    }
}

/// `order` lists the shown cards of `cards` in the archive's order: each
/// shown card once, no other, sorted by key, cards with equal keys in the
/// order they have in `cards`.
pub open spec fn archive_order(
    cards: Seq<ArchiveEntry>,
    query: Seq<char>,
    status: Seq<char>,
    by_date: bool,
    order: Seq<usize>,
) -> bool {
    &&& forall|k: int|
        #![trigger order[k]]
        0 <= k < order.len() ==> order[k] < cards.len() && archive_shows(
            cards[order[k] as int],
            query,
            status,
        )
    &&& forall|i: int|
        0 <= i < cards.len() && archive_shows(#[trigger] cards[i], query, status)
            ==> order.contains(i as usize)
    &&& forall|k: int, l: int| 0 <= k < l < order.len() ==> order[k] != order[l]
    &&& forall|k: int, l: int|
        0 <= k < l < order.len() ==> !archive_before(
            archive_key(cards[order[l] as int], by_date),
            archive_key(cards[order[k] as int], by_date),
            by_date,
        )
    &&& forall|k: int, l: int|
        0 <= k < l < order.len() && archive_key(cards[order[k] as int], by_date) == archive_key(
            cards[order[l] as int],
            by_date,
        ) ==> order[k] < order[l]
}

/// The archive lists a card exactly when it has the chosen status (any, for
/// `all`) and its lower-cased title, topic or content contains the
/// lower-cased search (an empty search matches every card).
pub proof fn lemma_archive_lists_matches(
    cards: Seq<ArchiveEntry>,
    search: Seq<char>,
    status: Seq<char>,
    by_date: bool,
    order: Seq<usize>,
    i: int,
)
    requires
        archive_order(cards, lowercase_of(search), status, by_date, order),
        cards.len() <= usize::MAX,
        0 <= i < cards.len(),
    ensures
        (status == "all"@ || cards[i].status@ == status) && (lowercase_of(search).len() == 0
            || contains(lowercase_of(cards[i].title@), lowercase_of(search)) || contains(
            lowercase_of(cards[i].topic_name@),
            lowercase_of(search),
        ) || contains(lowercase_of(cards[i].full_content@), lowercase_of(search)))
            <==> order.contains(i as usize),
{
    let q = lowercase_of(search);
    if order.contains(i as usize) {
        let k = choose|k: int| 0 <= k < order.len() && order[k] == i as usize;
        assert(order[k] as int == i);
        assert(archive_shows(cards[order[k] as int], q, status));
    }
    if archive_shows(cards[i], q, status) {
        assert(order.contains(i as usize));
    }
}

/// The listed positions are positions of `cards`, none twice.
pub proof fn lemma_archive_positions(
    cards: Seq<ArchiveEntry>,
    search: Seq<char>,
    status: Seq<char>,
    by_date: bool,
    order: Seq<usize>,
)
    requires
        archive_order(cards, lowercase_of(search), status, by_date, order),
    ensures
        forall|k: int| 0 <= k < order.len() ==> order[k] < cards.len(),
        forall|k: int, l: int| 0 <= k < l < order.len() ==> order[k] != order[l],
{
    assert forall|k: int| 0 <= k < order.len() implies order[k] < cards.len() by {
        assert(order[k] < cards.len());
    }
}

fn shows(c: &ArchiveEntry, query: &Vec<char>, status: &str, all: bool) -> (r: bool)
    requires
        all == (status@ == "all"@),
    ensures
        r == archive_shows(*c, query@, status@),
{
    let status_ok = all || crate::text::str_eq(c.status.as_str(), status);
    if !status_ok {
        return false;
    }
    query.len() == 0 || contains_chars(&chars_of(lowercase(c.title.as_str()).as_str()), query)
        || contains_chars(&chars_of(lowercase(c.topic_name.as_str()).as_str()), query)
        || contains_chars(&chars_of(lowercase(c.full_content.as_str()).as_str()), query)
}

/// The positions in `cards` of the cards the archive shows for `search`
/// and `status` (`all` for any), in display order: by date (`sort_by` is
/// `date`) or by topic and title.
pub fn filter_and_sort_archive_cards(
    cards: &Vec<ArchiveEntry>,
    search: &str,
    status: &str,
    sort_by: &str,
) -> (r: Vec<usize>)
    ensures
        archive_order(cards@, lowercase_of(search@), status@, sort_by@ == "date"@, r@),
{
    let query = chars_of(lowercase(search).as_str());
    let all = crate::text::str_eq(status, "all");
    let by_date = crate::text::str_eq(sort_by, "date");
    let ghost q = query@;
    let mut keys: Vec<KeyChars> = Vec::new();
    let mut j: usize = 0;
    while j < cards.len()
        invariant
            j <= cards@.len(),
            keys@.len() == j,
            forall|k: int| 0 <= k < j ==> (#[trigger] keys@[k]).model() == archive_key(cards@[k], by_date),
        decreases cards@.len() - j,
    {
        keys.push(key_of(&cards[j], by_date));
        j = j + 1;
    }
    let mut out: Vec<usize> = Vec::new();
    let mut i: usize = 0;
    while i < cards.len()
        invariant
            i <= cards@.len(),
            keys@.len() == cards@.len(),
            q == query@,
            all == (status@ == "all"@),
            forall|k: int| 0 <= k < cards@.len() ==> (#[trigger] keys@[k]).model() == archive_key(cards@[k], by_date),
            forall|k: int|
                #![trigger out@[k]]
                0 <= k < out@.len() ==> out@[k] < i && archive_shows(cards@[out@[k] as int], q, status@),
            forall|m: int|
                0 <= m < i && archive_shows(#[trigger] cards@[m], q, status@) ==> out@.contains(m as usize),
            forall|k: int, l: int| 0 <= k < l < out@.len() ==> out@[k] != out@[l],
            forall|k: int, l: int|
                0 <= k < l < out@.len() ==> !archive_before(
                    archive_key(cards@[out@[l] as int], by_date),
                    archive_key(cards@[out@[k] as int], by_date),
                    by_date,
                ),
            forall|k: int, l: int|
                0 <= k < l < out@.len() && archive_key(cards@[out@[k] as int], by_date)
                    == archive_key(cards@[out@[l] as int], by_date) ==> out@[k] < out@[l],
        decreases cards@.len() - i,
    {
        if shows(&cards[i], &query, status, all) {
            let mut p: usize = 0;
            while p < out.len() && !goes_before(&keys[i], &keys[out[p]], by_date)
                invariant
                    p <= out@.len(),
                    i < cards@.len(),
                    keys@.len() == cards@.len(),
                    forall|k: int| 0 <= k < out@.len() ==> out@[k] < cards@.len(),
                    forall|k: int| 0 <= k < p ==> !archive_before(
                        keys@[i as int].model(),
                        keys@[out@[k] as int].model(),
                        by_date,
                    ),
                decreases out@.len() - p,
            {
                p = p + 1;
            }
            let ghost before = out@;
            out.insert(p, i);
            proof {
                let x = archive_key(cards@[i as int], by_date);
                assert(keys@[i as int].model() == x);
                assert forall|k: int| 0 <= k < p implies !archive_before(
                    x,
                    archive_key(cards@[before[k] as int], by_date),
                    by_date,
                ) by {
                    assert(keys@[before[k] as int].model() == archive_key(cards@[before[k] as int], by_date));
                }
                if p < before.len() {
                    assert(keys@[before[p as int] as int].model() == archive_key(cards@[before[p as int] as int], by_date));
                }
                lemma_insert_sorted(cards@, by_date, before, p as int, i);
                assert forall|m: int|
                    0 <= m < i + 1 && archive_shows(#[trigger] cards@[m], q, status@) implies out@.contains(m as usize) by {
                    if m < i {
                        let w = choose|w: int| 0 <= w < before.len() && before[w] == m as usize;
                        if w < p {
                            assert(out@[w] == before[w]);
                        } else {
                            assert(out@[w + 1] == before[w]);
                        }
                    } else {
                        assert(out@[p as int] == i);
                    }
                }
            }
        }
        i = i + 1;
    }
    out
}

/// Inserting `x` (a position after all of `s`) at the first place whose
/// card it goes before keeps the order sorted and stable.
proof fn lemma_insert_sorted(cards: Seq<ArchiveEntry>, by_date: bool, s: Seq<usize>, p: int, x: usize)
    requires
        0 <= p <= s.len(),
        x < cards.len(),
        forall|k: int| 0 <= k < s.len() ==> s[k] < x,
        forall|k: int| 0 <= k < p ==> !archive_before(
            archive_key(cards[x as int], by_date),
            archive_key(cards[s[k] as int], by_date),
            by_date,
        ),
        p < s.len() ==> archive_before(
            archive_key(cards[x as int], by_date),
            archive_key(cards[s[p] as int], by_date),
            by_date,
        ),
        forall|k: int, l: int|
            0 <= k < l < s.len() ==> !archive_before(
                archive_key(cards[s[l] as int], by_date),
                archive_key(cards[s[k] as int], by_date),
                by_date,
            ),
        forall|k: int, l: int|
            0 <= k < l < s.len() && archive_key(cards[s[k] as int], by_date) == archive_key(
                cards[s[l] as int],
                by_date,
            ) ==> s[k] < s[l],
        forall|k: int, l: int| 0 <= k < l < s.len() ==> s[k] != s[l],
    ensures
        ({
            let t = s.insert(p, x);
            &&& forall|k: int, l: int| 0 <= k < l < t.len() ==> t[k] != t[l]
            &&& forall|k: int, l: int|
                0 <= k < l < t.len() ==> !archive_before(
                    archive_key(cards[t[l] as int], by_date),
                    archive_key(cards[t[k] as int], by_date),
                    by_date,
                )
            &&& forall|k: int, l: int|
                0 <= k < l < t.len() && archive_key(cards[t[k] as int], by_date) == archive_key(
                    cards[t[l] as int],
                    by_date,
                ) ==> t[k] < t[l]
        }),
{
    let t = s.insert(p, x);
    let kx = archive_key(cards[x as int], by_date);
    assert forall|k: int, l: int| 0 <= k < l < t.len() implies {
        &&& t[k] != t[l]
        &&& !archive_before(
            archive_key(cards[t[l] as int], by_date),
            archive_key(cards[t[k] as int], by_date),
            by_date,
        )
        &&& (archive_key(cards[t[k] as int], by_date) == archive_key(cards[t[l] as int], by_date)
            ==> t[k] < t[l])
    } by {
        let kk = archive_key(cards[t[k] as int], by_date);
        let kl = archive_key(cards[t[l] as int], by_date);
        if l < p {
            assert(t[k] == s[k] && t[l] == s[l]);
        } else if l == p {
            assert(t[l] == x && t[k] == s[k]);
        } else if k == p {
            assert(t[k] == x && t[l] == s[l - 1]);
            let kp = archive_key(cards[s[p] as int], by_date);
            lemma_key_before_strict(kx, kp, kl);
            lemma_key_before_strict(kl, kx, kp);
            lemma_key_before_strict(kp, kx, kl);
            lemma_key_before_strict(kl, kp, kx);
            if l - 1 > p {
                assert(!archive_before(kl, kp, by_date));
            }
        } else if k < p {
            assert(t[k] == s[k] && t[l] == s[l - 1]);
        } else {
            assert(t[k] == s[k - 1] && t[l] == s[l - 1]);
        }
    }
}


// ------------------------------------------------------------------
// Topic and image lists
// ------------------------------------------------------------------

/// A topic is listed when the search is empty or occurs, lower-cased, in
/// its lower-cased name or card type.
pub open spec fn topic_listed(name: Seq<char>, tipcard_type: Seq<char>, search: Seq<char>) -> bool {
    let q = lowercase_of(search);
    q.len() == 0 || contains(lowercase_of(name), q) || contains(lowercase_of(tipcard_type), q)
}

/// A topic is listed exactly when the lower-cased search is empty or occurs
/// in its lower-cased name or in its lower-cased card type.
pub proof fn lemma_topic_listed(name: Seq<char>, tipcard_type: Seq<char>, search: Seq<char>)
    ensures
        topic_listed(name, tipcard_type, search) <==> (lowercase_of(search).len() == 0 || contains(
            lowercase_of(name),
            lowercase_of(search),
        ) || contains(lowercase_of(tipcard_type), lowercase_of(search))),
{
}

pub fn topic_matches(name: &str, tipcard_type: &str, search: &str) -> (r: bool)
    ensures
        r == topic_listed(name@, tipcard_type@, search@),
{
    let q = chars_of(lowercase(search).as_str());
    q.len() == 0 || contains_chars(&chars_of(lowercase(name).as_str()), &q) || contains_chars(
        &chars_of(lowercase(tipcard_type).as_str()),
        &q,
    )
}

/// A pool image is listed when the search is empty or occurs, lower-cased,
/// in its lower-cased name, description or one of its tags.
pub open spec fn image_listed(
    name: Seq<char>,
    description: Option<Seq<char>>,
    tags: Seq<Seq<char>>,
    search: Seq<char>,
) -> bool {
    let q = lowercase_of(search);
    ||| q.len() == 0
    ||| contains(lowercase_of(name), q)
    ||| (description matches Some(d) && contains(lowercase_of(d), q))
    ||| exists|i: int| 0 <= i < tags.len() && contains(lowercase_of(#[trigger] tags[i]), q)
}

/// A pool image is listed exactly when the lower-cased search is empty or
/// occurs in its lower-cased name, its lower-cased description or one of
/// its lower-cased tags.
pub proof fn lemma_image_listed(
    name: Seq<char>,
    description: Option<Seq<char>>,
    tags: Seq<Seq<char>>,
    search: Seq<char>,
)
    ensures
        image_listed(name, description, tags, search) <==> (lowercase_of(search).len() == 0
            || contains(lowercase_of(name), lowercase_of(search)) || (description matches Some(d)
            && contains(lowercase_of(d), lowercase_of(search))) || exists|i: int|
            0 <= i < tags.len() && contains(lowercase_of(#[trigger] tags[i]), lowercase_of(search))),
{
}

pub fn pool_image_matches(
    name: &str,
    description: Option<&str>,
    tags: &Vec<String>,
    search: &str,
) -> (r: bool)
    ensures
        r == image_listed(name@, opt_str_view(description), strings_view(tags@), search@),
{
    let q = chars_of(lowercase(search).as_str());
    if q.len() == 0 || contains_chars(&chars_of(lowercase(name).as_str()), &q) {
        return true;
    }
    match description {
        Some(d) => {
            if contains_chars(&chars_of(lowercase(d).as_str()), &q) {
                assert(opt_str_view(description) == Some(d@));
                assert(contains(lowercase_of(d@), lowercase_of(search@)));
                return true;
            }
        },
        None => {},
    }
    let ghost all = strings_view(tags@);
    let mut i: usize = 0;
    while i < tags.len()
        invariant
            i <= tags@.len(),
            all == strings_view(tags@),
            q@ == lowercase_of(search@),
            forall|k: int| 0 <= k < i ==> !contains(lowercase_of(#[trigger] all[k]), q@),
        decreases tags@.len() - i,
    {
        if contains_chars(&chars_of(lowercase(tags[i].as_str()).as_str()), &q) {
            assert(all[i as int] == tags@[i as int]@);
            assert(contains(lowercase_of(all[i as int]), q@));
            return true;
        }
        i = i + 1;
    }
    false
}


// ------------------------------------------------------------------
// The card image picker
// ------------------------------------------------------------------

/// What `char::is_alphanumeric` says of `c`: Unicode alphabetic or numeric.
pub uninterp spec fn alphanumeric(c: char) -> bool;

/// Calls `char::is_alphanumeric`.
///
/// The contract names the result (`alphanumeric`); the Unicode tables are
/// not restated here.
#[verifier::external_body]
fn is_alphanumeric(c: char) -> (r: bool)
    ensures
        r == alphanumeric(c),
{
    c.is_alphanumeric()
}

/// The pieces of `s` between characters that are not alphanumeric, as
/// `str::split` gives them (always at least one, empty ones included).
pub open spec fn alnum_pieces(s: Seq<char>) -> Seq<Seq<char>>
    decreases s.len(),
{
    if s.len() == 0 {
        seq![Seq::empty()]
    } else {
        let p = alnum_pieces(s.drop_last());
        if !alphanumeric(s.last()) {
            p.push(Seq::empty())
        } else {
            p.update(p.len() - 1, p.last().push(s.last()))
        }
    }
}

/// The pieces, lower-cased, that are longer than two bytes.
pub open spec fn long_terms(pieces: Seq<Seq<char>>) -> Seq<Seq<char>>
    decreases pieces.len(),
{
    if pieces.len() == 0 {
        Seq::empty()
    } else {
        let rest = long_terms(pieces.drop_last());
        let t = lowercase_of(pieces.last());
        if encode_utf8(t).len() > 2 {
            rest.push(t)
        } else {
            rest
        }
    }
}

/// The terms a card's text is matched by: its alphanumeric runs,
/// lower-cased, longer than two bytes.
pub open spec fn context_term_list(context: Seq<char>) -> Seq<Seq<char>> {
    long_terms(alnum_pieces(context))
}

/// Every term is the lower-cased form of one of the pieces and is longer
/// than two bytes, and every piece whose lower-cased form is longer than
/// two bytes gives a term.
pub proof fn lemma_long_terms(pieces: Seq<Seq<char>>)
    ensures
        forall|k: int|
            0 <= k < long_terms(pieces).len() ==> encode_utf8(#[trigger] long_terms(pieces)[k]).len()
                > 2 && exists|i: int| 0 <= i < pieces.len() && long_terms(pieces)[k] == lowercase_of(pieces[i]),
        forall|i: int|
            0 <= i < pieces.len() && encode_utf8(lowercase_of(#[trigger] pieces[i])).len() > 2
                ==> long_terms(pieces).contains(lowercase_of(pieces[i])),
    decreases pieces.len(),
{
    if pieces.len() > 0 {
        let init = pieces.drop_last();
        lemma_long_terms(init);
        let rest = long_terms(init);
        let t = lowercase_of(pieces.last());
        let all = long_terms(pieces);
        assert forall|k: int|
            0 <= k < all.len() implies encode_utf8(#[trigger] all[k]).len() > 2 && exists|i: int|
                0 <= i < pieces.len() && all[k] == lowercase_of(pieces[i]) by {
            if k < rest.len() {
                assert(all[k] == rest[k]);
                let i = choose|i: int| 0 <= i < init.len() && rest[k] == lowercase_of(init[i]);
                assert(pieces[i] == init[i]);
            } else {
                assert(all[k] == t);
                assert(pieces[pieces.len() - 1] == pieces.last());
            }
        }
        assert forall|i: int|
            0 <= i < pieces.len() && encode_utf8(lowercase_of(#[trigger] pieces[i])).len() > 2
                implies all.contains(lowercase_of(pieces[i])) by {
            if i < init.len() {
                assert(pieces[i] == init[i]);
                assert(rest.contains(lowercase_of(init[i])));
                let k = choose|k: int| 0 <= k < rest.len() && rest[k] == lowercase_of(init[i]);
                assert(all[k] == rest[k]);
            } else {
                assert(all[all.len() - 1] == t);
            }
        }
    }
}

/// Every piece is made of alphanumeric characters only, and there is one
/// piece more than there are other characters.
pub proof fn lemma_alnum_pieces(s: Seq<char>)
    ensures
        forall|i: int, j: int|
            0 <= i < alnum_pieces(s).len() && 0 <= j < alnum_pieces(s)[i].len() ==> alphanumeric(
                #[trigger] alnum_pieces(s)[i][j],
            ),
        alnum_pieces(s).len() == 1 + s.filter(|c: char| !alphanumeric(c)).len(),
    decreases s.len(),
{
    if s.len() == 0 {
        assert(s.filter(|c: char| !alphanumeric(c)) =~= Seq::<char>::empty());
    } else {
        let init = s.drop_last();
        lemma_alnum_pieces(init);
        let p = alnum_pieces(init);
        let all = alnum_pieces(s);
        assert(s =~= init.push(s.last()));
        init.lemma_filter_push(s.last(), |c: char| !alphanumeric(c));
        assert forall|i: int, j: int|
            0 <= i < all.len() && 0 <= j < all[i].len() implies alphanumeric(#[trigger] all[i][j]) by {
            if !alphanumeric(s.last()) {
                if i < p.len() {
                    assert(all[i] == p[i]);
                }
            } else {
                if i < p.len() - 1 {
                    assert(all[i] == p[i]);
                } else {
                    assert(all[i] == p.last().push(s.last()));
                    if j < p.last().len() {
                        assert(all[i][j] == p[p.len() - 1][j]);
                    }
                }
            }
        }
    }
}

pub fn context_terms(context: &str) -> (r: Vec<String>)
    ensures
        strings_view(r@) == context_term_list(context@),
{
    let cs = chars_of(context);
    let mut out: Vec<String> = Vec::new();
    let mut cur = String::new();
    let mut i: usize = 0;
    proof {
        assert(cs@.take(0) =~= Seq::<char>::empty());
    }
    while i < cs.len()
        invariant
            i <= cs@.len(),
            cs@ == context@,
            alnum_pieces(cs@.take(i as int)).len() >= 1,
            cur@ == alnum_pieces(cs@.take(i as int)).last(),
            strings_view(out@) == long_terms(alnum_pieces(cs@.take(i as int)).drop_last()),
        decreases cs@.len() - i,
    {
        let c = cs[i];
        let ghost t = cs@.take(i + 1);
        let ghost p = alnum_pieces(cs@.take(i as int));
        proof {
            assert(t.drop_last() =~= cs@.take(i as int));
            assert(t.last() == c);
        }
        if !is_alphanumeric(c) {
            let term = lowercase(cur.as_str());
            let ghost before = strings_view(out@);
            proof {
                assert(alnum_pieces(t) == p.push(Seq::empty()));
                assert(alnum_pieces(t).drop_last() =~= p);
                assert(p.drop_last().push(p.last()) =~= p);
            }
            if term.as_str().as_bytes().len() > 2 {
                out.push(term);
                assert(strings_view(out@) =~= before.push(lowercase_of(p.last())));
            }
            cur = String::new();
        } else {
            push_char(&mut cur, c);
            proof {
                assert(alnum_pieces(t) == p.update(p.len() - 1, p.last().push(c)));
                assert(alnum_pieces(t).drop_last() =~= p.drop_last());
            }
        }
        i = i + 1;
    }
    assert(cs@.take(cs@.len() as int) =~= cs@);
    let ghost p = alnum_pieces(cs@);
    let term = lowercase(cur.as_str());
    let ghost before = strings_view(out@);
    proof {
        assert(p.drop_last().push(p.last()) =~= p);
    }
    if term.as_str().as_bytes().len() > 2 {
        out.push(term);
        assert(strings_view(out@) =~= before.push(lowercase_of(p.last())));
    }
    out
}

/// `order` lists every position of `scores` once, highest score first,
/// equal scores in their order in `scores`.
pub open spec fn by_score(scores: Seq<usize>, order: Seq<usize>) -> bool {
    &&& order.len() == scores.len()
    &&& forall|k: int| #![trigger order[k]] 0 <= k < order.len() ==> order[k] < scores.len()
    &&& forall|k: int, l: int| 0 <= k < l < order.len() ==> order[k] != order[l]
    &&& forall|k: int, l: int|
        0 <= k < l < order.len() ==> scores[order[l] as int] <= scores[order[k] as int]
    &&& forall|k: int, l: int|
        0 <= k < l < order.len() && scores[order[k] as int] == scores[order[l] as int]
            ==> order[k] < order[l]
}

/// The suggestions list every image: each position of `scores` occurs in
/// the order, and the first one shown scores at least as high as any.
pub proof fn lemma_suggestions_cover(scores: Seq<usize>, order: Seq<usize>)
    requires
        by_score(scores, order),
    ensures
        forall|j: usize| j < scores.len() ==> #[trigger] order.contains(j),
        order.len() > 0 ==> forall|j: int| 0 <= j < scores.len() ==> #[trigger] scores[j] <= scores[order[0] as int],
{
    let n = scores.len() as int;
    let oi = order.map_values(|x: usize| x as int);
    assert(oi.no_duplicates()) by {
        assert forall|k: int, l: int| 0 <= k < oi.len() && 0 <= l < oi.len() && k != l implies oi[k] != oi[l] by {
            if k < l {
                assert(order[k] != order[l]);
            } else {
                assert(order[l] != order[k]);
            }
        }
    }
    oi.unique_seq_to_set();
    vstd::set_lib::lemma_int_range(0, n);
    let r = vstd::set_lib::set_int_range(0, n);
    assert(oi.to_set().subset_of(r)) by {
        assert forall|x: int| oi.to_set().contains(x) implies r.contains(x) by {
            let k = choose|k: int| 0 <= k < oi.len() && oi[k] == x;
            assert(order[k] < scores.len());
        }
    }
    vstd::set_lib::lemma_subset_equality(oi.to_set(), r);
    assert forall|j: usize| j < scores.len() implies #[trigger] order.contains(j) by {
        assert(r.contains(j as int));
        assert(oi.to_set().contains(j as int));
        let k = choose|k: int| 0 <= k < order.len() && #[trigger] oi[k] == j as int;
        assert(order[k] == j);
    }
    if order.len() > 0 {
        assert forall|j: int| 0 <= j < scores.len() implies #[trigger] scores[j] <= scores[order[0] as int] by {
            assert(r.contains(j));
            assert(oi.to_set().contains(j));
            let k = choose|k: int| 0 <= k < order.len() && #[trigger] oi[k] == j;
            assert(order[k] as int == j);
            if k > 0 {
                assert(scores[order[k] as int] <= scores[order[0] as int]);
            }
        }
    }
}

/// The order in which suggested pool images are shown: by descending score,
/// ties kept in their order.
pub fn suggestion_order(scores: &Vec<usize>) -> (r: Vec<usize>)
    ensures
        by_score(scores@, r@),
{
    let mut out: Vec<usize> = Vec::new();
    let mut i: usize = 0;
    while i < scores.len()
        invariant
            i <= scores@.len(),
            out@.len() == i,
            forall|k: int| #![trigger out@[k]] 0 <= k < out@.len() ==> out@[k] < i,
            forall|k: int, l: int| 0 <= k < l < out@.len() ==> out@[k] != out@[l],
            forall|k: int, l: int|
                0 <= k < l < out@.len() ==> scores@[out@[l] as int] <= scores@[out@[k] as int],
            forall|k: int, l: int|
                0 <= k < l < out@.len() && scores@[out@[k] as int] == scores@[out@[l] as int]
                    ==> out@[k] < out@[l],
        decreases scores@.len() - i,
    {
        let mut p: usize = 0;
        while p < out.len() && scores[out[p]] >= scores[i]
            invariant
                p <= out@.len(),
                i < scores@.len(),
                forall|k: int| 0 <= k < out@.len() ==> out@[k] < i,
                forall|k: int| 0 <= k < p ==> scores@[i as int] <= scores@[out@[k] as int],
            decreases out@.len() - p,
        {
            p = p + 1;
        }
        let ghost before = out@;
        out.insert(p, i);
        proof {
            let t = out@;
            assert(t =~= before.insert(p as int, i));
            assert forall|k: int, l: int| 0 <= k < l < t.len() implies {
                &&& t[k] != t[l]
                &&& scores@[t[l] as int] <= scores@[t[k] as int]
                &&& (scores@[t[k] as int] == scores@[t[l] as int] ==> t[k] < t[l])
            } by {
                if l < p {
                    assert(t[k] == before[k] && t[l] == before[l]);
                } else if l == p {
                    assert(t[l] == i && t[k] == before[k]);
                } else if k == p {
                    assert(t[k] == i && t[l] == before[l - 1]);
                    if p < before.len() {
                        assert(scores@[before[p as int] as int] < scores@[i as int]);
                        if l - 1 > p {
                            assert(scores@[before[l - 1] as int] <= scores@[before[p as int] as int]);
                        }
                    }
                } else if k < p {
                    assert(t[k] == before[k] && t[l] == before[l - 1]);
                } else {
                    assert(t[k] == before[k - 1] && t[l] == before[l - 1]);
                }
            }
            assert forall|k: int| 0 <= k < t.len() implies t[k] < i + 1 by {
                if k < p {
                    assert(t[k] == before[k]);
                } else if k > p {
                    assert(t[k] == before[k - 1]);
                }
            }
        }
        i = i + 1;
    }
    out
}

/// The most images a card can have.
pub const MAX_CARD_IMAGES: usize = 4;

/// How many more images a card with `existing` images can take.
pub fn remaining_image_slots(existing: usize) -> (r: usize)
    ensures
        r == (if existing < MAX_CARD_IMAGES {
            MAX_CARD_IMAGES - existing
        } else {
            0
        }),
{
    MAX_CARD_IMAGES.saturating_sub(existing)
}

/// How many images the picker still accepts: the card's remaining slots
/// less the uploads, the chosen pool images and a typed URL.
pub fn available_image_slots(remaining: usize, uploads: usize, pool: usize, has_url: bool) -> (r:
    usize)
    requires
        uploads + pool + 1 <= usize::MAX,
    ensures
        r == (if uploads + pool + (if has_url {
            1int
        } else {
            0int
        }) < remaining {
            remaining - (uploads + pool + (if has_url {
                1int
            } else {
                0int
            }))
        } else {
            0
        }),
{
    let chosen = uploads + pool + if has_url {
        1
    } else {
        0
    };
    remaining.saturating_sub(chosen)
}

/// Keeps at most `available` of the new uploads; `true` when some had to go.
pub fn cap_uploads(images: &mut Vec<String>, available: usize) -> (cut: bool)
    ensures
        cut == (old(images)@.len() > available),
        final(images)@ == (if cut {
            old(images)@.take(available as int)
        } else {
            old(images)@
        }),
{
    if images.len() > available {
        images.truncate(available);
        true
    } else {
        false
    }
}

/// Whether one more pool image may be chosen when `chosen` images are picked.
pub fn can_choose_another(chosen: usize, remaining: usize) -> (r: bool)
    ensures
        r == (chosen < remaining),
{
    chosen < remaining
}

/// The message shown when the picker refuses an image.
pub fn image_cap_message() -> (r: String)
    ensures
        r@ == "A card can have at most 4 images"@,
{
    owned("A card can have at most 4 images")
}

} // verus!
