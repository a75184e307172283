//! The list of recently used accounts offered on the sign-in screen:
//! most recent first, each name once, at most five names.

use vstd::prelude::*;
use crate::codec::strings_view;
use crate::text::{owned, str_eq};

verus! {

/// How many account names are remembered.
pub const REMEMBERED_MAX: usize = 5;

/// The names of `accounts` other than `name`, in order.
pub open spec fn others(accounts: Seq<Seq<char>>, name: Seq<char>) -> Seq<Seq<char>>
    decreases accounts.len(),
{
    if accounts.len() == 0 {
        Seq::empty()
    } else {
        let rest = others(accounts.drop_last(), name);
        if accounts.last() == name {
            rest
        } else {
            rest.push(accounts.last())
        }
    }
}

/// The remembered list after `name` signed in: `name` moves (or is added)
/// to the front, the others keep their order, and the list is cut to
/// [`REMEMBERED_MAX`] names. An empty name changes nothing.
pub open spec fn recorded(accounts: Seq<Seq<char>>, name: Seq<char>) -> Seq<Seq<char>> {
    if name.len() == 0 {
        accounts
    } else {
        let all = seq![name] + others(accounts, name);
        if all.len() > REMEMBERED_MAX {
            all.take(REMEMBERED_MAX as int)
        } else {
            all
        }
    }
}

/// Records that `name` signed in, in the remembered list `accounts`.
pub fn record_account(accounts: &mut Vec<String>, name: &str)
    ensures
        strings_view(final(accounts)@) == recorded(strings_view(old(accounts)@), name@),
{
    if name.is_empty() {
        return;
    }
    let ghost old_view = strings_view(accounts@);
    let mut out: Vec<String> = Vec::new();
    out.push(owned(name));
    let mut i: usize = 0;
    while i < accounts.len()
        invariant
            i <= accounts@.len(),
            old_view == strings_view(accounts@),
            strings_view(out@) == seq![name@] + others(old_view.take(i as int), name@),
        decreases accounts@.len() - i,
    {
        let a = &accounts[i];
        proof {
            assert(old_view.take(i + 1).drop_last() =~= old_view.take(i as int));
            assert(old_view.take(i + 1).last() == a@);
        }
        if !str_eq(a.as_str(), name) {
            let ghost prev = strings_view(out@);
            out.push(a.clone());
            assert(strings_view(out@) =~= prev.push(a@));
            assert(others(old_view.take(i + 1), name@) == others(old_view.take(i as int), name@).push(
                a@,
            ));
            assert(strings_view(out@) =~= seq![name@] + others(old_view.take(i + 1), name@));
        } else {
            assert(strings_view(out@) =~= seq![name@] + others(old_view.take(i + 1), name@));
        }
        i = i + 1;
    }
    assert(old_view.take(accounts@.len() as int) =~= old_view);
    if out.len() > REMEMBERED_MAX {
        out.truncate(REMEMBERED_MAX);
        assert(strings_view(out@) =~= (seq![name@] + others(old_view, name@)).take(
            REMEMBERED_MAX as int,
        ));
    }
    *accounts = out;
}

proof fn lemma_others_keeps(s: Seq<Seq<char>>, name: Seq<char>)
    requires
        forall|i: int| 0 <= i < s.len() ==> s[i] != name,
    ensures
        others(s, name) == s,
    decreases s.len(),
{
    if s.len() > 0 {
        lemma_others_keeps(s.drop_last(), name);
        assert(s.drop_last().push(s.last()) =~= s);
    }
}

/// Every name in `others(s, name)` is a name of `s` other than `name`.
proof fn lemma_others_from(s: Seq<Seq<char>>, name: Seq<char>)
    ensures
        others(s, name).len() <= s.len(),
        forall|i: int|
            #![trigger others(s, name)[i]]
            0 <= i < others(s, name).len() ==> others(s, name)[i] != name && s.contains(
                others(s, name)[i],
            ),
    decreases s.len(),
{
    if s.len() > 0 {
        let d = s.drop_last();
        lemma_others_from(d, name);
        assert forall|i: int|
            #![trigger others(s, name)[i]]
            0 <= i < others(s, name).len() implies others(s, name)[i] != name && s.contains(
                others(s, name)[i],
            ) by {
            if i < others(d, name).len() {
                assert(others(s, name)[i] == others(d, name)[i]);
                let k = choose|k: int| 0 <= k < d.len() && d[k] == others(d, name)[i];
                assert(s[k] == d[k]);
            } else {
                assert(s[s.len() - 1] == s.last());
            }
        }
    }
}

/// `name` in front of names that are not `name`: the others are exactly those names.
proof fn lemma_others_after_name(tail: Seq<Seq<char>>, name: Seq<char>)
    requires
        forall|i: int| 0 <= i < tail.len() ==> tail[i] != name,
    ensures
        others(seq![name] + tail, name) == tail,
    decreases tail.len(),
{
    if tail.len() == 0 {
        let s = seq![name] + tail;
        assert(s.drop_last() =~= Seq::<Seq<char>>::empty());
        assert(others(s.drop_last(), name) =~= Seq::<Seq<char>>::empty());
        assert(s.last() == name);
        assert(others(s, name) =~= tail);
    } else {
        let s = seq![name] + tail;
        assert forall|i: int| 0 <= i < tail.drop_last().len() implies tail.drop_last()[i] != name by {
            assert(tail.drop_last()[i] == tail[i]);
        }
        assert(tail[tail.len() - 1] != name);
        lemma_others_after_name(tail.drop_last(), name);
        assert(s.drop_last() =~= seq![name] + tail.drop_last());
        assert(s.last() == tail.last());
        assert(tail.drop_last().push(tail.last()) =~= tail);
        assert(others(s.drop_last(), name) == tail.drop_last());
        assert(others(s, name) =~= tail);
    }
}

/// Signing in with a non-empty name puts it first, keeps exactly one copy of
/// it, and leaves at most [`REMEMBERED_MAX`] names.
pub proof fn lemma_recorded_shape(accounts: Seq<Seq<char>>, name: Seq<char>)
    requires
        name.len() > 0,
    ensures
        recorded(accounts, name).len() >= 1,
        recorded(accounts, name)[0] == name,
        recorded(accounts, name).len() <= REMEMBERED_MAX,
        forall|i: int|
            1 <= i < recorded(accounts, name).len() ==> recorded(accounts, name)[i] != name,
{
    lemma_others_from(accounts, name);
}

/// Signing in twice in a row with the same name gives the list of one sign-in.
pub proof fn lemma_record_idempotent(accounts: Seq<Seq<char>>, name: Seq<char>)
    ensures
        recorded(recorded(accounts, name), name) == recorded(accounts, name),
{
    if name.len() > 0 {
        let r = recorded(accounts, name);
        lemma_others_from(accounts, name);
        let tail = r.drop_first();
        assert forall|i: int| 0 <= i < tail.len() implies tail[i] != name by {
            assert(tail[i] == r[i + 1]);
        }
        assert(r =~= seq![name] + tail);
        lemma_others_after_name(tail, name);
        assert(seq![name] + others(r, name) =~= r);
    }
}

/// A list without repeated names keeps that property.
pub proof fn lemma_record_distinct(accounts: Seq<Seq<char>>, name: Seq<char>)
    requires
        forall|i: int, j: int| 0 <= i < j < accounts.len() ==> accounts[i] != accounts[j],
    ensures
        forall|i: int, j: int|
            0 <= i < j < recorded(accounts, name).len() ==> recorded(accounts, name)[i]
                != recorded(accounts, name)[j],
{
    if name.len() > 0 {
        let o = others(accounts, name);
        lemma_others_from(accounts, name);
        lemma_others_distinct(accounts, name);
        let all = seq![name] + o;
        assert forall|i: int, j: int| 0 <= i < j < all.len() implies all[i] != all[j] by {
            if i == 0 {
                assert(all[j] == o[j - 1]);
            } else {
                assert(all[i] == o[i - 1] && all[j] == o[j - 1]);
            }
        }
    }
}

proof fn lemma_others_distinct(s: Seq<Seq<char>>, name: Seq<char>)
    requires
        forall|i: int, j: int| 0 <= i < j < s.len() ==> s[i] != s[j],
    ensures
        forall|i: int, j: int|
            0 <= i < j < others(s, name).len() ==> others(s, name)[i] != others(s, name)[j],
    decreases s.len(),
{
    if s.len() > 0 {
        let d = s.drop_last();
        lemma_others_distinct(d, name);
        lemma_others_from(d, name);
        let f = others(d, name);
        if s.last() != name {
            assert forall|i: int| 0 <= i < f.len() implies f[i] != s.last() by {
                let k = choose|k: int| 0 <= k < d.len() && d[k] == f[i];
                assert(s[k] == d[k]);
                assert(s[s.len() - 1] == s.last());
            }
        }
    }
}

} // verus!
