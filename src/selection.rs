use crate::error::GossipError;
use crate::nostr::unix_now;
use crate::registry::kept;
use crate::relay::Relay3;
use crate::url::{lemma_url_lt_total, lemma_url_lt_transitive, url_lt, RelayUrl};
use vstd::prelude::*;

verus! {

/// The texts of a list of addresses.
pub open spec fn url_views(s: Seq<RelayUrl>) -> Seq<Seq<char>> {
    s.map_values(|u: RelayUrl| u@)
}

/// The addresses of a list of records.
pub open spec fn urls_of(s: Seq<Relay3>) -> Seq<RelayUrl> {
    s.map_values(|r: Relay3| r.url)
}

/// Whether a record passes the fixed filters of a selection at time `now`:
/// it has every usage in `bits`, a rank other than 0, and is not avoided.
pub open spec fn selectable(r: Relay3, bits: u64, now: i64) -> bool {
    r.has_usage(bits) && r.rank != 0 && !r.avoided_at(now)
}

/// Whether `f` accepts `r`, that is, cannot answer `false` on it.
pub open spec fn accepts<F: Fn(&Relay3) -> bool>(f: F, r: Relay3) -> bool {
    !f.ensures((&r,), false)
}

/// `f` seen as a predicate on records.
pub open spec fn keeper<F: Fn(&Relay3) -> bool>(f: F) -> spec_fn(Relay3) -> bool {
    |r: Relay3| accepts(f, r)
}

/// The predicate that keeps every record.
pub open spec fn keep_all() -> spec_fn(Relay3) -> bool {
    |r: Relay3| true
}

/// Whether `f` can be called on every record and answers each in one way.
pub open spec fn is_predicate<F: Fn(&Relay3) -> bool>(f: F) -> bool {
    &&& forall|r: &Relay3| #[trigger] f.requires((r,))
    &&& forall|r: &Relay3| #[trigger] f.ensures((r,), true) ==> !f.ensures((r,), false)
}

/// The records that a selection keeps, in their order: those selectable at
/// `now` for `bits` that `keep` accepts.
pub open spec fn chosen(
    relays: Seq<Relay3>,
    bits: u64,
    now: i64,
    keep: spec_fn(Relay3) -> bool,
) -> Seq<Relay3>
    decreases relays.len(),
{
    if relays.len() == 0 {
        Seq::empty()
    } else {
        let rest = chosen(relays.drop_last(), bits, now, keep);
        let r = relays.last();
        if selectable(r, bits, now) && keep(r) {
            rest.push(r)
        } else {
            rest
        }
    }
}

/// A selection never keeps a record of rank 0, an avoided record, a record
/// without the asked usage, or one that the predicate refuses.
pub proof fn lemma_chosen_are_selectable(
    relays: Seq<Relay3>,
    bits: u64,
    now: i64,
    keep: spec_fn(Relay3) -> bool,
)
    ensures
        forall|i: int|
            0 <= i < chosen(relays, bits, now, keep).len() ==> {
                let r = #[trigger] chosen(relays, bits, now, keep)[i];
                &&& r.rank != 0
                &&& !r.avoided_at(now)
                &&& r.has_usage(bits)
                &&& keep(r)
            },
    decreases relays.len(),
{
    if relays.len() > 0 {
        lemma_chosen_are_selectable(relays.drop_last(), bits, now, keep);
    }
}

/// Copies of the addresses of `relays`.
fn collect_urls(relays: &Vec<Relay3>) -> (r: Vec<RelayUrl>)
    ensures
        r@ == urls_of(relays@),
{
    let mut out: Vec<RelayUrl> = Vec::new();
    let mut i: usize = 0;
    while i < relays.len()
        invariant
            0 <= i <= relays.len(),
            out@ == urls_of(relays@.subrange(0, i as int)),
        decreases relays.len() - i,
    {
        out.push(relays[i].url.clone());
        proof {
            assert(urls_of(relays@.subrange(0, i + 1)) =~= urls_of(relays@.subrange(0, i as int)).push(
                relays@[i as int].url,
            ));
        }
        i = i + 1;
    }
    proof {
        assert(relays@.subrange(0, relays.len() as int) =~= relays@);
    }
    out
}

/// Whether no record of `s` stores an avoidance limit; the time then has
/// no bearing on any selection.
pub open spec fn no_limits(s: Seq<Relay3>) -> bool {
    forall|i: int| 0 <= i < s.len() ==> (#[trigger] s[i]).avoid_until is None
}

/// Whether a record of `relays` stores an avoidance limit.
fn has_limits(relays: &Vec<Relay3>) -> (r: bool)
    ensures
        r == !no_limits(relays@),
{
    let mut i: usize = 0;
    while i < relays.len()
        invariant
            0 <= i <= relays.len(),
            forall|k: int| 0 <= k < i ==> (#[trigger] relays@[k]).avoid_until is None,
        decreases relays.len() - i,
    {
        if relays[i].avoid_until.is_some() {
            return true;
        }
        i = i + 1;
    }
    false
}

impl Relay3 {
    /// The records of `relays` that have every usage in `bits`, a rank other
    /// than 0, are not avoided at `now`, and that `f` accepts, in their order.
    pub fn choose_relays_at<F: Fn(&Relay3) -> bool>(
        relays: &Vec<Relay3>,
        bits: u64,
        now: i64,
        f: F,
    ) -> (r: Vec<Relay3>)
        requires
            is_predicate(f),
        ensures
            r@ == chosen(relays@, bits, now, keeper(f)),
    {
        let mut out: Vec<Relay3> = Vec::new();
        let mut i: usize = 0;
        while i < relays.len()
            invariant
                0 <= i <= relays.len(),
                is_predicate(f),
                out@ == chosen(relays@.subrange(0, i as int), bits, now, keeper(f)),
            decreases relays.len() - i,
        {
            let r = &relays[i];
            proof {
                assert(relays@.subrange(0, i + 1).drop_last() =~= relays@.subrange(0, i as int));
            }
            if r.has_usage_bits(bits) && r.rank != 0 && !r.should_avoid_at(now) && f(r) {
                out.push(r.clone());
            }
            i = i + 1;
        }
        proof {
            assert(relays@.subrange(0, relays.len() as int) =~= relays@);
        }
        out
    }

    /// The selection of `choose_relays_at`, at the time of the system clock.
    pub fn choose_relays<F: Fn(&Relay3) -> bool>(relays: &Vec<Relay3>, bits: u64, f: F) -> (r:
        Result<Vec<Relay3>, GossipError>)
        requires
            is_predicate(f),
        ensures
            match r {
                Ok(v) => exists|now: i64| v@ == #[trigger] chosen(relays@, bits, now, keeper(f)),
                Err(e) => e == GossipError::Clock,
            },
            no_limits(relays@) ==> r is Ok && r->Ok_0@ == chosen(relays@, bits, 0, keeper(f)),
            relays@.len() == 0 ==> r is Ok && r->Ok_0@.len() == 0,
    {
        if !has_limits(relays) {
            return Ok(Relay3::choose_relays_at(relays, bits, 0, f));
        }
        match unix_now() {
            Ok(now) => Ok(Relay3::choose_relays_at(relays, bits, now, f)),
            Err(_) => Err(GossipError::Clock),
        }
    }

    /// The addresses of the records that `choose_relays_at` keeps.
    pub fn choose_relay_urls_at<F: Fn(&Relay3) -> bool>(
        relays: &Vec<Relay3>,
        bits: u64,
        now: i64,
        f: F,
    ) -> (r: Vec<RelayUrl>)
        requires
            is_predicate(f),
        ensures
            r@ == urls_of(chosen(relays@, bits, now, keeper(f))),
    {
        let kept = Relay3::choose_relays_at(relays, bits, now, f);
        collect_urls(&kept)
    }

    /// The addresses of the records that `choose_relays` keeps.
    pub fn choose_relay_urls<F: Fn(&Relay3) -> bool>(relays: &Vec<Relay3>, bits: u64, f: F) -> (r:
        Result<Vec<RelayUrl>, GossipError>)
        requires
            is_predicate(f),
        ensures
            match r {
                Ok(v) => exists|now: i64|
                    v@ == urls_of(#[trigger] chosen(relays@, bits, now, keeper(f))),
                Err(e) => e == GossipError::Clock,
            },
            no_limits(relays@) ==> r is Ok && r->Ok_0@ == urls_of(
                chosen(relays@, bits, 0, keeper(f)),
            ),
            relays@.len() == 0 ==> r is Ok && r->Ok_0@.len() == 0,
    {
        if !has_limits(relays) {
            return Ok(Relay3::choose_relay_urls_at(relays, bits, 0, f));
        }
        match unix_now() {
            Ok(now) => Ok(Relay3::choose_relay_urls_at(relays, bits, now, f)),
            Err(_) => Err(GossipError::Clock),
        }
    }
}


/// The first address of `inbox`, from index `i` on, that `seen` holds.
pub open spec fn first_shared(inbox: Seq<Seq<char>>, seen: Seq<Seq<char>>, i: int) -> Option<
    Seq<char>,
>
    decreases inbox.len() - i,
{
    if i < 0 || i >= inbox.len() {
        None
    } else if seen.contains(inbox[i]) {
        Some(inbox[i])
    } else {
        first_shared(inbox, seen, i + 1)
    }
}

/// The relay to name in a reply: the first of our inbox relays that the
/// event was seen on; else the first relay it was seen on; else none.
pub open spec fn reply_recommendation(inbox: Seq<Seq<char>>, seen: Seq<Seq<char>>) -> Option<
    Seq<char>,
> {
    match first_shared(inbox, seen, 0) {
        Some(u) => Some(u),
        None => if seen.len() > 0 {
            Some(seen[0])
        } else {
            None
        },
    }
}

/// `acc`, extended by the addresses of `seen` from index `i` on that it does
/// not hold yet, at most `extra` of them.
pub open spec fn add_extra(acc: Seq<Seq<char>>, seen: Seq<Seq<char>>, i: int, extra: int) -> Seq<
    Seq<char>,
>
    decreases seen.len() - i,
{
    if i < 0 || i >= seen.len() || extra <= 0 {
        acc
    } else if acc.contains(seen[i]) {
        add_extra(acc, seen, i + 1, extra)
    } else {
        add_extra(acc.push(seen[i]), seen, i + 1, extra - 1)
    }
}

/// `acc`, extended by each address of `s` from index `i` on that it does
/// not hold yet.
pub open spec fn distinct_from(acc: Seq<Seq<char>>, s: Seq<Seq<char>>, i: int) -> Seq<Seq<char>>
    decreases s.len() - i,
{
    if i < 0 || i >= s.len() {
        acc
    } else if acc.contains(s[i]) {
        distinct_from(acc, s, i + 1)
    } else {
        distinct_from(acc.push(s[i]), s, i + 1)
    }
}

/// The addresses of `s` in order, each once.
pub open spec fn distinct(s: Seq<Seq<char>>) -> Seq<Seq<char>> {
    distinct_from(Seq::empty(), s, 0)
}

/// The relays to look for replies on: all of the author's inbox relays, each
/// once, and up to two relays the event was seen on that are not among them.
pub open spec fn reply_relays(inbox: Seq<Seq<char>>, seen: Seq<Seq<char>>) -> Seq<Seq<char>> {
    add_extra(distinct(inbox), seen, 0, 2)
}

proof fn lemma_distinct_from(acc: Seq<Seq<char>>, s: Seq<Seq<char>>, i: int)
    requires
        0 <= i,
    ensures
        ({
            let r = distinct_from(acc, s, i);
            &&& acc.len() <= r.len()
            &&& r.subrange(0, acc.len() as int) == acc
            &&& forall|k: int|
                acc.len() <= k < r.len() ==> s.contains(#[trigger] r[k]) && !acc.contains(r[k])
            &&& forall|k: int| i <= k < s.len() ==> r.contains(#[trigger] s[k])
            &&& acc.no_duplicates() ==> r.no_duplicates()
        }),
    decreases s.len() - i,
{
    let r = distinct_from(acc, s, i);
    if i >= s.len() {
        assert(r.subrange(0, acc.len() as int) =~= acc);
    } else if acc.contains(s[i]) {
        lemma_distinct_from(acc, s, i + 1);
        let w = choose|w: int| 0 <= w < acc.len() && acc[w] == s[i];
        assert(r[w] == r.subrange(0, acc.len() as int)[w]);
        assert(r.contains(s[i]));
    } else {
        let next = acc.push(s[i]);
        lemma_distinct_from(next, s, i + 1);
        assert(r.subrange(0, acc.len() as int) =~= r.subrange(0, next.len() as int).subrange(
            0,
            acc.len() as int,
        ));
        assert(r.subrange(0, acc.len() as int) =~= acc);
        assert(r[acc.len() as int] == r.subrange(0, next.len() as int)[acc.len() as int]);
        assert(r[acc.len() as int] == s[i]);
        assert(r.contains(s[i]));
        assert forall|k: int| acc.len() <= k < r.len() implies s.contains(#[trigger] r[k])
            && !acc.contains(r[k]) by {
            if k == acc.len() {
                assert(s[i] == r[k]);
            } else {
                assert(!next.contains(r[k]));
                if acc.contains(r[k]) {
                    let w = choose|w: int| 0 <= w < acc.len() && acc[w] == r[k];
                    assert(next[w] == r[k]);
                }
            }
        }
        if acc.no_duplicates() {
            assert(next.no_duplicates());
        }
    }
}

proof fn lemma_add_extra(acc: Seq<Seq<char>>, seen: Seq<Seq<char>>, i: int, extra: int)
    requires
        0 <= i,
        0 <= extra,
    ensures
        ({
            let r = add_extra(acc, seen, i, extra);
            &&& acc.len() <= r.len() <= acc.len() + extra
            &&& r.subrange(0, acc.len() as int) == acc
            &&& forall|k: int|
                acc.len() <= k < r.len() ==> seen.contains(#[trigger] r[k]) && !acc.contains(r[k])
            &&& acc.no_duplicates() ==> r.no_duplicates()
        }),
    decreases seen.len() - i,
{
    let r = add_extra(acc, seen, i, extra);
    if i >= seen.len() || extra <= 0 {
        assert(r.subrange(0, acc.len() as int) =~= acc);
    } else if acc.contains(seen[i]) {
        lemma_add_extra(acc, seen, i + 1, extra);
    } else {
        let next = acc.push(seen[i]);
        lemma_add_extra(next, seen, i + 1, extra - 1);
        assert(r.subrange(0, acc.len() as int) =~= r.subrange(0, next.len() as int).subrange(
            0,
            acc.len() as int,
        ));
        assert(r.subrange(0, acc.len() as int) =~= acc);
        assert forall|k: int| acc.len() <= k < r.len() implies seen.contains(#[trigger] r[k])
            && !acc.contains(r[k]) by {
            if k == acc.len() {
                assert(r[k] == r.subrange(0, next.len() as int)[k]);
                assert(r[k] == seen[i]);
            } else {
                assert(!next.contains(r[k]));
                if acc.contains(r[k]) {
                    let w = choose|w: int| 0 <= w < acc.len() && acc[w] == r[k];
                    assert(next[w] == r[k]);
                }
            }
        }
        if acc.no_duplicates() {
            assert(next.no_duplicates());
        }
    }
}

/// What is found for a reply holds every inbox relay of the author, each
/// once and first, then at most two relays that the event was seen on and
/// that are not inbox relays; no address comes twice.
pub proof fn lemma_reply_relays_bounded(inbox: Seq<Seq<char>>, seen: Seq<Seq<char>>)
    ensures
        ({
            let base = distinct(inbox);
            let r = reply_relays(inbox, seen);
            &&& forall|u: Seq<char>| base.contains(u) <==> inbox.contains(u)
            &&& forall|u: Seq<char>| inbox.contains(u) ==> r.contains(u)
            &&& base.len() <= r.len() <= base.len() + 2
            &&& r.subrange(0, base.len() as int) == base
            &&& forall|k: int|
                base.len() <= k < r.len() ==> seen.contains(#[trigger] r[k]) && !inbox.contains(
                    r[k],
                )
            &&& r.no_duplicates()
        }),
{
    let base = distinct(inbox);
    let r = reply_relays(inbox, seen);
    lemma_distinct_from(Seq::empty(), inbox, 0);
    lemma_add_extra(base, seen, 0, 2);
    assert forall|u: Seq<char>| base.contains(u) <==> inbox.contains(u) by {
        if base.contains(u) {
            let k = choose|k: int| 0 <= k < base.len() && base[k] == u;
            assert(inbox.contains(base[k]));
        }
        if inbox.contains(u) {
            let k = choose|k: int| 0 <= k < inbox.len() && inbox[k] == u;
            assert(base.contains(inbox[k]));
        }
    }
    assert forall|u: Seq<char>| inbox.contains(u) implies r.contains(u) by {
        let k = choose|k: int| 0 <= k < base.len() && base[k] == u;
        assert(r[k] == r.subrange(0, base.len() as int)[k]);
    }
    assert(Seq::<Seq<char>>::empty().no_duplicates());
}

/// Whether `list` holds `u`.
fn contains_url(list: &Vec<RelayUrl>, u: &RelayUrl) -> (r: bool)
    ensures
        r == url_views(list@).contains(u@),
{
    let mut i: usize = 0;
    while i < list.len()
        invariant
            0 <= i <= list.len(),
            forall|k: int| 0 <= k < i ==> list@[k]@ != u@,
        decreases list.len() - i,
    {
        if list[i] == *u {
            assert(url_views(list@)[i as int] == u@);
            return true;
        }
        i = i + 1;
    }
    assert(forall|k: int| 0 <= k < list.len() ==> url_views(list@)[k] != u@);
    false
}

impl Relay3 {
    /// The relay to name in a reply to an event seen on `seen_on`: the first
    /// of `my_inbox` (in its order) that the event was seen on; else the first
    /// relay it was seen on; else none. Without a key of our own, `my_inbox`
    /// is empty.
    pub fn recommended_relay_for_reply(seen_on: &Vec<RelayUrl>, my_inbox: &Vec<RelayUrl>) -> (r:
        Option<RelayUrl>)
        ensures
            match r {
                Some(u) => reply_recommendation(url_views(my_inbox@), url_views(seen_on@))
                    == Some(u@),
                None => reply_recommendation(url_views(my_inbox@), url_views(seen_on@)) is None,
            },
    {
        let ghost inbox = url_views(my_inbox@);
        let ghost seen = url_views(seen_on@);
        let mut i: usize = 0;
        while i < my_inbox.len()
            invariant
                0 <= i <= my_inbox.len(),
                inbox == url_views(my_inbox@),
                seen == url_views(seen_on@),
                first_shared(inbox, seen, 0) == first_shared(inbox, seen, i as int),
            decreases my_inbox.len() - i,
        {
            if contains_url(seen_on, &my_inbox[i]) {
                return Some(my_inbox[i].clone());
            }
            i = i + 1;
        }
        if seen_on.len() > 0 {
            return Some(seen_on[0].clone());
        }
        None
    }

    /// The relays to look for replies to an event on: every relay of
    /// `author_inbox`, then up to two relays of `seen_on`, in order, that are
    /// not already in the answer.
    pub fn relays_for_reply(seen_on: &Vec<RelayUrl>, author_inbox: &Vec<RelayUrl>) -> (r: Vec<
        RelayUrl,
    >)
        ensures
            url_views(r@) == reply_relays(url_views(author_inbox@), url_views(seen_on@)),
            url_views(r@).no_duplicates(),
    {
        let ghost seen = url_views(seen_on@);
        let ghost inbox = url_views(author_inbox@);
        let mut answer: Vec<RelayUrl> = Vec::new();
        let mut j: usize = 0;
        proof {
            assert(url_views(answer@) =~= Seq::<Seq<char>>::empty());
        }
        while j < author_inbox.len()
            invariant
                0 <= j <= author_inbox.len(),
                inbox == url_views(author_inbox@),
                distinct(inbox) == distinct_from(url_views(answer@), inbox, j as int),
            decreases author_inbox.len() - j,
        {
            if !contains_url(&answer, &author_inbox[j]) {
                proof {
                    assert(url_views(answer@.push(author_inbox@[j as int])) =~= url_views(
                        answer@,
                    ).push(inbox[j as int]));
                }
                answer.push(author_inbox[j].clone());
            }
            j = j + 1;
        }
        let mut extra: u64 = 2;
        let mut i: usize = 0;
        while i < seen_on.len() && extra > 0
            invariant
                0 <= i <= seen_on.len(),
                extra <= 2,
                seen == url_views(seen_on@),
                reply_relays(url_views(author_inbox@), seen) == add_extra(
                    url_views(answer@),
                    seen,
                    i as int,
                    extra as int,
                ),
            decreases seen_on.len() - i,
        {
            if !contains_url(&answer, &seen_on[i]) {
                proof {
                    assert(url_views(answer@.push(seen_on@[i as int])) =~= url_views(answer@).push(
                        seen[i as int],
                    ));
                }
                answer.push(seen_on[i].clone());
                extra = extra - 1;
            }
            i = i + 1;
        }
        assert(add_extra(url_views(answer@), seen, i as int, extra as int) == url_views(answer@));
        proof {
            lemma_reply_relays_bounded(inbox, seen);
        }
        answer
    }
}


/// Whether the addresses of `s` rise strictly in the order of addresses.
pub open spec fn strictly_sorted(s: Seq<Seq<char>>) -> bool {
    forall|i: int, j: int| 0 <= i < j < s.len() ==> url_lt(#[trigger] s[i], #[trigger] s[j])
}

/// Whether one of `lists` holds `u`.
pub open spec fn in_any(lists: Seq<Seq<Seq<char>>>, u: Seq<char>) -> bool {
    exists|k: int| 0 <= k < lists.len() && #[trigger] lists[k].contains(u)
}

/// The texts of each list of `lists`.
pub open spec fn nested_views(lists: Seq<Vec<RelayUrl>>) -> Seq<Seq<Seq<char>>> {
    lists.map_values(|v: Vec<RelayUrl>| url_views(v@))
}

/// Whether an event is to be posted to `u`: a relay we write to (`write`) or
/// an inbox relay of someone the event tags (`tagged`), that the event has
/// not been seen on.
pub open spec fn posts_to(
    write: Seq<Seq<char>>,
    tagged: Seq<Seq<Seq<char>>>,
    seen: Seq<Seq<char>>,
    u: Seq<char>,
) -> bool {
    (write.contains(u) || in_any(tagged, u)) && !seen.contains(u)
}

/// Whether `r` is the list of relays to post an event to at time `now`:
/// strictly sorted, and holding exactly the addresses that `posts_to` names,
/// where the relays we write to are those of `relays` chosen for WRITE.
#[verifier::opaque]
pub open spec fn is_event_relay_list(
    r: Seq<Seq<char>>,
    relays: Seq<Relay3>,
    tagged: Seq<Vec<RelayUrl>>,
    seen: Seq<RelayUrl>,
    now: i64,
) -> bool {
    &&& strictly_sorted(r)
    &&& forall|u: Seq<char>|
        r.contains(u) <==> posts_to(
            url_views(urls_of(chosen(relays, Relay3::WRITE, now, keep_all()))),
            nested_views(tagged),
            url_views(seen),
            u,
        )
}

/// The relays an event is posted to never include one it was seen on.
pub proof fn lemma_event_relays_skip_seen(
    r: Seq<Seq<char>>,
    relays: Seq<Relay3>,
    tagged: Seq<Vec<RelayUrl>>,
    seen: Seq<RelayUrl>,
    now: i64,
)
    requires
        is_event_relay_list(r, relays, tagged, seen, now),
    ensures
        forall|i: int| 0 <= i < r.len() ==> !url_views(seen).contains(#[trigger] r[i]),
{
    reveal(is_event_relay_list);
    assert forall|i: int| 0 <= i < r.len() implies !url_views(seen).contains(#[trigger] r[i]) by {
        assert(r.contains(r[i]));
    }
}

/// Adds `u` to the strictly sorted `out`, where it is not there yet.
fn insert_sorted(out: &mut Vec<RelayUrl>, u: RelayUrl)
    requires
        strictly_sorted(url_views(old(out)@)),
    ensures
        strictly_sorted(url_views(final(out)@)),
        forall|v: Seq<char>|
            url_views(final(out)@).contains(v) <==> (url_views(old(out)@).contains(v) || v == u@),
{
    let ghost before = url_views(out@);
    let mut i: usize = 0;
    while i < out.len() && out[i].less_than(&u)
        invariant
            0 <= i <= out.len(),
            before == url_views(out@),
            strictly_sorted(before),
            forall|k: int| 0 <= k < i ==> url_lt(#[trigger] before[k], u@),
        decreases out.len() - i,
    {
        i = i + 1;
    }
    if i < out.len() && out[i] == u {
        assert(before[i as int] == u@);
        return ;
    }
    proof {
        if i < out.len() {
            assert(before[i as int] != u@);
            assert(!url_lt(before[i as int], u@));
            lemma_url_lt_total(before[i as int], u@);
        }
    }
    let ghost v = u@;
    out.insert(i, u);
    proof {
        let after = url_views(out@);
        assert(after =~= before.insert(i as int, v));
        assert forall|a: int, b: int| 0 <= a < b < after.len() implies url_lt(
            #[trigger] after[a],
            #[trigger] after[b],
        ) by {
            if b < i {
            } else if a < i && b == i {
            } else if a < i {
                assert(url_lt(before[a], v));
                assert(after[b] == before[b - 1]);
                if b - 1 == i {
                } else {
                    assert(url_lt(before[i as int], before[b - 1]));
                    lemma_url_lt_transitive(v, before[i as int], before[b - 1]);
                }
                lemma_url_lt_transitive(before[a], v, before[b - 1]);
            } else if a == i {
                if b - 1 > i {
                    assert(url_lt(before[i as int], before[b - 1]));
                    lemma_url_lt_transitive(v, before[i as int], before[b - 1]);
                }
            } else {
            }
        }
        assert forall|w: Seq<char>| after.contains(w) <==> (before.contains(w) || w == v) by {
            if after.contains(w) {
                let k = choose|k: int| 0 <= k < after.len() && after[k] == w;
                if k < i {
                    assert(before[k] == w);
                } else if k > i {
                    assert(before[k - 1] == w);
                }
            }
            if before.contains(w) {
                let k = choose|k: int| 0 <= k < before.len() && before[k] == w;
                if k < i {
                    assert(after[k] == w);
                } else {
                    assert(after[k + 1] == w);
                }
            }
            if w == v {
                assert(after[i as int] == w);
            }
        }
    }
}

/// Adds to the strictly sorted `out` each address of `list` that `seen`
/// does not hold.
fn add_unseen(out: &mut Vec<RelayUrl>, list: &Vec<RelayUrl>, seen: &Vec<RelayUrl>)
    requires
        strictly_sorted(url_views(old(out)@)),
    ensures
        strictly_sorted(url_views(final(out)@)),
        forall|v: Seq<char>|
            url_views(final(out)@).contains(v) <==> (url_views(old(out)@).contains(v) || (url_views(
                list@,
            ).contains(v) && !url_views(seen@).contains(v))),
{
    let ghost start = url_views(out@);
    let ghost items = url_views(list@);
    let ghost skip = url_views(seen@);
    let mut i: usize = 0;
    while i < list.len()
        invariant
            0 <= i <= list.len(),
            items == url_views(list@),
            skip == url_views(seen@),
            strictly_sorted(url_views(out@)),
            forall|v: Seq<char>|
                url_views(out@).contains(v) <==> (start.contains(v) || (items.subrange(
                    0,
                    i as int,
                ).contains(v) && !skip.contains(v))),
        decreases list.len() - i,
    {
        let ghost prev = url_views(out@);
        if !contains_url(seen, &list[i]) {
            insert_sorted(out, list[i].clone());
        }
        proof {
            let lo = items.subrange(0, i as int);
            let hi = items.subrange(0, i + 1);
            assert forall|v: Seq<char>| hi.contains(v) <==> (lo.contains(v) || v == items[i as int]) by {
                if hi.contains(v) {
                    let k = choose|k: int| 0 <= k < hi.len() && hi[k] == v;
                    if k < i {
                        assert(lo[k] == v);
                    }
                }
                if lo.contains(v) {
                    let k = choose|k: int| 0 <= k < lo.len() && lo[k] == v;
                    assert(hi[k] == v);
                }
                if v == items[i as int] {
                    assert(hi[i as int] == v);
                }
            }
        }
        i = i + 1;
    }
    proof {
        assert(items.subrange(0, list.len() as int) =~= items);
    }
}

impl Relay3 {
    /// The relays to post an event to at time `now`: every relay of `relays`
    /// that we write to, and every relay of `tagged_inboxes` (the inbox
    /// relays of each person the event tags), less those of `seen_on`; sorted
    /// and without repeats.
    pub fn relays_for_event_at(
        relays: &Vec<Relay3>,
        tagged_inboxes: &Vec<Vec<RelayUrl>>,
        seen_on: &Vec<RelayUrl>,
        now: i64,
    ) -> (r: Vec<RelayUrl>)
        ensures
            is_event_relay_list(url_views(r@), relays@, tagged_inboxes@, seen_on@, now),
    {
        let any = |_r: &Relay3| -> (b: bool)
            ensures
                b,
            { true };
        let write = Relay3::choose_relay_urls_at(relays, Relay3::WRITE, now, any);
        proof {
            assert(keeper(any) =~= keep_all());
        }
        let ghost w = url_views(write@);
        let ghost tagged = nested_views(tagged_inboxes@);
        let ghost seen = url_views(seen_on@);
        let mut out: Vec<RelayUrl> = Vec::new();
        add_unseen(&mut out, &write, seen_on);
        let mut k: usize = 0;
        while k < tagged_inboxes.len()
            invariant
                0 <= k <= tagged_inboxes.len(),
                w == url_views(write@),
                tagged == nested_views(tagged_inboxes@),
                seen == url_views(seen_on@),
                strictly_sorted(url_views(out@)),
                forall|u: Seq<char>|
                    url_views(out@).contains(u) <==> (w.contains(u) || in_any(
                        tagged.subrange(0, k as int),
                        u,
                    )) && !seen.contains(u),
            decreases tagged_inboxes.len() - k,
        {
            add_unseen(&mut out, &tagged_inboxes[k], seen_on);
            proof {
                let lo = tagged.subrange(0, k as int);
                let hi = tagged.subrange(0, k + 1);
                assert forall|u: Seq<char>| in_any(hi, u) <==> (in_any(lo, u) || tagged[k as int].contains(u)) by {
                    if in_any(hi, u) {
                        let j = choose|j: int| 0 <= j < hi.len() && #[trigger] hi[j].contains(u);
                        if j < k {
                            assert(lo[j].contains(u));
                        }
                    }
                    if in_any(lo, u) {
                        let j = choose|j: int| 0 <= j < lo.len() && #[trigger] lo[j].contains(u);
                        assert(hi[j].contains(u));
                    }
                    if tagged[k as int].contains(u) {
                        assert(hi[k as int].contains(u));
                    }
                }
            }
            k = k + 1;
        }
        proof {
            assert(tagged.subrange(0, tagged_inboxes.len() as int) =~= tagged);
            reveal(is_event_relay_list);
        }
        out
    }

    /// The relays of `relays_for_event_at`, at the time of the system clock.
    pub fn relays_for_event(
        relays: &Vec<Relay3>,
        tagged_inboxes: &Vec<Vec<RelayUrl>>,
        seen_on: &Vec<RelayUrl>,
    ) -> (r: Result<Vec<RelayUrl>, GossipError>)
        ensures
            r is Ok ==> exists|now: i64|
                #[trigger] is_event_relay_list(
                    url_views(r->Ok_0@),
                    relays@,
                    tagged_inboxes@,
                    seen_on@,
                    now,
                ),
            r is Err ==> r->Err_0 == GossipError::Clock,
            no_limits(relays@) ==> r is Ok && is_event_relay_list(
                url_views(r->Ok_0@),
                relays@,
                tagged_inboxes@,
                seen_on@,
                0,
            ),
    {
        if !has_limits(relays) {
            let v = Relay3::relays_for_event_at(relays, tagged_inboxes, seen_on, 0);
            let res: Result<Vec<RelayUrl>, GossipError> = Ok(v);
            assert(is_event_relay_list(url_views(res->Ok_0@), relays@, tagged_inboxes@, seen_on@, 0));
            return res;
        }
        match unix_now() {
            Ok(now) => {
                let v = Relay3::relays_for_event_at(relays, tagged_inboxes, seen_on, now);
                let res: Result<Vec<RelayUrl>, GossipError> = Ok(v);
                assert(is_event_relay_list(url_views(res->Ok_0@), relays@, tagged_inboxes@, seen_on@, now));
                res
            },
            Err(_) => Err(GossipError::Clock),
        }
    }
}


/// Whether a record serves the direction `bits` at time `now`: it has one of
/// its usages, a rank other than 0, and is not avoided.
pub open spec fn serves(r: Relay3, bits: u64, now: i64) -> bool {
    r.usage() & bits != 0 && r.rank != 0 && !r.avoided_at(now)
}

/// `serves` as a predicate on records.
pub open spec fn serving(bits: u64, now: i64) -> spec_fn(Relay3) -> bool {
    |r: Relay3| serves(r, bits, now)
}

/// Whether the records of `s` come heaviest role weight first.
pub open spec fn by_weight(s: Seq<Relay3>) -> bool {
    forall|i: int, j: int|
        0 <= i < j < s.len() ==> (#[trigger] s[i]).sort_weight() >= (#[trigger] s[j]).sort_weight()
}

/// Usage that differs only in DISCOVER and SPAMSAFE gives the same role
/// weight.
pub proof fn lemma_sort_weight_ignores_discover_and_spamsafe(a: Relay3, b: Relay3)
    requires
        a.usage() & !96u64 == b.usage() & !96u64,
    ensures
        a.sort_weight() == b.sort_weight(),
{
    let x = a.usage();
    let y = b.usage();
    assert(x & !96u64 == y & !96u64 ==> ((x & 1u64 == 1u64) == (y & 1u64 == 1u64))) by (bit_vector);
    assert(x & !96u64 == y & !96u64 ==> ((x & 2u64 == 2u64) == (y & 2u64 == 2u64))) by (bit_vector);
    assert(x & !96u64 == y & !96u64 ==> ((x & 8u64 == 8u64) == (y & 8u64 == 8u64))) by (bit_vector);
    assert(x & !96u64 == y & !96u64 ==> ((x & 16u64 == 16u64) == (y & 16u64 == 16u64))) by (bit_vector);
    assert(x & !96u64 == y & !96u64 ==> ((x & 128u64 == 128u64) == (y & 128u64 == 128u64)))
        by (bit_vector);
}

/// Puts `r` into `out`, after every record at least as heavy as it.
fn insert_by_weight(out: &mut Vec<Relay3>, r: Relay3)
    requires
        by_weight(old(out)@),
    ensures
        by_weight(final(out)@),
        final(out)@.to_multiset() == old(out)@.to_multiset().insert(r),
{
    let w = r.get_usage_bits_for_sorting();
    let ghost before = out@;
    let mut p: usize = 0;
    while p < out.len() && out[p].get_usage_bits_for_sorting() >= w
        invariant
            0 <= p <= out.len(),
            before == out@,
            by_weight(before),
            w == r.sort_weight(),
            forall|k: int| 0 <= k < p ==> (#[trigger] before[k]).sort_weight() >= w,
        decreases out.len() - p,
    {
        p = p + 1;
    }
    let ghost v = r;
    out.insert(p, r);
    proof {
        vstd::seq_lib::to_multiset_insert(before, p as int, v);
        let after = out@;
        assert forall|a: int, b: int| 0 <= a < b < after.len() implies (
        #[trigger] after[a]).sort_weight() >= (#[trigger] after[b]).sort_weight() by {
            if b < p {
            } else if b == p {
                assert(after[a] == before[a]);
            } else if a < p {
                assert(after[a] == before[a] && after[b] == before[b - 1]);
            } else if a == p {
                assert(after[b] == before[b - 1]);
                assert(before[p as int].sort_weight() < w);
                if b - 1 > p {
                    assert(before[p as int].sort_weight() >= before[b - 1].sort_weight());
                }
            } else {
                assert(after[a] == before[a - 1] && after[b] == before[b - 1]);
            }
        }
    }
}

impl Relay3 {
    /// The records of `relays` that serve the direction `bits` at `now`
    /// (one of its usages, a rank other than 0, not avoided), heaviest role
    /// weight first; records of equal weight keep their order.
    pub fn best_relays_at(relays: &Vec<Relay3>, bits: u64, now: i64) -> (r: Vec<Relay3>)
        ensures
            by_weight(r@),
            r@.to_multiset() == kept(relays@, serving(bits, now)).to_multiset(),
    {
        let mut out: Vec<Relay3> = Vec::new();
        let mut i: usize = 0;
        proof {
            assert(out@ =~= Seq::<Relay3>::empty());
            assert(relays@.subrange(0, 0) =~= Seq::<Relay3>::empty());
        }
        while i < relays.len()
            invariant
                0 <= i <= relays.len(),
                by_weight(out@),
                out@.to_multiset() == kept(relays@.subrange(0, i as int), serving(bits, now)).to_multiset(),
            decreases relays.len() - i,
        {
            let r = &relays[i];
            proof {
                assert(relays@.subrange(0, i + 1).drop_last() =~= relays@.subrange(0, i as int));
            }
            if r.get_usage_bits() & bits != 0 && r.rank != 0 && !r.should_avoid_at(now) {
                proof {
                    vstd::seq_lib::to_multiset_build(
                        kept(relays@.subrange(0, i as int), serving(bits, now)),
                        *r,
                    );
                }
                insert_by_weight(&mut out, r.clone());
            }
            i = i + 1;
        }
        proof {
            assert(relays@.subrange(0, relays.len() as int) =~= relays@);
        }
        out
    }

    /// The records of `best_relays_at`, at the time of the system clock.
    pub fn best_relays(relays: &Vec<Relay3>, bits: u64) -> (r: Result<Vec<Relay3>, GossipError>)
        ensures
            match r {
                Ok(v) => by_weight(v@) && exists|now: i64|
                    v@.to_multiset() == #[trigger] kept(relays@, serving(bits, now)).to_multiset(),
                Err(e) => e == GossipError::Clock,
            },
            no_limits(relays@) ==> r is Ok && by_weight(r->Ok_0@) && r->Ok_0@.to_multiset()
                == kept(relays@, serving(bits, 0)).to_multiset(),
    {
        if !has_limits(relays) {
            return Ok(Relay3::best_relays_at(relays, bits, 0));
        }
        match unix_now() {
            Ok(now) => Ok(Relay3::best_relays_at(relays, bits, now)),
            Err(_) => Err(GossipError::Clock),
        }
    }
}

} // verus!
