//! The domain events the bot announces: one upstream account forking one
//! repository.
//!
//! Events come from an external collector over a channel and are immutable
//! once constructed; the router consumes each exactly once. Times are unix
//! timestamps in seconds. The helpers here are the computing half of the
//! collector: picking the fork events out of a fetched page and picking the
//! events recent enough to publish.

use vstd::prelude::*;

verus! {

/// The account that performed the fork.
#[derive(Debug, Clone, PartialEq)]
pub struct Actor {
    pub display_login: String,
    pub avatar_url: String,
}

/// The repository that was forked.
#[derive(Debug, Clone, PartialEq)]
pub struct Repository {
    pub name: String,
}

/// The fork that was created.
#[derive(Debug, Clone, PartialEq)]
pub struct Forkee {
    pub full_name: String,
    pub html_url: String,
}

/// The payload of an upstream event; only fork events carry a forkee.
#[derive(Debug, Clone, PartialEq)]
pub struct Payload {
    pub forkee: Option<Forkee>,
}

/// One upstream event, already decoded to plain values.
#[derive(Debug, Clone, PartialEq)]
pub struct Event {
    pub id: String,
    pub event_type: String,
    pub actor: Actor,
    pub repo: Repository,
    pub payload: Payload,
    /// Unix timestamp of the event, in seconds.
    pub created_at: i64,
}

/// The mathematical value of an event.
pub ghost struct EventModel {
    pub id: Seq<char>,
    pub event_type: Seq<char>,
    pub actor_login: Seq<char>,
    pub actor_avatar: Seq<char>,
    pub repo_name: Seq<char>,
    pub forkee: Option<(Seq<char>, Seq<char>)>,
    pub created_at: int,
}

impl View for Event {
    type V = EventModel;

    open spec fn view(&self) -> EventModel {
        EventModel {
            id: self.id@,
            event_type: self.event_type@,
            actor_login: self.actor.display_login@,
            actor_avatar: self.actor.avatar_url@,
            repo_name: self.repo.name@,
            forkee: match self.payload.forkee {
                Option::Some(f) => Option::Some((f.full_name@, f.html_url@)),
                Option::None => Option::None,
            },
            created_at: self.created_at as int,
        }
    }
}

/// The event type the bot cares about.
pub open spec fn fork_event_type() -> Seq<char> {
    "ForkEvent"@
}

/// Whether an event is a fork event.
pub open spec fn is_fork_event(e: EventModel) -> bool {
    e.event_type == fork_event_type()
}

/// Whether an event is recent enough to publish: younger than `window`
/// seconds at time `now`.
pub open spec fn is_recent(created_at: int, now: int, window: int) -> bool {
    now - created_at < window
}

/// The deep views of a sequence of events.
pub open spec fn events_model(s: Seq<Event>) -> Seq<EventModel> {
    s.map_values(|e: Event| e@)
}

fn clone_forkee(f: &Forkee) -> (r: Forkee)
    ensures
        r.full_name@ == f.full_name@,
        r.html_url@ == f.html_url@,
{
    Forkee { full_name: f.full_name.clone(), html_url: f.html_url.clone() }
}

/// A field-for-field copy of an event, equal to the original in value.
pub fn clone_event(e: &Event) -> (r: Event)
    ensures
        r@ == e@,
{
    Event {
        id: e.id.clone(),
        event_type: e.event_type.clone(),
        actor: Actor {
            display_login: e.actor.display_login.clone(),
            avatar_url: e.actor.avatar_url.clone(),
        },
        repo: Repository { name: e.repo.name.clone() },
        payload: Payload {
            forkee: match &e.payload.forkee {
                Option::Some(f) => Option::Some(clone_forkee(f)),
                Option::None => Option::None,
            },
        },
        created_at: e.created_at,
    }
}

fn is_fork_event_exec(e: &Event) -> (r: bool)
    ensures
        r == is_fork_event(e@),
{
    crate::command::str_eq(e.event_type.as_str(), "ForkEvent")
}

/// The fork events of a fetched page, in their order of arrival.
pub fn filter_fork_events(events: &Vec<Event>) -> (r: Vec<Event>)
    ensures
        events_model(r@) == events_model(events@).filter(|e: EventModel| is_fork_event(e)),
{
    let mut out: Vec<Event> = Vec::new();
    let mut i: usize = 0;
    while i < events.len()
        invariant
            i <= events@.len(),
            events_model(out@) == events_model(events@.take(i as int)).filter(
                |e: EventModel| is_fork_event(e),
            ),
        decreases events@.len() - i,
    {
        let ghost prefix = events_model(events@.take(i as int));
        let ghost prev_out = out@;
        if is_fork_event_exec(&events[i]) {
            out.push(clone_event(&events[i]));
            proof {
                assert(events_model(out@) =~= events_model(prev_out).push(events@[i as int]@));
            }
        }
        proof {
            assert(events_model(events@.take(i + 1)) =~= prefix.push(events@[i as int]@));
            prefix.lemma_filter_push(events@[i as int]@, |e: EventModel| is_fork_event(e));
        }
        i = i + 1;
    }
    proof {
        assert(events@.take(events@.len() as int) =~= events@);
    }
    out
}

/// Events ordered by their timestamps, oldest first.
pub open spec fn sorted_by_time(s: Seq<EventModel>) -> bool {
    forall|p: int, q: int| 0 <= p < q < s.len() ==> s[p].created_at <= s[q].created_at
}

/// Sort the collected events by their timestamps, oldest first, keeping
/// exactly the same events.
pub fn sort_events_by_time(events: &mut Vec<Event>)
    ensures
        sorted_by_time(events_model(final(events)@)),
        events_model(final(events)@).to_multiset() == events_model(old(events)@).to_multiset(),
        final(events)@.len() == old(events)@.len(),
{
    broadcast use vstd::seq_lib::to_multiset_remove;
    broadcast use vstd::seq_lib::to_multiset_insert;
    broadcast use vstd::seq_lib::to_multiset_contains;
    broadcast use vstd::multiset::group_multiset_axioms;

    let ghost orig = events_model(events@);
    if events.len() < 2 {
        return;
    }
    let mut i: usize = 1;
    while i < events.len()
        invariant
            1 <= i <= events@.len(),
            events@.len() == orig.len(),
            events_model(events@).to_multiset() == orig.to_multiset(),
            sorted_by_time(events_model(events@).take(i as int)),
        decreases events@.len() - i,
    {
        let ghost v0 = events@;
        let ghost m0 = events_model(v0);
        let key: i64 = events[i].created_at;
        let mut j: usize = 0;
        while j < i && events[j].created_at <= key
            invariant
                0 <= j <= i < v0.len(),
                events@ == v0,
                m0 == events_model(v0),
                key == v0[i as int].created_at,
                forall|k: int| 0 <= k < j ==> m0[k].created_at <= key as int,
            decreases i - j,
        {
            proof {
                assert(m0[j as int] == v0[j as int]@);
            }
            j = j + 1;
        }
        proof {
            assert(m0.len() == v0.len());
            assert(forall|k: int| 0 <= k < v0.len() ==> m0[k] == v0[k]@);
        }
        let x = events.remove(i);
        events.insert(j, x);
        proof {
            let nm = events_model(events@);
            let rm = m0.remove(i as int);
            assert(events@ =~= v0.remove(i as int).insert(j as int, v0[i as int]));
            assert(nm =~= rm.insert(j as int, m0[i as int]));
            // The moved event keeps the multiset of events unchanged.
            assert(rm.len() == m0.len() - 1);
            vstd::seq_lib::to_multiset_remove(m0, i as int);
            vstd::seq_lib::to_multiset_insert(rm, j as int, m0[i as int]);
            assert(m0.to_multiset().count(m0[i as int]) > 0) by {
                m0.lemma_index_contains(i as int);
                vstd::seq_lib::to_multiset_contains(m0, m0[i as int]);
            }
            assert(nm.to_multiset() =~= m0.to_multiset());
            // The element landed between the smaller and the larger part of
            // the sorted prefix.
            assert forall|p: int, q: int|
                0 <= p < q < i + 1 implies nm[p].created_at <= nm[q].created_at by {
                assert(forall|k: int| 0 <= k < j ==> nm[k] == m0[k]);
                assert(nm[j as int] == m0[i as int]);
                assert(forall|k: int| j < k <= i ==> nm[k] == m0[k - 1]);
                if q == j {
                    assert(m0[p].created_at <= key as int);
                } else if p == j {
                    assert(j < i);
                    assert(m0[j as int].created_at > key as int);
                    assert(m0[j as int].created_at <= m0[q - 1].created_at);
                }
            }
            assert(sorted_by_time(nm.take(i + 1)));
        }
        i = i + 1;
    }
    proof {
        assert(events_model(events@).take(events@.len() as int) =~= events_model(events@));
    }
}

/// A decimal digit.
pub open spec fn is_digit_char(c: char) -> bool {
    '0' <= c && c <= '9'
}

/// A page marker stands at `i`: the text `page=` followed by a digit.
pub open spec fn page_marker_at(s: Seq<char>, i: int) -> bool {
    0 <= i && i + 6 <= s.len() && s.subrange(i, i + 5) == "page="@ && is_digit_char(s[i + 5])
}

/// The relation marker of a next-page link stands at `j`.
pub open spec fn rel_next_at(s: Seq<char>, j: int) -> bool {
    0 <= j && j + 12 <= s.len() && s.subrange(j, j + 12) == "; rel=\"next\""@
}

/// A pagination header announces a next page: a page marker is followed,
/// somewhere after its digit, by a next-page relation marker.
pub open spec fn has_next_page(s: Seq<char>) -> bool {
    exists|i: int, j: int| #[trigger] page_marker_at(s, i) && #[trigger] rel_next_at(s, j) && i + 6
        <= j
}

fn find_first_page_marker(s: &str) -> (r: Option<usize>)
    ensures
        match r {
            Some(i) => page_marker_at(s@, i as int) && forall|k: int|
                0 <= k < i ==> !page_marker_at(s@, k),
            None => forall|k: int| !page_marker_at(s@, k),
        },
{
    let n: usize = s.unicode_len();
    if n < 6 {
        return None;
    }
    let mut i: usize = 0;
    while i <= n - 6
        invariant
            0 <= i,
            i <= n - 6 + 1,
            n == s@.len(),
            n >= 6,
            forall|k: int| 0 <= k < i ==> !page_marker_at(s@, k),
        decreases n - i,
    {
        if crate::command::eq_range(s, i, i + 5, "page=") {
            let c = s.get_char(i + 5);
            if '0' <= c && c <= '9' {
                return Some(i);
            }
        }
        i = i + 1;
    }
    None
}

fn find_last_rel_next(s: &str) -> (r: Option<usize>)
    ensures
        match r {
            Some(j) => rel_next_at(s@, j as int) && forall|k: int|
                k > j ==> !rel_next_at(s@, k),
            None => forall|k: int| !rel_next_at(s@, k),
        },
{
    let n: usize = s.unicode_len();
    if n < 12 {
        return None;
    }
    let mut j: usize = 0;
    let mut found: Option<usize> = None;
    while j <= n - 12
        invariant
            0 <= j,
            j <= n - 12 + 1,
            n == s@.len(),
            n >= 12,
            match found {
                Some(f) => rel_next_at(s@, f as int) && forall|k: int|
                    f < k < j ==> !rel_next_at(s@, k),
                None => forall|k: int| 0 <= k < j ==> !rel_next_at(s@, k),
            },
        decreases n - j,
    {
        if crate::command::eq_range(s, j, j + 12, "; rel=\"next\"") {
            found = Some(j);
        }
        j = j + 1;
    }
    found
}

/// Whether a pagination header of a fetched page announces a next page,
/// so that the fetch loop must continue.
pub fn link_header_has_next(header: &str) -> (r: bool)
    ensures
        r == has_next_page(header@),
{
    let first = find_first_page_marker(header);
    let last = find_last_rel_next(header);
    match first {
        Option::Some(i) => {
            match last {
                Option::Some(j) => {
                    if j >= 6 && i <= j - 6 {
                        proof {
                            assert(page_marker_at(header@, i as int) && rel_next_at(
                                header@,
                                j as int,
                            ) && i + 6 <= j);
                        }
                        true
                    } else {
                        proof {
                            if has_next_page(header@) {
                                let (wi, wj) = choose|wi: int, wj: int|
                                    #[trigger] page_marker_at(header@, wi) && #[trigger] rel_next_at(
                                        header@,
                                        wj,
                                    ) && wi + 6 <= wj;
                                assert(wi >= i as int);
                                assert(wj <= j as int);
                            }
                        }
                        false
                    }
                },
                Option::None => false,
            }
        },
        Option::None => false,
    }
}

fn is_recent_exec(created_at: i64, now: i64, window: i64) -> (r: bool)
    ensures
        r == is_recent(created_at as int, now as int, window as int),
{
    let diff: i128 = (now as i128) - (created_at as i128);
    diff < (window as i128)
}

/// The events recent enough to publish at time `now`: those younger than
/// `window` seconds, in their order of arrival.
pub fn recent_events(events: &Vec<Event>, now: i64, window: i64) -> (r: Vec<Event>)
    ensures
        events_model(r@) == events_model(events@).filter(
            |e: EventModel| is_recent(e.created_at, now as int, window as int),
        ),
{
    let mut out: Vec<Event> = Vec::new();
    let mut i: usize = 0;
    while i < events.len()
        invariant
            i <= events@.len(),
            events_model(out@) == events_model(events@.take(i as int)).filter(
                |e: EventModel| is_recent(e.created_at, now as int, window as int),
            ),
        decreases events@.len() - i,
    {
        let ghost prefix = events_model(events@.take(i as int));
        let ghost prev_out = out@;
        if is_recent_exec(events[i].created_at, now, window) {
            out.push(clone_event(&events[i]));
            proof {
                assert(events_model(out@) =~= events_model(prev_out).push(events@[i as int]@));
            }
        }
        proof {
            assert(events_model(events@.take(i + 1)) =~= prefix.push(events@[i as int]@));
            prefix.lemma_filter_push(
                events@[i as int]@,
                |e: EventModel| is_recent(e.created_at, now as int, window as int),
            );
        }
        i = i + 1;
    }
    proof {
        assert(events@.take(events@.len() as int) =~= events@);
    }
    out
}

} // verus!
