//! Laws of the WebRTC room bookkeeping.
use vstd::prelude::*;
use crate::clock::Timestamp;
use crate::endpoints::webrtc_routes::{
    join_model, leave_model, other_sessions, relay_targets_model, room_or_new, JoinOutcome, PeerRole,
    RoomView, MAX_PEERS,
};

verus! {

/// Every open room holds one or two sessions.
pub open spec fn rooms_wf(m: Map<Seq<char>, RoomView>) -> bool {
    forall|k: Seq<char>| #[trigger] m.contains_key(k) ==> 1 <= m[k].sessions.len() <= MAX_PEERS
}

/// Dropping a session keeps the others, in order, and nothing else.
pub proof fn lemma_other_sessions(s: Seq<usize>, id: usize)
    ensures
        other_sessions(s, id).len() <= s.len(),
        forall|i: int| 0 <= i < other_sessions(s, id).len() ==> #[trigger] other_sessions(s, id)[i] != id
            && s.contains(other_sessions(s, id)[i]),
        forall|x: usize| s.contains(x) && x != id ==> #[trigger] other_sessions(s, id).contains(x),
        !s.contains(id) ==> other_sessions(s, id) == s,
    decreases s.len(),
{
    if s.len() > 0 {
        let t = s.drop_last();
        lemma_other_sessions(t, id);
        let o = other_sessions(s, id);
        let ot = other_sessions(t, id);
        assert forall|i: int| 0 <= i < o.len() implies #[trigger] o[i] != id && s.contains(o[i]) by {
            if s.last() != id && i == ot.len() {
                assert(s[s.len() - 1] == o[i]);
            } else {
                assert(o[i] == ot[i]);
                let j = choose|j: int| 0 <= j < t.len() && t[j] == ot[i];
                assert(s[j] == o[i]);
            }
        }
        assert forall|x: usize| s.contains(x) && x != id implies #[trigger] o.contains(x) by {
            let j = choose|j: int| 0 <= j < s.len() && s[j] == x;
            if j < s.len() - 1 {
                assert(t[j] == x);
                assert(t.contains(x));
                assert(ot.contains(x));
                let i = choose|i: int| 0 <= i < ot.len() && ot[i] == x;
                if s.last() != id {
                    assert(o == ot.push(s.last()));
                } else {
                    assert(o == ot);
                }
                assert(o[i] == x);
            } else {
                assert(o[o.len() - 1] == x);
            }
        }
        if !s.contains(id) {
            assert(!t.contains(id)) by {
                if t.contains(id) {
                    let j = choose|j: int| 0 <= j < t.len() && t[j] == id;
                    assert(s[j] == id);
                }
            }
            assert(s.last() != id);
            assert(t.push(s.last()) =~= s);
        }
    }
}

/// Joining and leaving keep every room at one or two sessions: a room never holds more
/// than two peers, and a room left empty is closed.
pub proof fn law_rooms_hold_one_or_two(
    m: Map<Seq<char>, RoomView>,
    slug: Seq<char>,
    id: usize,
    now: Timestamp,
)
    requires
        rooms_wf(m),
    ensures
        rooms_wf(join_model(m, slug, id, now).1),
        rooms_wf(leave_model(m, slug, id).1),
{
    if m.contains_key(slug) {
        lemma_other_sessions(m[slug].sessions, id);
    }
    let j = join_model(m, slug, id, now).1;
    assert forall|k: Seq<char>| #[trigger] j.contains_key(k) implies 1 <= j[k].sessions.len() <= MAX_PEERS by {
        if k != slug {
            assert(m.contains_key(k));
        }
    }
    let l = leave_model(m, slug, id).1;
    assert forall|k: Seq<char>| #[trigger] l.contains_key(k) implies 1 <= l[k].sessions.len() <= MAX_PEERS by {
        if k != slug {
            assert(m.contains_key(k));
        }
    }
}

/// No room holds a session twice.
pub open spec fn room_sessions_distinct(m: Map<Seq<char>, RoomView>) -> bool {
    forall|k: Seq<char>| #[trigger] m.contains_key(k) ==> m[k].sessions.no_duplicates()
}

/// The session `id` is in no room.
pub open spec fn session_is_new(m: Map<Seq<char>, RoomView>, id: usize) -> bool {
    forall|k: Seq<char>| #[trigger] m.contains_key(k) ==> !m[k].sessions.contains(id)
}

/// Dropping a session from a sequence without repeats leaves one without repeats.
proof fn lemma_other_sessions_distinct(s: Seq<usize>, id: usize)
    requires
        s.no_duplicates(),
    ensures
        other_sessions(s, id).no_duplicates(),
    decreases s.len(),
{
    if s.len() > 0 {
        let t = s.drop_last();
        assert(t.no_duplicates()) by {
            assert forall|i: int, j: int| 0 <= i < t.len() && 0 <= j < t.len() && i != j implies t[i]
                != t[j] by {
                assert(t[i] == s[i] && t[j] == s[j]);
            }
        }
        lemma_other_sessions_distinct(t, id);
        lemma_other_sessions(t, id);
        let ot = other_sessions(t, id);
        if s.last() != id {
            assert(!ot.contains(s.last())) by {
                if ot.contains(s.last()) {
                    let i = choose|i: int| 0 <= i < ot.len() && ot[i] == s.last();
                    assert(t.contains(ot[i]));
                    let j = choose|j: int| 0 <= j < t.len() && t[j] == ot[i];
                    assert(s[j] == s[s.len() - 1]);
                }
            }
            let o = ot.push(s.last());
            assert forall|i: int, j: int| 0 <= i < o.len() && 0 <= j < o.len() && i != j implies o[i]
                != o[j] by {
                if i < ot.len() && j < ot.len() {
                    assert(o[i] == ot[i] && o[j] == ot[j]);
                } else if i < ot.len() {
                    assert(o[i] == ot[i]);
                } else {
                    assert(o[j] == ot[j]);
                }
            }
        }
    }
}

/// Session ids stay distinct within a room: joining with a session that is in no room,
/// and leaving, keep every room free of repeated sessions.
pub proof fn law_sessions_stay_distinct(
    m: Map<Seq<char>, RoomView>,
    slug: Seq<char>,
    id: usize,
    now: Timestamp,
    leaving: usize,
)
    requires
        room_sessions_distinct(m),
        session_is_new(m, id),
    ensures
        room_sessions_distinct(join_model(m, slug, id, now).1),
        room_sessions_distinct(leave_model(m, slug, leaving).1),
{
    let j = join_model(m, slug, id, now).1;
    assert forall|k: Seq<char>| #[trigger] j.contains_key(k) implies j[k].sessions.no_duplicates() by {
        if k != slug {
            assert(m.contains_key(k));
        } else if m.contains_key(slug) {
            let s = m[slug].sessions;
            assert(!s.contains(id));
            if s.len() < MAX_PEERS {
                let t = s.push(id);
                assert forall|a: int, b: int| 0 <= a < t.len() && 0 <= b < t.len() && a != b implies t[a]
                    != t[b] by {
                    if a < s.len() && b < s.len() {
                        assert(t[a] == s[a] && t[b] == s[b]);
                    } else if a < s.len() {
                        assert(t[a] == s[a]);
                        assert(s.contains(t[a]));
                    } else {
                        assert(t[b] == s[b]);
                        assert(s.contains(t[b]));
                    }
                }
            }
        } else {
            assert(j[k].sessions =~= seq![id]);
        }
    }
    if m.contains_key(slug) {
        lemma_other_sessions_distinct(m[slug].sessions, leaving);
    }
    let l = leave_model(m, slug, leaving).1;
    assert forall|k: Seq<char>| #[trigger] l.contains_key(k) implies l[k].sessions.no_duplicates() by {
        if k != slug {
            assert(m.contains_key(k));
        }
    }
}

/// The first peer of a room is the initiator, the second the receiver, and a third is
/// turned away, leaving the room as it was.
pub proof fn law_roles_in_joining_order(
    m: Map<Seq<char>, RoomView>,
    slug: Seq<char>,
    first: usize,
    second: usize,
    third: usize,
    now: Timestamp,
)
    requires
        !m.contains_key(slug),
    ensures
        join_model(m, slug, first, now).0 == (JoinOutcome::Joined { role: PeerRole::Initiator }),
        join_model(join_model(m, slug, first, now).1, slug, second, now).0 == (JoinOutcome::Joined {
            role: PeerRole::Receiver,
        }),
        ({
            let two = join_model(join_model(m, slug, first, now).1, slug, second, now).1;
            &&& join_model(two, slug, third, now).0 == JoinOutcome::RoomFull
            &&& join_model(two, slug, third, now).1 == two
            &&& two[slug].sessions == seq![first, second]
        }),
{
    assert(Seq::<usize>::empty().push(first).push(second) =~= seq![first, second]);
}

/// A message is passed on to every other peer of the sender's room and never back to the
/// sender.
pub proof fn law_relay_reaches_the_others(m: Map<Seq<char>, RoomView>, slug: Seq<char>, sender: usize)
    requires
        m.contains_key(slug),
    ensures
        forall|x: usize| #[trigger] relay_targets_model(m, slug, sender).contains(x) <==> (m[slug].sessions.contains(x) && x != sender),
{
    lemma_other_sessions(m[slug].sessions, sender);
    let o = relay_targets_model(m, slug, sender);
    assert forall|x: usize| #[trigger] o.contains(x) implies m[slug].sessions.contains(x) && x != sender by {
        let i = choose|i: int| 0 <= i < o.len() && o[i] == x;
    }
}

/// A peer that joins a room and then leaves it leaves the rooms as they were (when its
/// session was not already in the room), and the peer that was there is told.
pub proof fn law_join_then_leave_restores(
    m: Map<Seq<char>, RoomView>,
    slug: Seq<char>,
    id: usize,
    now: Timestamp,
)
    requires
        rooms_wf(m),
        m.contains_key(slug) ==> !m[slug].sessions.contains(id),
        join_model(m, slug, id, now).0 is Joined,
    ensures
        leave_model(join_model(m, slug, id, now).1, slug, id).1 == m,
        leave_model(join_model(m, slug, id, now).1, slug, id).0 == (if m.contains_key(slug) {
            m[slug].sessions
        } else {
            Seq::empty()
        }),
{
    let room = if m.contains_key(slug) {
        m[slug]
    } else {
        RoomView { sessions: Seq::empty(), created_at: now }
    };
    let pushed = room.sessions.push(id);
    lemma_other_sessions(room.sessions, id);
    assert(pushed.drop_last() =~= room.sessions);
    assert(other_sessions(pushed, id) == other_sessions(room.sessions, id));
    let j = join_model(m, slug, id, now).1;
    if m.contains_key(slug) {
        assert(j.insert(slug, RoomView { sessions: room.sessions, created_at: room.created_at }) =~= m);
    } else {
        assert(j.remove(slug) =~= m);
    }
}


/// A change of the rooms: a session asks to join a room, or leaves one. Relaying a message
/// reads the rooms without changing them.
pub enum RoomEvent {
    Join { slug: Seq<char>, id: usize, now: Timestamp },
    Leave { slug: Seq<char>, id: usize },
}

/// The rooms after the events `evs`, in order, starting from `m`.
pub open spec fn after_events(m: Map<Seq<char>, RoomView>, evs: Seq<RoomEvent>) -> Map<Seq<char>, RoomView>
    decreases evs.len(),
{
    if evs.len() == 0 {
        m
    } else {
        let before = after_events(m, evs.drop_last());
        match evs.last() {
            RoomEvent::Join { slug, id, now } => join_model(before, slug, id, now).1,
            RoomEvent::Leave { slug, id } => leave_model(before, slug, id).1,
        }
    }
}

/// The sessions that asked to join in `evs`.
pub open spec fn joined_sessions(evs: Seq<RoomEvent>) -> Set<usize>
    decreases evs.len(),
{
    if evs.len() == 0 {
        Set::empty()
    } else {
        match evs.last() {
            RoomEvent::Join { id, .. } => joined_sessions(evs.drop_last()).insert(id),
            RoomEvent::Leave { .. } => joined_sessions(evs.drop_last()),
        }
    }
}

/// Every session that asks to join in `evs` is new: it never asked before.
pub open spec fn joins_are_new(evs: Seq<RoomEvent>) -> bool
    decreases evs.len(),
{
    if evs.len() == 0 {
        true
    } else {
        &&& joins_are_new(evs.drop_last())
        &&& match evs.last() {
            RoomEvent::Join { id, .. } => !joined_sessions(evs.drop_last()).contains(id),
            RoomEvent::Leave { .. } => true,
        }
    }
}

/// Every session in a room of `m` is in `ids`.
pub open spec fn sessions_within(m: Map<Seq<char>, RoomView>, ids: Set<usize>) -> bool {
    forall|k: Seq<char>, x: usize| m.contains_key(k) && #[trigger] m[k].sessions.contains(x) ==> ids.contains(x)
}

proof fn lemma_after_events(evs: Seq<RoomEvent>)
    requires
        joins_are_new(evs),
    ensures
        rooms_wf(after_events(Map::empty(), evs)),
        room_sessions_distinct(after_events(Map::empty(), evs)),
        sessions_within(after_events(Map::empty(), evs), joined_sessions(evs)),
    decreases evs.len(),
{
    if evs.len() > 0 {
        let pre = evs.drop_last();
        lemma_after_events(pre);
        let m = after_events(Map::empty(), pre);
        let ids = joined_sessions(pre);
        match evs.last() {
            RoomEvent::Join { slug, id, now } => {
                assert(session_is_new(m, id));
                law_rooms_hold_one_or_two(m, slug, id, now);
                law_sessions_stay_distinct(m, slug, id, now, id);
                let m2 = join_model(m, slug, id, now).1;
                let ids2 = ids.insert(id);
                assert forall|k: Seq<char>, x: usize| m2.contains_key(k) && #[trigger] m2[k].sessions.contains(x)
                    implies ids2.contains(x) by {
                    if k != slug || !(join_model(m, slug, id, now).0 is Joined) {
                        assert(m.contains_key(k));
                    } else {
                        let s = room_or_new(m, slug, now).sessions;
                        let j = choose|j: int| 0 <= j < m2[k].sessions.len() && m2[k].sessions[j] == x;
                        if j < s.len() {
                            assert(s[j] == x);
                            assert(m.contains_key(k));
                            assert(m[k].sessions.contains(x));
                        }
                    }
                }
            },
            RoomEvent::Leave { slug, id } => {
                law_rooms_hold_one_or_two(m, slug, id, Timestamp { secs: 0, nanos: 0 });
                let m2 = leave_model(m, slug, id).1;
                if m.contains_key(slug) {
                    lemma_other_sessions(m[slug].sessions, id);
                    lemma_other_sessions_distinct(m[slug].sessions, id);
                }
                assert forall|k: Seq<char>| #[trigger] m2.contains_key(k) implies m2[k].sessions.no_duplicates() by {
                    if k != slug {
                        assert(m.contains_key(k));
                    }
                }
                assert forall|k: Seq<char>, x: usize| m2.contains_key(k) && #[trigger] m2[k].sessions.contains(x)
                    implies ids.contains(x) by {
                    if k != slug {
                        assert(m.contains_key(k));
                    } else {
                        let o = m2[k].sessions;
                        let j = choose|j: int| 0 <= j < o.len() && o[j] == x;
                        assert(m[slug].sessions.contains(o[j]));
                    }
                }
            },
        }
    }
}

/// Whatever interleaving of joins and leaves the rooms go through from no rooms at all,
/// as long as every joining session is new (as fresh session ids are), every room holds
/// one or two sessions and no session twice.
pub proof fn law_rooms_stay_sound(evs: Seq<RoomEvent>)
    requires
        joins_are_new(evs),
    ensures
        rooms_wf(after_events(Map::empty(), evs)),
        room_sessions_distinct(after_events(Map::empty(), evs)),
{
    lemma_after_events(evs);
}

} // verus!
