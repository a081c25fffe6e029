//! Bookkeeping of the WebRTC signalling rooms: who joins a room under which role, to
//! whom a peer's messages are relayed, and who is told when a peer leaves.
use vstd::prelude::*;
use crate::clock::Timestamp;
use crate::slug_map::SlugMap;
use crate::text::text_equals;

verus! {

/// The sessions of one room, in the order they joined.
pub struct WebRTCRoom {
    /// The ids of the sessions in the room.
    pub sessions: Vec<usize>,
    /// When the room was opened.
    pub created_at: Timestamp,
}

/// A room as a mathematical value.
pub struct RoomView {
    pub sessions: Seq<usize>,
    pub created_at: Timestamp,
}

impl View for WebRTCRoom {
    type V = RoomView;

    open spec fn view(&self) -> RoomView {
        RoomView { sessions: self.sessions@, created_at: self.created_at }
    }
}

/// The most sessions a room holds.
pub const MAX_PEERS: usize = 2;

/// The role of a peer in its room.
#[derive(Clone, Copy, Debug, PartialEq, Eq, Structural)]
pub enum PeerRole {
    /// The first peer of the room.
    Initiator,
    /// The second peer of the room.
    Receiver,
}

/// The answer to a peer that asks to join a room.
#[derive(Clone, Copy, Debug, PartialEq, Eq, Structural)]
pub enum JoinOutcome {
    /// The room already holds two peers; the peer is turned away.
    RoomFull,
    /// The peer joined the room in the given role.
    Joined { role: PeerRole },
}

/// The rooms of the signalling service, keyed by slug.
pub struct WebRTCRooms {
    rooms: SlugMap<WebRTCRoom>,
}

impl View for WebRTCRooms {
    type V = Map<Seq<char>, RoomView>;

    closed spec fn view(&self) -> Map<Seq<char>, RoomView> {
        self.rooms@.map_values(|r: WebRTCRoom| r@)
    }
}

/// The room under `slug`, or a new empty room opened at `now`.
pub open spec fn room_or_new(m: Map<Seq<char>, RoomView>, slug: Seq<char>, now: Timestamp) -> RoomView {
    if m.contains_key(slug) {
        m[slug]
    } else {
        RoomView { sessions: Seq::empty(), created_at: now }
    }
}

/// What a peer with session `id` asking at `now` to join the room `slug` is answered, and
/// the rooms after it: a room with two peers turns it away unchanged; otherwise the peer
/// is added (opening the room if needed), as initiator in an empty room and as receiver
/// in a room with one peer.
pub open spec fn join_model(m: Map<Seq<char>, RoomView>, slug: Seq<char>, id: usize, now: Timestamp) -> (
    JoinOutcome,
    Map<Seq<char>, RoomView>,
) {
    let room = room_or_new(m, slug, now);
    if room.sessions.len() >= MAX_PEERS {
        (JoinOutcome::RoomFull, m)
    } else {
        (
            JoinOutcome::Joined {
                role: if room.sessions.len() == 0 {
                    PeerRole::Initiator
                } else {
                    PeerRole::Receiver
                },
            },
            m.insert(slug, RoomView { sessions: room.sessions.push(id), created_at: room.created_at }),
        )
    }
}

/// The ids of `s` other than `id`, in order.
pub open spec fn other_sessions(s: Seq<usize>, id: usize) -> Seq<usize>
    decreases s.len(),
{
    if s.len() == 0 {
        s
    } else if s.last() != id {
        other_sessions(s.drop_last(), id).push(s.last())
    } else {
        other_sessions(s.drop_last(), id)
    }
}

/// The sessions that a message of session `sender` in the room `slug` is passed on to.
pub open spec fn relay_targets_model(m: Map<Seq<char>, RoomView>, slug: Seq<char>, sender: usize) -> Seq<
    usize,
> {
    if m.contains_key(slug) {
        other_sessions(m[slug].sessions, sender)
    } else {
        Seq::empty()
    }
}

/// The sessions told that session `id` left the room `slug`, and the rooms after it: the
/// session is dropped from the room, the remaining peers are told, and a room left empty
/// is closed.
pub open spec fn leave_model(m: Map<Seq<char>, RoomView>, slug: Seq<char>, id: usize) -> (
    Seq<usize>,
    Map<Seq<char>, RoomView>,
) {
    if m.contains_key(slug) {
        let remaining = other_sessions(m[slug].sessions, id);
        (
            remaining,
            if remaining.len() == 0 {
                m.remove(slug)
            } else {
                m.insert(slug, RoomView { sessions: remaining, created_at: m[slug].created_at })
            },
        )
    } else {
        (Seq::empty(), m)
    }
}

/// The ids of `s` other than `id`, in order.
fn other_sessions_of(s: &Vec<usize>, id: usize) -> (r: Vec<usize>)
    ensures
        r@ == other_sessions(s@, id),
{
    let mut out: Vec<usize> = Vec::new();
    let mut i: usize = 0;
    while i < s.len()
        invariant
            i <= s@.len(),
            out@ == other_sessions(s@.subrange(0, i as int), id),
        decreases s@.len() - i,
    {
        proof {
            assert(s@.subrange(0, i + 1).drop_last() =~= s@.subrange(0, i as int));
        }
        if s[i] != id {
            out.push(s[i]);
        }
        i = i + 1;
    }
    proof {
        assert(s@.subrange(0, s@.len() as int) =~= s@);
    }
    out
}

impl WebRTCRooms {
    /// No rooms.
    pub fn new() -> (r: WebRTCRooms)
        ensures
            r@ == Map::<Seq<char>, RoomView>::empty(),
    {
        let r = WebRTCRooms { rooms: SlugMap::new() };
        assert(r@ =~= Map::<Seq<char>, RoomView>::empty());
        r
    }

    /// The peer with session `id` asks at `now` to join the room `slug` (see [`join_model`]).
    pub fn join(&mut self, slug: &str, id: usize, now: Timestamp) -> (r: JoinOutcome)
        ensures
            (r, final(self)@) == join_model(old(self)@, slug@, id, now),
    {
        let ghost m0 = self.rooms@;
        let existing = self.rooms.remove(slug);
        let mut room = match existing {
            Some(room) => room,
            None => WebRTCRoom { sessions: Vec::new(), created_at: now },
        };
        if room.sessions.len() >= MAX_PEERS {
            self.rooms.insert(slug.to_owned(), room);
            proof {
                assert(self.rooms@ =~= m0);
                assert(self@ =~= old(self)@);
            }
            return JoinOutcome::RoomFull;
        }
        let role = if room.sessions.len() == 0 {
            PeerRole::Initiator
        } else {
            PeerRole::Receiver
        };
        room.sessions.push(id);
        self.rooms.insert(slug.to_owned(), room);
        proof {
            assert(self@ =~= join_model(old(self)@, slug@, id, now).1);
        }
        JoinOutcome::Joined { role }
    }

    /// The sessions that a message of `sender` in the room `slug` is passed on to: the
    /// other peers of the room.
    pub fn relay_targets(&self, slug: &str, sender: usize) -> (r: Vec<usize>)
        ensures
            r@ == relay_targets_model(self@, slug@, sender),
    {
        match self.rooms.get(slug) {
            Some(room) => other_sessions_of(&room.sessions, sender),
            None => Vec::new(),
        }
    }

    /// Session `id` leaves the room `slug` (see [`leave_model`]); returns the sessions to
    /// tell.
    pub fn leave(&mut self, slug: &str, id: usize) -> (r: Vec<usize>)
        ensures
            (r@, final(self)@) == leave_model(old(self)@, slug@, id),
    {
        match self.rooms.remove(slug) {
            Some(room) => {
                let remaining = other_sessions_of(&room.sessions, id);
                if remaining.len() > 0 {
                    let kept = WebRTCRoom { sessions: other_sessions_of(&room.sessions, id), created_at: room.created_at };
                    self.rooms.insert(slug.to_owned(), kept);
                }
                proof {
                    assert(self@ =~= leave_model(old(self)@, slug@, id).1);
                }
                remaining
            },
            None => {
                proof {
                    assert(self@ =~= old(self)@);
                }
                Vec::new()
            },
        }
    }
}

/// The member `key` of the JSON value that `text` parses to, when it is a string, as
/// `serde_json::from_str::<serde_json::Value>(text)` followed by `.get(key)` and
/// `.as_str()` gives it; `None` when the text is not JSON or has no such string member.
pub uninterp spec fn json_string_member(text: Seq<char>, key: Seq<char>) -> Option<Seq<char>>;

/// The string member `key` of the JSON text, read with `serde_json`; the result is named
/// by `json_string_member`.
#[verifier::external_body]
fn json_string_member_of(text: &str, key: &str) -> (r: Option<String>)
    ensures
        match r {
            Some(t) => json_string_member(text@, key@) == Some(t@),
            None => json_string_member(text@, key@) is None,
        },
{
    match serde_json::from_str::<serde_json::Value>(text) {
        Ok(value) => match value.get(key) {
            Some(member) => match member.as_str() {
                Some(s) => Some(s.to_string()),
                None => None,
            },
            None => None,
        },
        Err(_) => None,
    }
}

/// The message types that are passed on to the other peer.
pub open spec fn is_relayed_type(t: Seq<char>) -> bool {
    t == "offer"@ || t == "answer"@ || t == "candidate"@ || t == "sender_ready"@
}

/// A text message is passed on when it is JSON whose `type` member is one of the
/// relayed types.
pub open spec fn relays_message(text: Seq<char>) -> bool {
    match json_string_member(text, "type"@) {
        Some(t) => is_relayed_type(t),
        None => false,
    }
}

/// Whether a text message from a peer is passed on to the other peer.
pub fn should_relay(text: &str) -> (r: bool)
    ensures
        r == relays_message(text@),
{
    match json_string_member_of(text, "type") {
        Some(t) => {
            let t = t.as_str();
            text_equals(t, "offer") || text_equals(t, "answer") || text_equals(t, "candidate")
                || text_equals(t, "sender_ready")
        },
        None => false,
    }
}

} // verus!
