//! The per-room session registry: each room holds at most one live session.
//! The registry is pure bookkeeping over opaque session handles — created on
//! first resolve or explicit connect, dropped on disconnect or teardown —
//! and the caller shares it behind its own lock, never held across a
//! suspension.
use vstd::prelude::*;

verus! {

/// What a room registry holds for one room: the first pair with that room's
/// id decides, and the uniqueness invariant keeps it the only one.
pub open spec fn lookup_spec<T>(s: Seq<(u64, T)>, room: u64) -> Option<T>
    decreases s.len(),
{
    if s.len() == 0 {
        None
    } else if s[0].0 == room {
        Some(s[0].1)
    } else {
        lookup_spec(s.skip(1), room)
    }
}

/// No two pairs name the same room.
pub open spec fn rooms_unique<T>(s: Seq<(u64, T)>) -> bool {
    forall|i: int, j: int| 0 <= i < j < s.len() ==> (#[trigger] s[i]).0 != (#[trigger] s[j]).0
}

proof fn lemma_lookup_at<T>(s: Seq<(u64, T)>, room: u64, i: int)
    requires
        0 <= i < s.len(),
        s[i].0 == room,
        forall|j: int| 0 <= j < i ==> (#[trigger] s[j]).0 != room,
    ensures
        lookup_spec(s, room) == Some(s[i].1),
    decreases i,
{
    if i > 0 {
        assert(s.skip(1)[i - 1] == s[i]);
        assert(forall|j: int| 0 <= j < i - 1 ==> (#[trigger] s.skip(1)[j]).0 != room);
        lemma_lookup_at(s.skip(1), room, i - 1);
    }
}

proof fn lemma_lookup_none<T>(s: Seq<(u64, T)>, room: u64)
    requires
        forall|j: int| 0 <= j < s.len() ==> (#[trigger] s[j]).0 != room,
    ensures
        lookup_spec(s, room) is None,
    decreases s.len(),
{
    if s.len() > 0 {
        assert(forall|j: int| 0 <= j < s.skip(1).len() ==> (#[trigger] s.skip(1)[j]).0 != room);
        lemma_lookup_none(s.skip(1), room);
    }
}

/// Appending a pair for a new room leaves every other room's entry as it
/// was.
proof fn lemma_lookup_push<T>(s: Seq<(u64, T)>, pair: (u64, T), room: u64)
    ensures
        pair.0 != room ==> lookup_spec(s.push(pair), room) == lookup_spec(s, room),
        lookup_spec(s, room) is Some ==> lookup_spec(s.push(pair), room) == lookup_spec(s, room),
    decreases s.len(),
{
    if s.len() == 0 {
        assert(s.push(pair)[0] == pair);
        assert(s.push(pair).skip(1) =~= Seq::<(u64, T)>::empty());
        assert(lookup_spec(Seq::<(u64, T)>::empty(), room) is None);
        if pair.0 != room {
            assert(lookup_spec(s.push(pair), room) == lookup_spec(s.push(pair).skip(1), room));
        }
    } else {
        assert(s.push(pair)[0] == s[0]);
        assert(s.push(pair).skip(1) =~= s.skip(1).push(pair));
        lemma_lookup_push(s.skip(1), pair, room);
    }
}

/// Dropping one pair leaves every other room's entry as it was, and — with
/// unique rooms — leaves the dropped room absent.
proof fn lemma_lookup_remove<T>(s: Seq<(u64, T)>, i: int, room: u64)
    requires
        0 <= i < s.len(),
        s[i].0 != room,
    ensures
        lookup_spec(s.remove(i), room) == lookup_spec(s, room),
    decreases s.len(),
{
    if i == 0 {
        assert(s.remove(0) =~= s.skip(1));
    } else {
        assert(s.remove(i)[0] == s[0]);
        assert(s.remove(i).skip(1) =~= s.skip(1).remove(i - 1));
        assert(s.skip(1)[i - 1] == s[i]);
        if s[0].0 != room {
            lemma_lookup_remove(s.skip(1), i - 1, room);
        }
    }
}

/// A registry of at most one live session per room, keyed by the room's id.
/// `T` is the opaque session handle the caller manages.
pub struct RoomRegistry<T> {
    rooms: Vec<(u64, T)>,
}

impl<T> RoomRegistry<T> {
    /// One entry per room.
    pub closed spec fn wf(&self) -> bool {
        rooms_unique(self.rooms@)
    }

    /// The session registered for a room, if any.
    pub closed spec fn session_for(&self, room: u64) -> Option<T> {
        lookup_spec(self.rooms@, room)
    }

    /// How many rooms hold a live session.
    pub closed spec fn len_spec(&self) -> nat {
        self.rooms@.len()
    }

    pub fn new() -> (r: RoomRegistry<T>)
        ensures
            r.wf(),
            forall|room: u64| r.session_for(room) is None,
            r.len_spec() == 0,
    {
        let r = RoomRegistry { rooms: Vec::new() };
        proof {
            assert forall|room: u64| r.session_for(room) is None by {
                lemma_lookup_none(r.rooms@, room);
            }
        }
        r
    }

    /// The session of one room, shared.
    pub fn get(&self, room: u64) -> (r: Option<&T>)
        requires
            self.wf(),
        ensures
            match r {
                Some(session) => self.session_for(room) == Some(*session),
                None => self.session_for(room) is None,
            },
    {
        let mut i: usize = 0;
        while i < self.rooms.len()
            invariant
                i <= self.rooms@.len(),
                forall|j: int| 0 <= j < i ==> (#[trigger] self.rooms@[j]).0 != room,
            decreases self.rooms@.len() - i,
        {
            if self.rooms[i].0 == room {
                proof {
                    lemma_lookup_at(self.rooms@, room, i as int);
                }
                return Some(&self.rooms[i].1);
            }
            i += 1;
        }
        proof {
            lemma_lookup_none(self.rooms@, room);
        }
        None
    }

    /// Registers a room's session. The room must not already hold one: a
    /// caller either checked with `get` or tore the old session down first,
    /// so that no room ever runs two sessions.
    pub fn insert(&mut self, room: u64, session: T)
        requires
            old(self).wf(),
            old(self).session_for(room) is None,
        ensures
            final(self).wf(),
            final(self).session_for(room) == Some(session),
            forall|other: u64|
                other != room ==> final(self).session_for(other) == old(self).session_for(other),
            final(self).len_spec() == old(self).len_spec() + 1,
    {
        let ghost s0 = self.rooms@;
        proof {
            assert forall|j: int| 0 <= j < s0.len() implies (#[trigger] s0[j]).0 != room by {
                if s0[j].0 == room {
                    lemma_lookup_some_of_match(s0, room, j);
                }
            }
        }
        self.rooms.push((room, session));
        proof {
            assert(self.rooms@ == s0.push((room, session)));
            assert(self.rooms@[s0.len() as int].0 == room);
            lemma_lookup_at(self.rooms@, room, s0.len() as int);
            assert forall|other: u64| other != room implies lookup_spec(self.rooms@, other)
                == lookup_spec(s0, other) by {
                lemma_lookup_push(s0, (room, session), other);
            }
        }
    }

    /// Tears down a room's session, handing the handle back so the caller
    /// can shut it down; a room without a session is left as it is.
    pub fn remove(&mut self, room: u64) -> (r: Option<T>)
        requires
            old(self).wf(),
        ensures
            final(self).wf(),
            r == old(self).session_for(room),
            final(self).session_for(room) is None,
            forall|other: u64|
                other != room ==> final(self).session_for(other) == old(self).session_for(other),
    {
        let ghost s0 = self.rooms@;
        let mut i: usize = 0;
        while i < self.rooms.len()
            invariant
                i <= s0.len(),
                s0 == old(self).rooms@,
                self.rooms@ == s0,
                rooms_unique(s0),
                forall|j: int| 0 <= j < i ==> (#[trigger] s0[j]).0 != room,
            decreases s0.len() - i,
        {
            if self.rooms[i].0 == room {
                proof {
                    lemma_lookup_at(s0, room, i as int);
                }
                let removed = self.rooms.remove(i);
                let session = removed.1;
                proof {
                    assert(removed == s0[i as int]);
                    assert(session == s0[i as int].1);
                    assert(Some(session) == lookup_spec(s0, room));
                    assert(self.rooms@ == s0.remove(i as int));
                    s0.remove_ensures(i as int);
                    assert forall|other: u64| other != room implies lookup_spec(
                        self.rooms@,
                        other,
                    ) == lookup_spec(s0, other) by {
                        lemma_remove_other(s0, i as int, other);
                    }
                    assert forall|j: int|
                        0 <= j < self.rooms@.len() implies (#[trigger] self.rooms@[j]).0
                        != room by {
                        assert(s0[i as int].0 == room);
                        if j < i {
                            assert(s0.remove(i as int)[j] == s0[j]);
                            assert(self.rooms@[j] == s0[j]);
                        } else {
                            assert(s0.remove(i as int)[j] == s0[j + 1]);
                            assert(self.rooms@[j] == s0[j + 1]);
                        }
                    }
                    lemma_lookup_none(self.rooms@, room);
                    assert forall|j1: int, j2: int|
                        0 <= j1 < j2 < self.rooms@.len() implies (#[trigger] self.rooms@[j1]).0
                        != (#[trigger] self.rooms@[j2]).0 by {
                        let l1: int = if j1 < i {
                            j1
                        } else {
                            j1 + 1
                        };
                        let l2: int = if j2 < i {
                            j2
                        } else {
                            j2 + 1
                        };
                        assert(s0.remove(i as int)[j1] == s0[l1]);
                        assert(s0.remove(i as int)[j2] == s0[l2]);
                        assert(self.rooms@[j1] == s0[l1] && self.rooms@[j2] == s0[l2]);
                    }
                }
                return Some(session);
            }
            i += 1;
        }
        proof {
            lemma_lookup_none(s0, room);
        }
        None
    }
}

/// A registry with a pair for a room answers for that room.
proof fn lemma_lookup_some_of_match<T>(s: Seq<(u64, T)>, room: u64, j: int)
    requires
        0 <= j < s.len(),
        s[j].0 == room,
    ensures
        lookup_spec(s, room) is Some,
    decreases j,
{
    if s[0].0 != room {
        assert(s.skip(1)[j - 1] == s[j]);
        lemma_lookup_some_of_match(s.skip(1), room, j - 1);
    }
}

/// Removing some other room's pair does not change what a room maps to.
proof fn lemma_remove_other<T>(s: Seq<(u64, T)>, i: int, room: u64)
    requires
        0 <= i < s.len(),
    ensures
        s[i].0 != room ==> lookup_spec(s.remove(i), room) == lookup_spec(s, room),
{
    if s[i].0 != room {
        lemma_lookup_remove(s, i, room);
    }
}

} // verus!
