//! One forwarding session per player, created on the first datagram seen from
//! that player and kept for as long as the table lives.

use crate::address::PlayerAddress;
use crate::index::{empty_index, index_get, index_insert, random_builder, AddressIndex};
use vstd::prelude::*;

verus! {

/// Number of players the table makes room for when it is created. The table
/// grows past it without limit.
pub const SESSION_CAPACITY_HINT: usize = 128;

/// Names a session of a table: its position in creation order.
#[derive(Clone, Copy, Debug, PartialEq, Eq, Hash, Structural)]
pub struct SessionId(pub usize);

/// The forwarding state of one player: the address the player is seen at and
/// whatever the relay holds open for that player.
#[derive(Debug, PartialEq, Eq)]
pub struct Session<S> {
    pub player: PlayerAddress,
    pub resource: S,
}

/// What `SessionTable::register` did with the resource it was given.
#[derive(Debug, PartialEq, Eq)]
pub enum Registration<S> {
    /// The player was new: the resource now belongs to the session named.
    Created(SessionId),
    /// The player already had the session named: the resource comes back
    /// unused.
    Existing(SessionId, S),
}

/// The sessions of all players seen so far, found by address through a hash
/// index. Sessions are never removed, so a `SessionId` stays valid and keeps
/// naming the same player.
pub struct SessionTable<S> {
    index: AddressIndex,
    sessions: Vec<Session<S>>,
}

/// Whether one of `sessions` belongs to `player`.
pub open spec fn has_player<S>(sessions: Seq<Session<S>>, player: PlayerAddress) -> bool {
    exists|i: int| 0 <= i < sessions.len() && (#[trigger] sessions[i]).player == player
}

/// Whether no two of `sessions` belong to the same player.
pub open spec fn distinct_players<S>(sessions: Seq<Session<S>>) -> bool {
    forall|i: int, j: int|
        0 <= i < j < sessions.len() ==> (#[trigger] sessions[i]).player != (
        #[trigger] sessions[j]).player
}

/// Whether `id` names one of `sessions` and that one belongs to `player`.
pub open spec fn names_player<S>(
    sessions: Seq<Session<S>>,
    id: SessionId,
    player: PlayerAddress,
) -> bool {
    id.0 < sessions.len() && sessions[id.0 as int].player == player
}

/// The sessions after `player` was offered one that holds `resource`: a new
/// session at the end if the player had none, no change otherwise.
pub open spec fn register_spec<S>(
    sessions: Seq<Session<S>>,
    player: PlayerAddress,
    resource: S,
) -> Seq<Session<S>> {
    if has_player(sessions, player) {
        sessions
    } else {
        sessions.push(Session { player, resource })
    }
}

impl<S> View for SessionTable<S> {
    type V = Seq<Session<S>>;

    /// The sessions in the order in which they were created; `SessionId(i)`
    /// names the `i`-th.
    closed spec fn view(&self) -> Seq<Session<S>> {
        self.sessions@
    }
}

impl<S> SessionTable<S> {
    /// The hash index and the sessions describe each other: the index maps
    /// the key of each session's player to that session's position, and holds
    /// nothing else.
    pub closed spec fn index_agrees(&self) -> bool {
        &&& forall|i: int|
            0 <= i < self.sessions@.len() ==> {
                &&& self.index@.contains_key(#[trigger] self.sessions@[i].player.key_spec())
                &&& self.index@[self.sessions@[i].player.key_spec()] == i
            }
        &&& forall|k: u64| #[trigger]
            self.index@.contains_key(k) ==> {
                &&& self.index@[k] < self.sessions@.len()
                &&& self.sessions@[self.index@[k] as int].player.key_spec() == k
            }
    }

    /// The table's invariant: at most one session per player, and an index
    /// that finds each of them.
    pub open spec fn wf(&self) -> bool {
        &&& self.index_agrees()
        &&& distinct_players(self@)
    }

    /// Whether `player` has a session.
    pub open spec fn has(&self, player: PlayerAddress) -> bool {
        has_player(self@, player)
    }

    /// Whether `id` names a session of this table that belongs to `player`.
    pub open spec fn names(&self, id: SessionId, player: PlayerAddress) -> bool {
        names_player(self@, id, player)
    }

    /// An empty table with room for `SESSION_CAPACITY_HINT` players.
    pub fn new() -> (table: SessionTable<S>)
        ensures
            table.wf(),
            table@ == Seq::<Session<S>>::empty(),
    {
        SessionTable {
            index: empty_index(SESSION_CAPACITY_HINT, random_builder()),
            sessions: Vec::with_capacity(SESSION_CAPACITY_HINT),
        }
    }

    /// Number of sessions, which is the number of distinct players seen.
    pub fn len(&self) -> (n: usize)
        ensures
            n == self@.len(),
    {
        self.sessions.len()
    }

    /// Whether no player has been seen yet.
    pub fn is_empty(&self) -> (empty: bool)
        ensures
            empty <==> self@.len() == 0,
    {
        self.sessions.len() == 0
    }

    /// Looks up the session of `player` without creating one.
    pub fn find(&self, player: PlayerAddress) -> (found: Option<SessionId>)
        requires
            self.wf(),
        ensures
            match found {
                Some(id) => self.names(id, player),
                None => !self.has(player),
            },
    {
        let key = player.key();
        match index_get(&self.index, key) {
            Some(slot) => {
                proof {
                    crate::address::lemma_key_injective(
                        self.sessions@[slot as int].player,
                        player,
                    );
                }
                Some(SessionId(slot))
            },
            None => {
                assert forall|i: int| 0 <= i < self.sessions@.len() implies (
                #[trigger] self.sessions@[i]).player != player by {
                    assert(self.index@.contains_key(self.sessions@[i].player.key_spec()));
                }
                None
            },
        }
    }

    /// The session that `id` names, if it names one.
    pub fn session(&self, id: SessionId) -> (found: Option<&Session<S>>)
        ensures
            match found {
                Some(session) => id.0 < self@.len() && *session == self@[id.0 as int],
                None => id.0 >= self@.len(),
            },
    {
        if id.0 < self.sessions.len() {
            Some(&self.sessions[id.0])
        } else {
            None
        }
    }

    /// The player whose session `id` names, if it names one.
    pub fn player_of(&self, id: SessionId) -> (found: Option<PlayerAddress>)
        ensures
            match found {
                Some(player) => self.names(id, player),
                None => id.0 >= self@.len(),
            },
    {
        if id.0 < self.sessions.len() {
            Some(self.sessions[id.0].player)
        } else {
            None
        }
    }

    /// Gives `player` a session that holds `resource`, unless the player has
    /// one already: then nothing changes and the resource is handed back.
    pub fn register(&mut self, player: PlayerAddress, resource: S) -> (registration: Registration<
        S,
    >)
        requires
            old(self).wf(),
        ensures
            final(self).wf(),
            final(self)@ == register_spec(old(self)@, player, resource),
            match registration {
                Registration::Created(id) => !old(self).has(player) && id.0 == old(self)@.len(),
                Registration::Existing(id, unused) => old(self).names(id, player) && unused
                    == resource,
            },
    {
        match self.find(player) {
            Some(id) => Registration::Existing(id, resource),
            None => {
                let slot = self.sessions.len();
                let key = player.key();
                index_insert(&mut self.index, key, slot);
                self.sessions.push(Session { player, resource });
                proof {
                    assert forall|i: int| 0 <= i < self.sessions@.len() implies {
                        &&& self.index@.contains_key(#[trigger] self.sessions@[i].player.key_spec())
                        &&& self.index@[self.sessions@[i].player.key_spec()] == i
                    } by {
                        if i < slot {
                            assert(old(self).sessions@[i].player != player);
                            crate::address::lemma_key_injective(
                                old(self).sessions@[i].player,
                                player,
                            );
                        }
                    }
                    assert forall|i: int, j: int| 0 <= i < j < self@.len() implies (
                    #[trigger] self@[i]).player != (#[trigger] self@[j]).player by {
                        if j == slot {
                            assert(old(self).sessions@[i].player != player);
                        }
                    }
                }
                Registration::Created(SessionId(slot))
            },
        }
    }

    /// Returns the session of `player`, creating it first if the player has
    /// none. `factory` is called only for a new player, and at most once; it
    /// builds what the new session holds. If it fails, its error is returned
    /// and the table is left as it was, so the next datagram from that player
    /// tries again.
    pub fn get_or_create<E, F: FnOnce() -> Result<S, E>>(
        &mut self,
        player: PlayerAddress,
        factory: F,
    ) -> (r: Result<SessionId, E>)
        requires
            old(self).wf(),
            !old(self).has(player) ==> factory.requires(()),
        ensures
            final(self).wf(),
            r matches Ok(id) ==> final(self).names(id, player),
            old(self).has(player) ==> {
                &&& r matches Ok(id)
                &&& old(self).names(id, player)
                &&& final(self)@ == old(self)@
            },
            !old(self).has(player) ==> match r {
                Ok(id) => {
                    &&& id.0 == old(self)@.len()
                    &&& factory.ensures((), Ok(final(self)@.last().resource))
                    &&& final(self)@ == old(self)@.push(
                        Session { player, resource: final(self)@.last().resource },
                    )
                },
                Err(e) => factory.ensures((), Err(e)) && final(self)@ == old(self)@,
            },
    {
        match self.find(player) {
            Some(id) => Ok(id),
            None => match factory() {
                Ok(resource) => match self.register(player, resource) {
                    Registration::Created(id) => Ok(id),
                    Registration::Existing(id, _) => Ok(id),
                },
                Err(e) => Err(e),
            },
        }
    }
}

/// A player has at most one session: two names for sessions of the same
/// player are the same name, and sessions of different players have
/// different names.
pub proof fn lemma_one_session_per_player<S>(
    sessions: Seq<Session<S>>,
    player_a: PlayerAddress,
    id_a: SessionId,
    player_b: PlayerAddress,
    id_b: SessionId,
)
    requires
        distinct_players(sessions),
        names_player(sessions, id_a, player_a),
        names_player(sessions, id_b, player_b),
    ensures
        id_a == id_b <==> player_a == player_b,
{
    if id_a.0 < id_b.0 {
        assert(sessions[id_a.0 as int].player != sessions[id_b.0 as int].player);
    } else if id_b.0 < id_a.0 {
        assert(sessions[id_b.0 as int].player != sessions[id_a.0 as int].player);
    }
}

/// Offering a session to a player gives that player a session and keeps
/// every session that was there under its name. No player gets a second one.
pub proof fn lemma_register_spec<S>(sessions: Seq<Session<S>>, player: PlayerAddress, resource: S)
    ensures
        has_player(register_spec(sessions, player, resource), player),
        sessions.len() <= register_spec(sessions, player, resource).len() <= sessions.len() + 1,
        register_spec(sessions, player, resource).take(sessions.len() as int) == sessions,
        distinct_players(sessions) ==> distinct_players(
            register_spec(sessions, player, resource),
        ),
{
    let after = register_spec(sessions, player, resource);
    if !has_player(sessions, player) {
        assert(after[sessions.len() as int].player == player);
        if distinct_players(sessions) {
            assert forall|i: int, j: int| 0 <= i < j < after.len() implies (
            #[trigger] after[i]).player != (#[trigger] after[j]).player by {
                if j == sessions.len() {
                    assert(sessions[i].player != player);
                } else {
                    assert(sessions[i].player != sessions[j].player);
                }
            }
        }
    }
    assert(after.take(sessions.len() as int) =~= sessions);
}

/// Two datagrams from the same player resolve to one session: the second
/// offer finds the session that the first one made, under the same name, and
/// changes nothing.
pub proof fn lemma_register_twice<S>(
    sessions: Seq<Session<S>>,
    player: PlayerAddress,
    first: S,
    second: S,
    id: SessionId,
)
    requires
        names_player(register_spec(sessions, player, first), id, player),
    ensures
        register_spec(register_spec(sessions, player, first), player, second) == register_spec(
            sessions,
            player,
            first,
        ),
        names_player(
            register_spec(register_spec(sessions, player, first), player, second),
            id,
            player,
        ),
{
    lemma_register_spec(sessions, player, first);
}

} // verus!
