//! The poll cache: one liveness record and one map state per registered
//! server, found by name.
//!
//! The cache never polls. A caller asks whether a poll is due, polls if so,
//! and reports the outcome; the cache then holds the new record. Only a name
//! that is not registered is an error.

use crate::info::ServerInfo;
use crate::players::Players;
use crate::server_info::{
    after_failure, after_notice, after_success, is_fresh, opt_info, unpolled, CacheError, Info,
    ServerState, ServerStateView,
};
use vstd::prelude::*;

verus! {

/// No two servers share a name.
spec fn distinct(servers: Seq<ServerState>) -> bool {
    forall|i: int, j: int|
        0 <= i < j < servers.len() ==> servers[i].name() != servers[j].name()
}

/// `i` is a place where `name` is registered.
spec fn is_at(servers: Seq<ServerState>, name: Seq<char>, i: int) -> bool {
    0 <= i < servers.len() && servers[i].name() == name
}

/// Some server is registered under `name`.
spec fn holds(servers: Seq<ServerState>, name: Seq<char>) -> bool {
    exists|i: int| is_at(servers, name, i)
}

/// The place where `name` is registered.
spec fn position(servers: Seq<ServerState>, name: Seq<char>) -> int {
    choose|i: int| is_at(servers, name, i)
}

/// The servers as a map from name to state.
spec fn model(servers: Seq<ServerState>) -> Map<Seq<char>, ServerStateView> {
    Map::new(|n: Seq<char>| holds(servers, n), |n: Seq<char>| servers[position(servers, n)]@)
}

/// With distinct names, the server at a place is the one its name leads to.
proof fn lemma_lookup(servers: Seq<ServerState>, k: int)
    requires
        distinct(servers),
        0 <= k < servers.len(),
    ensures
        holds(servers, servers[k].name()),
        position(servers, servers[k].name()) == k,
        model(servers).dom().contains(servers[k].name()),
        model(servers)[servers[k].name()] == servers[k]@,
{
    assert(is_at(servers, servers[k].name(), k));
}

/// Changing the state at one place changes the map at that name only.
proof fn lemma_replace(before: Seq<ServerState>, after: Seq<ServerState>, k: int)
    requires
        distinct(before),
        0 <= k < before.len(),
        after.len() == before.len(),
        after[k].name() == before[k].name(),
        forall|i: int| 0 <= i < before.len() && i != k ==> after[i] == before[i],
    ensures
        distinct(after),
        model(after) == model(before).insert(before[k].name(), after[k]@),
{
    assert forall|i: int| 0 <= i < before.len() implies #[trigger] after[i].name()
        == before[i].name() by {}
    assert forall|n: Seq<char>| holds(after, n) == holds(before, n) by {
        if holds(before, n) {
            let i = position(before, n);
            assert(is_at(after, n, i));
        }
        if holds(after, n) {
            let i = position(after, n);
            assert(is_at(before, n, i));
        }
    }
    assert forall|n: Seq<char>| holds(after, n) implies #[trigger] model(after)[n] == model(
        before,
    ).insert(before[k].name(), after[k]@)[n] by {
        let i = position(after, n);
        assert(is_at(after, n, i));
        lemma_lookup(after, i);
        lemma_lookup(before, i);
    }
    assert(is_at(before, before[k].name(), k));
    assert(is_at(after, before[k].name(), k));
    assert(model(after).dom() =~= model(before).insert(before[k].name(), after[k]@).dom());
    assert(model(after) =~= model(before).insert(before[k].name(), after[k]@));
}

/// Adding a server under a new name adds that name to the map.
proof fn lemma_push(before: Seq<ServerState>, added: ServerState)
    requires
        distinct(before),
        !holds(before, added.name()),
    ensures
        distinct(before.push(added)),
        model(before.push(added)) == model(before).insert(added.name(), added@),
{
    let after = before.push(added);
    assert forall|i: int, j: int| 0 <= i < j < after.len() implies after[i].name()
        != after[j].name() by {
        if j == before.len() {
            assert(!is_at(before, added.name(), i));
        }
    }
    assert forall|n: Seq<char>| holds(after, n) == (holds(before, n) || n == added.name()) by {
        if holds(before, n) {
            assert(is_at(after, n, position(before, n)));
        }
        if n == added.name() {
            assert(is_at(after, n, before.len() as int));
        }
        if holds(after, n) {
            let i = position(after, n);
            if i < before.len() {
                assert(is_at(before, n, i));
            }
        }
    }
    assert forall|n: Seq<char>| holds(after, n) implies #[trigger] model(after)[n] == model(
        before,
    ).insert(added.name(), added@)[n] by {
        let i = position(after, n);
        assert(is_at(after, n, i));
        lemma_lookup(after, i);
        if i < before.len() {
            assert(is_at(before, n, i));
            lemma_lookup(before, i);
        }
    }
    assert(model(after) =~= model(before).insert(added.name(), added@));
}

/// Taking a server out takes its name out of the map.
proof fn lemma_remove(before: Seq<ServerState>, k: int)
    requires
        distinct(before),
        0 <= k < before.len(),
    ensures
        distinct(before.remove(k)),
        model(before.remove(k)) == model(before).remove(before[k].name()),
{
    let after = before.remove(k);
    let gone = before[k].name();
    assert forall|i: int| 0 <= i < after.len() implies #[trigger] after[i] == before[if i < k {
        i
    } else {
        i + 1
    }] by {}
    assert forall|n: Seq<char>| holds(after, n) == (holds(before, n) && n != gone) by {
        if holds(before, n) && n != gone {
            let i = position(before, n);
            assert(is_at(before, n, i));
            assert(is_at(after, n, if i < k {
                i
            } else {
                i - 1
            }));
        }
        if holds(after, n) {
            let i = position(after, n);
            assert(is_at(after, n, i));
            let j = if i < k {
                i
            } else {
                i + 1
            };
            assert(is_at(before, n, j));
        }
    }
    assert forall|n: Seq<char>| holds(after, n) implies #[trigger] model(after)[n] == model(
        before,
    )[n] by {
        let i = position(after, n);
        assert(is_at(after, n, i));
        lemma_lookup(after, i);
        let j = if i < k {
            i
        } else {
            i + 1
        };
        lemma_lookup(before, j);
    }
    assert(model(after) =~= model(before).remove(gone));
}

/// The records and map states of the registered servers.
#[derive(Debug)]
pub struct PollCache {
    servers: Vec<ServerState>,
}

impl View for PollCache {
    type V = Map<Seq<char>, ServerStateView>;

    closed spec fn view(&self) -> Map<Seq<char>, ServerStateView> {
        model(self.servers@)
    }
}

impl PollCache {
    #[verifier::type_invariant]
    spec fn names_distinct(self) -> bool {
        distinct(self.servers@)
    }

    /// A cache with no server registered.
    pub fn new() -> (cache: Self)
        ensures
            cache@ == Map::<Seq<char>, ServerStateView>::empty(),
    {
        let cache = PollCache { servers: Vec::new() };
        proof {
            assert forall|n: Seq<char>| !holds(cache.servers@, n) by {
                assert forall|i: int| !is_at(cache.servers@, n, i) by {}
            }
            assert(cache@ =~= Map::<Seq<char>, ServerStateView>::empty());
        }
        cache
    }

    /// Moves the servers out and leaves none behind.
    fn take_servers(&mut self) -> (servers: Vec<ServerState>)
        ensures
            servers@ == old(self).servers@,
            final(self).servers@.len() == 0,
    {
        let mut servers: Vec<ServerState> = Vec::new();
        core::mem::swap(&mut self.servers, &mut servers);
        servers
    }

    /// The place of `name`, where it is registered.
    fn find(&self, name: &str) -> (found: Option<usize>)
        ensures
            match found {
                Some(i) => is_at(self.servers@, name@, i as int),
                None => !holds(self.servers@, name@),
            },
            found is Some <==> self@.dom().contains(name@),
    {
        let mut i: usize = 0;
        while i < self.servers.len()
            invariant
                i <= self.servers@.len(),
                forall|j: int| 0 <= j < i ==> !is_at(self.servers@, name@, j),
            decreases self.servers@.len() - i,
        {
            if self.servers[i].is_named(name) {
                proof {
                    assert(is_at(self.servers@, name@, i as int));
                    assert(holds(self.servers@, name@));
                    assert(self@.dom().contains(name@));
                }
                return Some(i);
            }
            i = i + 1;
        }
        proof {
            assert forall|j: int| !is_at(self.servers@, name@, j) by {}
        }
        None
    }

    /// Whether a server is registered under `name`.
    pub fn is_registered(&self, name: &str) -> (known: bool)
        ensures
            known == self@.dom().contains(name@),
    {
        self.find(name).is_some()
    }

    /// Registers a server under `name`. A server already registered under it
    /// keeps its record and its map state.
    pub fn register(&mut self, name: &str)
        ensures
            old(self)@.dom().contains(name@) ==> final(self)@ == old(self)@,
            !old(self)@.dom().contains(name@) ==> final(self)@ == old(self)@.insert(
                name@,
                unpolled(),
            ),
    {
        proof {
            use_type_invariant(&*self);
        }
        if self.find(name).is_none() {
            let added = ServerState::new(name);
            proof {
                lemma_push(self.servers@, added);
            }
            let mut servers = self.take_servers();
            servers.push(added);
            self.servers = servers;
        }
    }

    /// Drops the server registered under `name`, with its record and its map
    /// state. Nothing changes where there is none.
    pub fn deregister(&mut self, name: &str)
        ensures
            final(self)@ == old(self)@.remove(name@),
    {
        proof {
            use_type_invariant(&*self);
        }
        match self.find(name) {
            Some(i) => {
                proof {
                    lemma_remove(self.servers@, i as int);
                }
                let mut servers = self.take_servers();
                servers.remove(i);
                self.servers = servers;
            },
            None => {
                assert(self@ =~= self@.remove(name@));
            },
        }
    }

    /// The record held for `name`, absent before the first poll.
    pub fn get(&self, name: &str) -> (res: Result<&Option<Info>, CacheError>)
        ensures
            match res {
                Ok(info) => self@.dom().contains(name@) && opt_info(*info) == self@[name@].info,
                Err(e) => !self@.dom().contains(name@) && e == CacheError::UnknownServer,
            },
    {
        proof {
            use_type_invariant(self);
        }
        match self.find(name) {
            Some(i) => {
                proof {
                    lemma_lookup(self.servers@, i as int);
                }
                Ok(self.servers[i].info())
            },
            None => Err(CacheError::UnknownServer),
        }
    }

    /// Whether the record held for `name` has to be refreshed by a poll at
    /// `now`: it is absent, down, or up and no longer fresh.
    pub fn poll_due(&self, name: &str, now: u128) -> (res: Result<bool, CacheError>)
        ensures
            match res {
                Ok(due) => self@.dom().contains(name@) && due == !is_fresh(
                    self@[name@].info,
                    now,
                ),
                Err(e) => !self@.dom().contains(name@) && e == CacheError::UnknownServer,
            },
    {
        proof {
            use_type_invariant(self);
        }
        match self.find(name) {
            Some(i) => {
                proof {
                    lemma_lookup(self.servers@, i as int);
                }
                Ok(self.servers[i].poll_due(now))
            },
            None => Err(CacheError::UnknownServer),
        }
    }

    /// Takes in the outcome of a successful poll of `name` at `now`: the map
    /// state follows the snapshot's map, and the record becomes `ServerUp`.
    pub fn store_success(
        &mut self,
        name: &str,
        server_info: ServerInfo,
        players: Players,
        now: u128,
    ) -> (res: Result<(), CacheError>)
        ensures
            old(self)@.dom().contains(name@) ==> res is Ok && final(self)@ == old(self)@.insert(
                name@,
                after_success(old(self)@[name@], server_info@, players@, now),
            ),
            !old(self)@.dom().contains(name@) ==> res == Err::<(), CacheError>(
                CacheError::UnknownServer,
            ) && final(self)@ == old(self)@,
    {
        proof {
            use_type_invariant(&*self);
        }
        match self.find(name) {
            Some(i) => {
                let ghost before = self.servers@;
                proof {
                    lemma_lookup(before, i as int);
                }
                let mut servers = self.take_servers();
                let mut state = servers.remove(i);
                state.store_success(server_info, players, now);
                servers.insert(i, state);
                proof {
                    lemma_replace(before, servers@, i as int);
                }
                self.servers = servers;
                Ok(())
            },
            None => Err(CacheError::UnknownServer),
        }
    }

    /// Takes in a failed poll of `name` at `now`: an outage on record stays
    /// as it is, otherwise one begins at `now`.
    pub fn store_failure(&mut self, name: &str, now: u128) -> (res: Result<(), CacheError>)
        ensures
            old(self)@.dom().contains(name@) ==> res is Ok && final(self)@ == old(self)@.insert(
                name@,
                after_failure(old(self)@[name@], now),
            ),
            !old(self)@.dom().contains(name@) ==> res == Err::<(), CacheError>(
                CacheError::UnknownServer,
            ) && final(self)@ == old(self)@,
    {
        proof {
            use_type_invariant(&*self);
        }
        match self.find(name) {
            Some(i) => {
                let ghost before = self.servers@;
                proof {
                    lemma_lookup(before, i as int);
                }
                let mut servers = self.take_servers();
                let mut state = servers.remove(i);
                state.store_failure(now);
                servers.insert(i, state);
                proof {
                    lemma_replace(before, servers@, i as int);
                }
                self.servers = servers;
                Ok(())
            },
            None => Err(CacheError::UnknownServer),
        }
    }

    /// Notes that the outage on record for `name`, if any, has been
    /// announced. A record that is up or absent stays as it is.
    pub fn mark_notified(&mut self, name: &str) -> (res: Result<(), CacheError>)
        ensures
            old(self)@.dom().contains(name@) ==> res is Ok && final(self)@ == old(self)@.insert(
                name@,
                after_notice(old(self)@[name@]),
            ),
            !old(self)@.dom().contains(name@) ==> res == Err::<(), CacheError>(
                CacheError::UnknownServer,
            ) && final(self)@ == old(self)@,
    {
        proof {
            use_type_invariant(&*self);
        }
        match self.find(name) {
            Some(i) => {
                let ghost before = self.servers@;
                proof {
                    lemma_lookup(before, i as int);
                }
                let mut servers = self.take_servers();
                let mut state = servers.remove(i);
                state.mark_notified();
                servers.insert(i, state);
                proof {
                    lemma_replace(before, servers@, i as int);
                }
                self.servers = servers;
                Ok(())
            },
            None => Err(CacheError::UnknownServer),
        }
    }
}

} // verus!
