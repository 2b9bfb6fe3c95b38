//! The liveness record of a server and the rules by which a poll changes it.
//!
//! A record is `ServerUp` with the snapshot of the last successful poll, or
//! `ServerDown` with the start of the outage. A record that is up and younger
//! than the freshness window is served as it is; otherwise the caller polls
//! and reports the outcome, which becomes the new record.

use crate::info::{ServerInfo, ServerInfoView};
use crate::map_data::{first_seen, spec_image, MapData, MapDataView};
use crate::players::{PlayerView, Players};
use crate::text::{opt_text, same_text};
use vstd::prelude::*;
use vstd::string::StringExecFns;

verus! {

/// Age in nanoseconds from which a snapshot is stale: five seconds.
pub const FRESHNESS_NANOS: u128 = 5_000_000_000;

/// A server that answered its last poll.
#[derive(Debug, Clone)]
pub struct ServerUp {
    pub server_info: ServerInfo,
    pub players: Players,
    /// When the snapshot was taken.
    pub timestamp: u128,
    /// Nanoseconds since the map last changed, as of the poll.
    pub elapsed: u128,
    pub image: Option<String>,
}

/// What a [`ServerUp`] holds.
pub struct ServerUpView {
    pub server_info: ServerInfoView,
    pub players: Seq<PlayerView>,
    pub timestamp: u128,
    pub elapsed: u128,
    pub image: Option<Seq<char>>,
}

impl View for ServerUp {
    type V = ServerUpView;

    open spec fn view(&self) -> ServerUpView {
        ServerUpView {
            server_info: self.server_info@,
            players: self.players@,
            timestamp: self.timestamp,
            elapsed: self.elapsed,
            image: opt_text(self.image),
        }
    }
}

/// A server that failed its last poll.
#[derive(Debug, Clone, Copy, PartialEq, Eq, Structural)]
pub struct ServerDown {
    /// When the outage was first seen.
    pub since: u128,
    /// Whether the outage has been announced.
    pub ping_sent: bool,
}

/// The liveness record of a server.
#[derive(Debug, Clone)]
pub enum Info {
    ServerUp(ServerUp),
    ServerDown(ServerDown),
}

/// What an [`Info`] holds.
pub enum InfoView {
    ServerUp(ServerUpView),
    ServerDown(ServerDown),
}

impl View for Info {
    type V = InfoView;

    open spec fn view(&self) -> InfoView {
        match self {
            Info::ServerUp(up) => InfoView::ServerUp(up@),
            Info::ServerDown(down) => InfoView::ServerDown(*down),
        }
    }
}

/// The view of an optional record.
pub open spec fn opt_info(info: Option<Info>) -> Option<InfoView> {
    match info {
        Some(i) => Some(i@),
        None => None,
    }
}

/// The view of an optional map state.
pub open spec fn opt_map(map: Option<MapData>) -> Option<MapDataView> {
    match map {
        Some(m) => Some(m@),
        None => None,
    }
}

/// All that is kept for one server: its record and its map state, each
/// absent until the first poll that sets it.
pub struct ServerStateView {
    pub info: Option<InfoView>,
    pub map: Option<MapDataView>,
}

/// The state of a server that has not been polled yet.
pub open spec fn unpolled() -> ServerStateView {
    ServerStateView { info: None, map: None }
}

/// Whether a record can be served at `now` without a poll: it is up and less
/// than the freshness window old.
pub open spec fn is_fresh(info: Option<InfoView>, now: u128) -> bool {
    info matches Some(InfoView::ServerUp(up)) && now < up.timestamp + FRESHNESS_NANOS
}

/// The map state after a snapshot on map `seen` at `now`: unchanged where
/// the map is the one on record, begun anew where it is not.
pub open spec fn map_after(map: Option<MapDataView>, seen: Seq<char>, now: u128) -> MapDataView {
    match map {
        Some(m) => if m.map == seen {
            m
        } else {
            first_seen(seen, now)
        },
        None => first_seen(seen, now),
    }
}

/// Nanoseconds from `time` to `now`; zero where `now` is the earlier.
pub open spec fn elapsed_since(time: u128, now: u128) -> u128 {
    if now >= time {
        (now - time) as u128
    } else {
        0
    }
}

/// The state after a poll at `now` that decoded `info` and `players`.
pub open spec fn after_success(
    state: ServerStateView,
    info: ServerInfoView,
    players: Seq<PlayerView>,
    now: u128,
) -> ServerStateView {
    let map = map_after(state.map, info.map, now);
    ServerStateView {
        info: Some(
            InfoView::ServerUp(
                ServerUpView {
                    server_info: info,
                    players,
                    timestamp: now,
                    elapsed: elapsed_since(map.time, now),
                    image: map.image,
                },
            ),
        ),
        map: Some(map),
    }
}

/// The state after a poll at `now` that failed: an outage already on record
/// stays as it is, otherwise one begins at `now`, not yet announced.
pub open spec fn after_failure(state: ServerStateView, now: u128) -> ServerStateView {
    ServerStateView {
        info: Some(
            match state.info {
                Some(InfoView::ServerDown(down)) => InfoView::ServerDown(down),
                _ => InfoView::ServerDown(ServerDown { since: now, ping_sent: false }),
            },
        ),
        map: state.map,
    }
}

/// The state after the outage on record, if any, has been announced.
pub open spec fn after_notice(state: ServerStateView) -> ServerStateView {
    ServerStateView {
        info: match state.info {
            Some(InfoView::ServerDown(down)) => Some(
                InfoView::ServerDown(ServerDown { since: down.since, ping_sent: true }),
            ),
            other => other,
        },
        map: state.map,
    }
}

/// Within the freshness window after a successful poll no poll is due, so
/// every lookup in that window is served the record of that poll, with its
/// timestamp.
pub proof fn lemma_fresh_within_window(
    state: ServerStateView,
    info: ServerInfoView,
    players: Seq<PlayerView>,
    polled: u128,
    now: u128,
)
    requires
        now < polled + FRESHNESS_NANOS,
    ensures
        is_fresh(after_success(state, info, players, polled).info, now),
        after_success(state, info, players, polled).info matches Some(InfoView::ServerUp(up))
            && up.timestamp == polled,
{
}

/// Once the freshness window after a successful poll has elapsed, a poll is
/// due. Before the first poll, and while the server is down, one is always
/// due.
pub proof fn lemma_stale_after_window(
    state: ServerStateView,
    info: ServerInfoView,
    players: Seq<PlayerView>,
    polled: u128,
    now: u128,
)
    ensures
        now >= polled + FRESHNESS_NANOS ==> !is_fresh(
            after_success(state, info, players, polled).info,
            now,
        ),
        !is_fresh(unpolled().info, now),
        !is_fresh(after_failure(state, polled).info, now),
{
}

/// A failed poll of a server that was up, or not polled yet, begins an
/// outage at the time of the poll, not yet announced. A further failed poll
/// leaves that record as it is.
pub proof fn lemma_down_transition(state: ServerStateView, first: u128, second: u128)
    requires
        !(state.info matches Some(InfoView::ServerDown(_))),
    ensures
        after_failure(state, first).info == Some(
            InfoView::ServerDown(ServerDown { since: first, ping_sent: false }),
        ),
        after_failure(after_failure(state, first), second) == after_failure(state, first),
{
}

/// Whatever the record was, a failed poll leaves the server down: a response
/// that cannot be decoded counts as no response.
pub proof fn lemma_failure_gives_down(state: ServerStateView, now: u128)
    ensures
        after_failure(state, now).info matches Some(InfoView::ServerDown(_)),
        after_failure(state, now).map == state.map,
{
}

/// A snapshot on another map than the one on record restarts the map state
/// at the time of the poll; the picture is the one that map and time select.
/// A snapshot on the same map leaves the map state as it is.
pub proof fn lemma_map_change(
    state: ServerStateView,
    first: ServerInfoView,
    second: ServerInfoView,
    players: Seq<PlayerView>,
    t1: u128,
    t2: u128,
)
    ensures
        first.map != second.map ==> after_success(
            after_success(state, first, players, t1),
            second,
            players,
            t2,
        ).map == Some(
            MapDataView { map: second.map, time: t2, image: spec_image(second.map, t2) },
        ),
        first.map == second.map ==> after_success(
            after_success(state, first, players, t1),
            second,
            players,
            t2,
        ).map == after_success(state, first, players, t1).map,
{
}

/// Why the cache could not serve a name.
#[derive(Debug, Clone, Copy, PartialEq, Eq, Structural)]
pub enum CacheError {
    /// No server is registered under the name.
    UnknownServer,
}

/// One registered server.
#[derive(Debug, Clone)]
pub struct ServerState {
    name: String,
    info: Option<Info>,
    map: Option<MapData>,
}

impl View for ServerState {
    type V = ServerStateView;

    closed spec fn view(&self) -> ServerStateView {
        ServerStateView { info: opt_info(self.info), map: opt_map(self.map) }
    }
}

impl ServerState {
    /// A server under `name` that has not been polled yet.
    pub fn new(name: &str) -> (state: Self)
        ensures
            state.name() == name@,
            state@ == unpolled(),
    {
        ServerState { name: String::from_str(name), info: None, map: None }
    }

    /// The name the server is registered under.
    pub closed spec fn name(&self) -> Seq<char> {
        self.name@
    }

    /// Whether the server is registered under `name`.
    pub fn is_named(&self, name: &str) -> (same: bool)
        ensures
            same == (self.name() == name@),
    {
        same_text(self.name.as_str(), name)
    }

    /// The record of the server, absent before its first poll.
    pub fn info(&self) -> (info: &Option<Info>)
        ensures
            opt_info(*info) == self@.info,
    {
        &self.info
    }

    /// The map state of the server, absent before its first successful poll.
    pub fn map_data(&self) -> (map: &Option<MapData>)
        ensures
            opt_map(*map) == self@.map,
    {
        &self.map
    }

    /// Whether a poll is due at `now`: the record is absent, down, or not
    /// fresh any more.
    pub fn poll_due(&self, now: u128) -> (due: bool)
        ensures
            due == !is_fresh(self@.info, now),
    {
        match &self.info {
            Some(Info::ServerUp(up)) => now >= up.timestamp && now - up.timestamp
                >= FRESHNESS_NANOS,
            _ => true,
        }
    }

    /// Takes in the outcome of a successful poll at `now`.
    pub fn store_success(&mut self, server_info: ServerInfo, players: Players, now: u128)
        ensures
            final(self).name() == old(self).name(),
            final(self)@ == after_success(old(self)@, server_info@, players@, now),
    {
        let changed = match &self.map {
            Some(m) => !same_text(m.map(), server_info.map.as_str()),
            None => true,
        };
        if changed {
            self.map = Some(MapData::new(server_info.map.as_str(), now));
        }
        let (time, image) = match &self.map {
            Some(m) => (
                m.time(),
                match m.image() {
                    Some(s) => Some(s.clone()),
                    None => None,
                },
            ),
            None => (now, None),
        };
        let elapsed: u128 = if now >= time {
            now - time
        } else {
            0
        };
        self.info = Some(
            Info::ServerUp(ServerUp { server_info, players, timestamp: now, elapsed, image }),
        );
    }

    /// Takes in a failed poll at `now`.
    pub fn store_failure(&mut self, now: u128)
        ensures
            final(self).name() == old(self).name(),
            final(self)@ == after_failure(old(self)@, now),
    {
        let ongoing = match &self.info {
            Some(Info::ServerDown(_)) => true,
            _ => false,
        };
        if !ongoing {
            self.info = Some(Info::ServerDown(ServerDown { since: now, ping_sent: false }));
        }
    }

    /// Notes that the outage on record, if any, has been announced.
    pub fn mark_notified(&mut self)
        ensures
            final(self).name() == old(self).name(),
            final(self)@ == after_notice(old(self)@),
    {
        let since = match &self.info {
            Some(Info::ServerDown(down)) => Some(down.since),
            _ => None,
        };
        match since {
            Some(since) => {
                self.info = Some(Info::ServerDown(ServerDown { since, ping_sent: true }));
            },
            None => {},
        }
    }
}

} // verus!
