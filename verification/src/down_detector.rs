//! The liveness monitor's rule: when an outage is announced.
//!
//! An outage is announced once, on the first check at which it has lasted
//! longer than the alert threshold. The caller sends the announcement and
//! then marks the record; a marked outage is not announced again, and an
//! outage that ends before the threshold is never announced.

use crate::poll_cache::PollCache;
use crate::server_info::{
    after_failure, after_notice, after_success, CacheError, Info, InfoView, ServerDown,
    ServerStateView,
};
use crate::info::ServerInfoView;
use crate::players::PlayerView;
use vstd::prelude::*;

verus! {

/// Nanoseconds an outage has to exceed before it is announced: a minute.
pub const DOWN_ALERT_NANOS: u128 = 60_000_000_000;

/// Seconds between two checks of the monitor.
pub const CHECK_INTERVAL_SECS: u64 = 30;

/// Whether a check at `now` announces the record: it is down, not announced
/// yet, and has been down for longer than the threshold.
pub open spec fn alert_due(info: Option<InfoView>, now: u128) -> bool {
    info matches Some(InfoView::ServerDown(down)) && !down.ping_sent && now > down.since
        + DOWN_ALERT_NANOS
}

/// The start of the outage to announce at `now`, if the record calls for an
/// announcement.
pub open spec fn spec_down_alert(info: Option<InfoView>, now: u128) -> Option<u128> {
    if alert_due(info, now) {
        Some(info->Some_0->ServerDown_0.since)
    } else {
        None
    }
}

/// Decides whether `record` is announced at `now`, and gives the start of
/// the outage if so.
pub fn down_alert(record: &Info, now: u128) -> (alert: Option<u128>)
    ensures
        alert == spec_down_alert(Some(record@), now),
{
    match record {
        Info::ServerDown(down) => {
            if !down.ping_sent && now > down.since && now - down.since > DOWN_ALERT_NANOS {
                Some(down.since)
            } else {
                None
            }
        },
        Info::ServerUp(_) => None,
    }
}

/// One check of the server registered under `name`: the start of the outage
/// to announce at `now`, or `None` where nothing is to be announced.
///
/// The cache is left as it is: once the announcement is out, the caller
/// marks the record with [`PollCache::mark_notified`].
pub fn down_detector(cache: &PollCache, name: &str, now: u128) -> (res: Result<
    Option<u128>,
    CacheError,
>)
    ensures
        match res {
            Ok(alert) => cache@.dom().contains(name@) && alert == spec_down_alert(
                cache@[name@].info,
                now,
            ),
            Err(e) => !cache@.dom().contains(name@) && e == CacheError::UnknownServer,
        },
{
    match cache.get(name)? {
        Some(record) => Ok(down_alert(record, now)),
        None => Ok(None),
    }
}

/// An outage is announced on the first check after it has lasted longer than
/// the threshold, and on no check after it has been marked: neither at once,
/// nor after any further failed poll.
pub proof fn lemma_alert_fires_once(
    state: ServerStateView,
    since: u128,
    first_check: u128,
    failed_poll: u128,
    later_check: u128,
)
    requires
        state.info == Some(InfoView::ServerDown(ServerDown { since, ping_sent: false })),
        first_check > since + DOWN_ALERT_NANOS,
    ensures
        spec_down_alert(state.info, first_check) == Some(since),
        !alert_due(after_notice(state).info, later_check),
        !alert_due(after_failure(after_notice(state), failed_poll).info, later_check),
{
}

/// An outage is not announced while it has lasted no longer than the
/// threshold.
pub proof fn lemma_no_alert_before_threshold(down: ServerDown, now: u128)
    requires
        now <= down.since + DOWN_ALERT_NANOS,
    ensures
        !alert_due(Some(InfoView::ServerDown(down)), now),
{
}

/// A successful poll ends an outage: the record is up, nothing is announced
/// for it at any later check, and a failure after it begins a new outage at
/// its own time, not yet announced.
pub proof fn lemma_recovery(
    state: ServerStateView,
    info: ServerInfoView,
    players: Seq<PlayerView>,
    recovered: u128,
    later_check: u128,
    failed_poll: u128,
)
    requires
        state.info matches Some(InfoView::ServerDown(_)),
    ensures
        after_success(state, info, players, recovered).info matches Some(InfoView::ServerUp(up))
            && up.timestamp == recovered && up.server_info == info && up.players == players,
        !alert_due(after_success(state, info, players, recovered).info, later_check),
        after_failure(after_success(state, info, players, recovered), failed_poll).info == Some(
            InfoView::ServerDown(ServerDown { since: failed_poll, ping_sent: false }),
        ),
{
}

} // verus!
