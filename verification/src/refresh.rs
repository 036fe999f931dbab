//! When a cached reading of the system (processors, processor usage,
//! mounts, process status) is served as it is and when it is read again.
use vstd::prelude::*;

verus! {

/// What a forced refresh does.
#[derive(Debug, Clone, Copy, PartialEq, Eq, Structural)]
pub enum ForceAction {
    /// Another refresh is under way: serve the cache and leave the
    /// in-progress mark as it is.
    ServeBusy,
    /// The last forced refresh was too recent and the cache holds a
    /// reading: serve the cache and clear the in-progress mark.
    ServeRecent,
    /// Read the system again, note the time of this refresh, then store
    /// the reading and clear the in-progress mark.
    Reread,
}

/// The shortest time between two forced refreshes, in milliseconds.
pub const MIN_FORCE_INTERVAL_MS: u64 = 50;

/// What a forced refresh does: where another one is under way (the
/// in-progress mark was already set when this one set it) the cache is
/// served; where the last forced refresh is less than 50 ms ago and the
/// cache is no longer the initial empty one, the cache is served; else the
/// system is read again.
pub fn force_action(already_processing: bool, since_last_force_ms: u64, cache_initial: bool) -> (r: ForceAction)
    ensures
        r == if already_processing {
            ForceAction::ServeBusy
        } else if since_last_force_ms < 50 && !cache_initial {
            ForceAction::ServeRecent
        } else {
            ForceAction::Reread
        },
{
    if already_processing {
        ForceAction::ServeBusy
    } else if since_last_force_ms < MIN_FORCE_INTERVAL_MS && !cache_initial {
        ForceAction::ServeRecent
    } else {
        ForceAction::Reread
    }
}

/// Whether a plain read of the cache reads the system again: where the
/// cache is still the initial empty one, or it is at least `max_age_ms`
/// old.
pub fn cache_expired(cache_initial: bool, age_ms: u64, max_age_ms: u64) -> (r: bool)
    ensures
        r == (cache_initial || age_ms >= max_age_ms),
{
    cache_initial || age_ms >= max_age_ms
}

/// The refresh of the mounts and of the labelled devices: a refresh is
/// skipped while one is under way, and the cache is served when it holds a
/// reading and is at least `min_age_ms` old.
pub fn mounts_action(already_refreshing: bool, cache_initial: bool, age_ms: u64, min_age_ms: u64) -> (r: ForceAction)
    ensures
        r == if already_refreshing {
            ForceAction::ServeBusy
        } else if !cache_initial && age_ms >= min_age_ms {
            ForceAction::ServeRecent
        } else {
            ForceAction::Reread
        },
{
    if already_refreshing {
        ForceAction::ServeBusy
    } else if !cache_initial && age_ms >= min_age_ms {
        ForceAction::ServeRecent
    } else {
        ForceAction::Reread
    }
}

} // verus!
