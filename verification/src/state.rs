//! The state that the commands share.

use vstd::prelude::*;
use crate::api::client::ValorantAPI;
use crate::loadout::{no_loadouts, LoadoutCache, LoadoutModel};
use crate::party::cache::SessionCache;
use crate::party::model::{empty_cache, in_match, phase_applied, Phase};

verus! {

/// The session, the agent to lock automatically, and the caches of the match in progress.
pub struct AppState {
    pub api: ValorantAPI,
    pub auto_lock_agent: Option<String>,
    pub parties: SessionCache,
    pub loadouts: LoadoutCache,
}

/// The cache of weapon skins after a poll found `phase`: kept in a match, emptied by
/// every poll that finds none.
pub open spec fn loadouts_after(cache: LoadoutModel, phase: Phase) -> LoadoutModel {
    if in_match(phase) {
        cache
    } else {
        no_loadouts()
    }
}

impl AppState {
    /// The state at start: a session that is not set up, with no player, region, shard,
    /// local credentials or remote headers; no agent to lock; empty caches.
    pub fn new() -> (state: Self)
        ensures
            state.api.puuid@.len() == 0,
            state.api.region@.len() == 0,
            state.api.shard@.len() == 0,
            state.api.local_port@.len() == 0,
            state.api.local_auth@.len() == 0,
            state.api.remote_headers@ == Map::<Seq<char>, Seq<char>>::empty(),
            !state.api.connected,
            state.auto_lock_agent is None,
            state.parties@ == empty_cache(),
            state.loadouts@ == no_loadouts(),
    {
        AppState {
            api: ValorantAPI::new(),
            auto_lock_agent: None,
            parties: SessionCache::new(),
            loadouts: LoadoutCache::new(),
        }
    }

    /// Tells the caches which phase a poll found: they persist through agent selection
    /// and the running match, and are emptied by every poll that finds no match.
    pub fn notify_phase(&mut self, phase: Phase)
        ensures
            final(self).parties@ == phase_applied(old(self).parties@, phase),
            final(self).loadouts@ == loadouts_after(old(self).loadouts@, phase),
            final(self).api == old(self).api,
            final(self).auto_lock_agent == old(self).auto_lock_agent,
    {
        self.parties.notify_phase(phase);
        match phase {
            Phase::Pregame | Phase::InGame => {},
            Phase::Idle | Phase::Disconnected => {
                self.loadouts.clear();
            },
        }
    }
}

} // verus!
