//! The collection of signals for one resolution, step by step.
//!
//! The lookups are done by the caller. What is decided here is which lookup comes
//! next, given the cache, the roster and what has been collected so far.

use vstd::prelude::*;
use crate::api::types::{MatchDetailsResponse, MatchPlayer};
use crate::dict::Dict;
use crate::party::cache::SessionCache;
use crate::party::model::{covers, needs_history, open_to, ActionModel, CacheModel, SignalsModel};
use crate::party::signals::{fast_evidence_in, OwnParty, Signals};
use crate::text::texts;

verus! {

/// How many recent matches a resolution looks into.
pub const HISTORY_DEPTH: usize = 2;

/// What has been collected for a resolution so far.
pub struct Collected {
    /// The answer of the own-party lookup, once it was made.
    pub own: Option<OwnParty>,
    /// The answer of the presence lookup, once it was made.
    pub presences: Option<Dict<String>>,
    /// The recent matches of the player they were asked for, once they were asked for.
    pub match_ids: Option<Vec<String>>,
    /// The players of the recent matches looked into so far, most recent match first.
    pub matches: Vec<Vec<MatchPlayer>>,
}

/// The next lookup of a resolution.
pub enum ResolveAction {
    /// Nothing more is to be looked up: resolve with what was collected.
    Finish,
    /// Look up the caller's own party.
    FetchOwnParty,
    /// Look up the presences.
    FetchPresences,
    /// Look up the `count` most recent matches of `player`.
    FetchMatchHistory { player: String, count: u32 },
    /// Look up the players of the match `match_id`.
    FetchMatchDetails { match_id: String },
}

impl View for ResolveAction {
    type V = ActionModel;

    open spec fn view(&self) -> ActionModel {
        match self {
            ResolveAction::Finish => ActionModel::Finish,
            ResolveAction::FetchOwnParty => ActionModel::FetchOwnParty,
            ResolveAction::FetchPresences => ActionModel::FetchPresences,
            ResolveAction::FetchMatchHistory { player, count } => ActionModel::FetchMatchHistory {
                player: player@,
                count: *count as nat,
            },
            ResolveAction::FetchMatchDetails { match_id } => ActionModel::FetchMatchDetails {
                match_id: match_id@,
            },
        }
    }
}

/// The map `m` with the value `v` for `k`, unless `k` has a value already.
pub open spec fn record_first(m: Map<Seq<char>, Seq<char>>, k: Seq<char>, v: Seq<char>) -> Map<
    Seq<char>,
    Seq<char>,
> {
    if m.contains_key(k) {
        m
    } else {
        m.insert(k, v)
    }
}

/// The map `m` after the first `n` players of a match were recorded in it, each with
/// the party it queued in, unless it was recorded before.
pub open spec fn match_parties(m: Map<Seq<char>, Seq<char>>, players: Seq<MatchPlayer>, n: nat)
    -> Map<Seq<char>, Seq<char>>
    decreases n,
{
    if n == 0 {
        m
    } else {
        record_first(
            match_parties(m, players, (n - 1) as nat),
            players[n - 1].subject@,
            players[n - 1].party_id@,
        )
    }
}

/// What the first `n` matches say: for each player the party of its first record.
pub open spec fn history_of(matches: Seq<Vec<MatchPlayer>>, n: nat) -> Map<Seq<char>, Seq<char>>
    decreases n,
{
    if n == 0 {
        Map::empty()
    } else {
        match_parties(history_of(matches, (n - 1) as nat), matches[n - 1]@, matches[n - 1]@.len())
    }
}

/// The signals that stand for what was collected: a lookup that was not made, or
/// failed, contributes nothing.
pub open spec fn signals_of(c: Collected) -> SignalsModel {
    SignalsModel {
        own_group: match c.own {
            Some(own) => match own.group {
                Some(g) => Some(g@),
                None => None,
            },
            None => None,
        },
        own_members: match c.own {
            Some(own) => texts(own.members@),
            None => Seq::empty(),
        },
        presences: match c.presences {
            Some(presences) => presences@,
            None => Map::empty(),
        },
        history: history_of(c.matches@, c.matches@.len()),
    }
}

/// Whether signals may still be collected for some player of the roster.
pub open spec fn anyone_open(st: CacheModel, roster: Seq<Seq<char>>) -> bool {
    exists|i: int| 0 <= i < roster.len() && open_to(st, #[trigger] roster[i])
}

/// Whether the match history is wanted for some player of the roster.
pub open spec fn history_wanted(st: CacheModel, sig: SignalsModel, roster: Seq<Seq<char>>) -> bool {
    exists|i: int| 0 <= i < roster.len() && needs_history(st, sig, #[trigger] roster[i])
}

/// Whether `i` is the position of the first player of the roster for whom the match
/// history is wanted.
pub open spec fn is_history_target(
    st: CacheModel,
    sig: SignalsModel,
    roster: Seq<Seq<char>>,
    i: int,
) -> bool {
    &&& 0 <= i < roster.len()
    &&& needs_history(st, sig, roster[i])
    &&& forall|j: int| 0 <= j < i ==> !needs_history(st, sig, #[trigger] roster[j])
}

/// The player whose recent matches are asked for: the first of the roster for whom the
/// match history is wanted.
pub open spec fn history_target(st: CacheModel, sig: SignalsModel, roster: Seq<Seq<char>>) -> Seq<
    char,
> {
    roster[choose|i: int| is_history_target(st, sig, roster, i)]
}

/// The next lookup.
///
/// None is made where the cache covers the roster or signals may be collected for none
/// of its players. Else the own party and the presences come first. The match history
/// follows only where it is wanted for some player: the recent matches of the first
/// such player are asked for, and then their players, match by match, for at most
/// `HISTORY_DEPTH` matches.
pub open spec fn next_action(st: CacheModel, roster: Seq<Seq<char>>, c: Collected) -> ActionModel {
    if covers(st, roster) || !anyone_open(st, roster) {
        ActionModel::Finish
    } else if c.own is None {
        ActionModel::FetchOwnParty
    } else if c.presences is None {
        ActionModel::FetchPresences
    } else if !history_wanted(st, signals_of(c), roster) {
        ActionModel::Finish
    } else if c.match_ids is None {
        ActionModel::FetchMatchHistory {
            player: history_target(st, signals_of(c), roster),
            count: HISTORY_DEPTH as nat,
        }
    } else if c.matches@.len() < HISTORY_DEPTH && c.matches@.len() < c.match_ids->0@.len() {
        ActionModel::FetchMatchDetails { match_id: c.match_ids->0@[c.matches@.len() as int]@ }
    } else {
        ActionModel::Finish
    }
}

/// The first player for whom the match history is wanted is the one that
/// `history_target` names.
pub proof fn lemma_history_target(st: CacheModel, sig: SignalsModel, roster: Seq<Seq<char>>, i: int)
    requires
        is_history_target(st, sig, roster, i),
    ensures
        history_wanted(st, sig, roster),
        history_target(st, sig, roster) == roster[i],
{
    assert(needs_history(st, sig, roster[i]));
    let f = choose|f: int| is_history_target(st, sig, roster, f);
    if f < i {
        assert(!needs_history(st, sig, roster[f]));
    } else if i < f {
        assert(!needs_history(st, sig, roster[i]));
    }
}

/// The players of a finished match, none where the record is missing.
pub fn match_players(details: Option<MatchDetailsResponse>) -> (players: Vec<MatchPlayer>)
    ensures
        players@ == match details {
            Some(d) => match d.players {
                Some(ps) => ps@,
                None => Seq::empty(),
            },
            None => Seq::empty(),
        },
{
    match details {
        Some(d) => match d.players {
            Some(ps) => ps,
            None => Vec::new(),
        },
        None => Vec::new(),
    }
}

/// The party of each player of the recent matches: the first record of a player
/// decides, so that the most recent match wins.
pub fn match_history_parties(matches: &Vec<Vec<MatchPlayer>>) -> (history: Dict<String>)
    ensures
        history@ == history_of(matches@, matches@.len()),
{
    let mut history: Dict<String> = Dict::new();
    let mut i: usize = 0;
    while i < matches.len()
        invariant
            i <= matches@.len(),
            history@ == history_of(matches@, i as nat),
        decreases matches@.len() - i,
    {
        let players = &matches[i];
        let ghost base = history@;
        let mut j: usize = 0;
        while j < players.len()
            invariant
                j <= players@.len(),
                history@ == match_parties(base, players@, j as nat),
            decreases players@.len() - j,
        {
            let player = &players[j];
            if !history.contains_key(&player.subject) {
                history.insert(player.subject.clone(), player.party_id.clone());
            }
            j += 1;
        }
        i += 1;
    }
    history
}

impl Collected {
    /// Nothing collected yet.
    pub fn new() -> (c: Self)
        ensures
            c.own is None,
            c.presences is None,
            c.match_ids is None,
            c.matches@.len() == 0,
    {
        Collected { own: None, presences: None, match_ids: None, matches: Vec::new() }
    }

    /// The signals that stand for what was collected.
    pub fn into_signals(self) -> (sig: Signals)
        ensures
            sig@ == signals_of(self),
    {
        let history = match_history_parties(&self.matches);
        let own = match self.own {
            Some(own) => own,
            None => OwnParty::none(),
        };
        let presences = match self.presences {
            Some(presences) => presences,
            None => Dict::new(),
        };
        let sig = Signals { own, presences, history };
        assert(sig@.own_members =~= signals_of(self).own_members);
        assert(sig@ =~= signals_of(self));
        sig
    }
}

impl SessionCache {
    /// The next lookup of a resolution of `roster`, given what was collected so far.
    pub fn next_action(&self, roster: &Vec<String>, collected: &Collected) -> (action:
        ResolveAction)
        ensures
            action@ == next_action(self@, texts(roster@), *collected),
    {
        let ghost st = self@;
        let ghost r = texts(roster@);
        let ghost sig = signals_of(*collected);
        if self.covers(roster) {
            return ResolveAction::Finish;
        }
        let mut open: bool = false;
        let mut i: usize = 0;
        while i < roster.len()
            invariant
                i <= roster@.len(),
                st == self@,
                r == texts(roster@),
                !open ==> forall|j: int| 0 <= j < i ==> !open_to(st, #[trigger] r[j]),
                open ==> anyone_open(st, r),
            decreases roster@.len() - i,
        {
            if self.is_open(&roster[i]) {
                assert(open_to(st, r[i as int]));
                open = true;
            }
            i += 1;
        }
        if !open {
            return ResolveAction::Finish;
        }
        let own = match &collected.own {
            Some(own) => own,
            None => {
                return ResolveAction::FetchOwnParty;
            },
        };
        let presences = match &collected.presences {
            Some(presences) => presences,
            None => {
                return ResolveAction::FetchPresences;
            },
        };
        let mut target: Option<usize> = None;
        let mut k: usize = 0;
        while k < roster.len() && target.is_none()
            invariant
                k <= roster@.len(),
                st == self@,
                r == texts(roster@),
                sig == signals_of(*collected),
                collected.own == Some(*own),
                collected.presences == Some(*presences),
                forall|j: int|
                    0 <= j < (if target is Some { target->0 as int } else { k as int })
                        ==> !needs_history(st, sig, #[trigger] r[j]),
                target is Some ==> is_history_target(st, sig, r, target->0 as int),
            decreases roster@.len() - k + (if target is None { 1int } else { 0int }),
        {
            let p = &roster[k];
            assert(r[k as int] == p@);
            if self.is_open(p) && fast_evidence_in(own, presences, p).is_none() {
                target = Some(k);
            } else {
                k += 1;
            }
        }
        let at = match target {
            Some(at) => at,
            None => {
                return ResolveAction::Finish;
            },
        };
        proof {
            lemma_history_target(st, sig, r, at as int);
        }
        let ids = match &collected.match_ids {
            Some(ids) => ids,
            None => {
                return ResolveAction::FetchMatchHistory {
                    player: roster[at].clone(),
                    count: 2,
                };
            },
        };
        let seen = collected.matches.len();
        if seen < HISTORY_DEPTH && seen < ids.len() {
            ResolveAction::FetchMatchDetails { match_id: ids[seen].clone() }
        } else {
            ResolveAction::Finish
        }
    }
}

} // verus!
