//! What the commands of the presentation layer compute: the phase that a poll is in,
//! and the snapshot that it hands back.

use vstd::prelude::*;
use vstd::string::*;
use crate::api::types::{
    CoregameMatch, CoregamePlayerInfo, GameState, LoadoutsResponse, PlayerData, PlayerSkinData,
    PregameLoadoutsResponse, PregameMatch, PregamePlayerInfo, PregameTeam, WeaponSkin,
};
use crate::constants::{
    agent_table, agents, key_of, lookup, map_name_table, map_names, queue_name_table, queue_names,
    reverse_lookup, value_of,
};
use crate::dict::Dict;
use crate::loadout::{observed, with_coregame, with_pregame, LoadoutCache, LoadoutModel};
use crate::party::cache::{PartyAssignment, SessionCache};
use crate::party::collect::{signals_of, Collected};
use crate::party::label::{label_text, Label, PartyLabel};
use crate::party::model::{display, resolved, Phase};
use crate::state::AppState;
use crate::text::{lowercase_of, str_eq, texts, to_lowercase};

verus! {

/// One player of a snapshot, as a mathematical value.
pub struct PlayerModel {
    pub puuid: Seq<char>,
    pub name: Seq<char>,
    pub agent: Seq<char>,
    pub locked: bool,
    pub party: Seq<char>,
    pub is_me: bool,
    pub rank_tier: int,
    pub rank_rr: int,
    pub level: int,
}

/// A snapshot, as a mathematical value.
#[verifier::ext_equal]
pub struct SnapshotModel {
    pub state: Seq<char>,
    pub match_id: Option<Seq<char>>,
    pub map_name: Option<Seq<char>>,
    pub mode_name: Option<Seq<char>>,
    pub side: Option<Seq<char>>,
    pub allies: Seq<PlayerModel>,
    pub enemies: Seq<PlayerModel>,
}

impl View for PlayerData {
    type V = PlayerModel;

    open spec fn view(&self) -> PlayerModel {
        PlayerModel {
            puuid: self.puuid@,
            name: self.name@,
            agent: self.agent@,
            locked: self.locked,
            party: self.party@,
            is_me: self.is_me,
            rank_tier: self.rank_tier as int,
            rank_rr: self.rank_rr as int,
            level: self.level as int,
        }
    }
}

/// The text of an optional string.
pub open spec fn text_of(s: Option<String>) -> Option<Seq<char>> {
    match s {
        Some(s) => Some(s@),
        None => None,
    }
}

/// The players of a roster of a snapshot.
pub open spec fn players_of(players: Seq<PlayerData>) -> Seq<PlayerModel> {
    Seq::new(players.len(), |i: int| players[i]@)
}

impl View for GameState {
    type V = SnapshotModel;

    open spec fn view(&self) -> SnapshotModel {
        SnapshotModel {
            state: self.state@,
            match_id: text_of(self.match_id),
            map_name: text_of(self.map_name),
            mode_name: text_of(self.mode_name),
            side: text_of(self.side),
            allies: players_of(self.allies@),
            enemies: players_of(self.enemies@),
        }
    }
}

/// The name of the agent with the identifier `agent_id`, compared without regard to the
/// case of ASCII letters; empty for an identifier that no agent has.
pub open spec fn agent_name_of(agent_id: Seq<char>) -> Seq<char> {
    match key_of(agent_table(), agent_id) {
        Some(name) => name,
        None => Seq::empty(),
    }
}

/// The name of the agent with the identifier `agent_id`.
pub fn get_agent_name(agent_id: &str) -> (name: String)
    ensures
        name@ == agent_name_of(agent_id@),
{
    let table = agents();
    match reverse_lookup(&table, agent_id) {
        Some(name) => String::from_str(name),
        None => String::new(),
    }
}

/// The snapshot of a poll that found no match: only its phase is set.
pub open spec fn bare_snapshot(state: Seq<char>) -> SnapshotModel {
    SnapshotModel {
        state,
        match_id: None,
        map_name: None,
        mode_name: None,
        side: None,
        allies: Seq::empty(),
        enemies: Seq::empty(),
    }
}

fn bare_state(state: &str) -> (snapshot: GameState)
    ensures
        snapshot@ == bare_snapshot(state@),
{
    let snapshot = GameState {
        state: String::from_str(state),
        match_id: None,
        map_name: None,
        mode_name: None,
        side: None,
        allies: Vec::new(),
        enemies: Vec::new(),
    };
    assert(snapshot@ =~= bare_snapshot(state@));
    snapshot
}

/// The snapshot of a poll without a session.
pub fn disconnected_state() -> (snapshot: GameState)
    ensures
        snapshot@ == bare_snapshot("disconnected"@),
{
    bare_state("disconnected")
}

/// The snapshot of a poll with a session and no match.
pub fn idle_state() -> (snapshot: GameState)
    ensures
        snapshot@ == bare_snapshot("idle"@),
{
    bare_state("idle")
}

/// The name shown for a map: `Unknown` for a map that the table does not hold.
pub open spec fn map_name_of(map_id: Seq<char>) -> Seq<char> {
    match value_of(map_name_table(), map_id) {
        Some(name) => name,
        None => "Unknown"@,
    }
}

/// The name shown for a queue: its identifier for a queue that the table does not hold.
pub open spec fn mode_name_of(queue_id: Seq<char>) -> Seq<char> {
    match value_of(queue_name_table(), queue_id) {
        Some(name) => name,
        None => queue_id,
    }
}

/// The side shown for a team: attackers for the team `Red`, defenders for any other.
pub open spec fn side_of(team_id: Seq<char>) -> Seq<char> {
    if team_id == "Red"@ {
        "SALDIRAN"@
    } else {
        "SAVUNAN"@
    }
}

/// The name shown for a player: `Unknown` where the name service gave none.
pub open spec fn shown_name(names: Map<Seq<char>, Seq<char>>, puuid: Seq<char>) -> Seq<char> {
    if names.contains_key(puuid) {
        names[puuid]
    } else {
        "Unknown"@
    }
}

/// The party tag shown for a player: `Solo` for one that the assignment does not hold.
pub open spec fn shown_party(parties: Map<Seq<char>, Label>, puuid: Seq<char>) -> Seq<char> {
    if parties.contains_key(puuid) {
        label_text(parties[puuid])
    } else {
        label_text(Label::Solo)
    }
}

/// The name shown for a map.
pub fn map_name(map_id: &str) -> (name: String)
    ensures
        name@ == map_name_of(map_id@),
{
    let table = map_names();
    match lookup(&table, map_id) {
        Some(name) => String::from_str(name),
        None => String::from_str("Unknown"),
    }
}

/// The name shown for a queue.
pub fn mode_name(queue_id: &str) -> (name: String)
    ensures
        name@ == mode_name_of(queue_id@),
{
    let table = queue_names();
    match lookup(&table, queue_id) {
        Some(name) => String::from_str(name),
        None => String::from_str(queue_id),
    }
}

fn name_shown(names: &Dict<String>, puuid: &String) -> (name: String)
    ensures
        name@ == shown_name(names@, puuid@),
{
    match names.get(puuid) {
        Some(name) => name.clone(),
        None => String::from_str("Unknown"),
    }
}

fn party_shown(parties: &PartyAssignment, puuid: &String) -> (party: String)
    ensures
        party@ == shown_party(parties@, puuid@),
{
    match parties.get(puuid) {
        Some(label) => label.to_text(),
        None => PartyLabel::Solo.to_text(),
    }
}

/// The account level of a player: 0 where its card is hidden.
pub open spec fn level_of(identity: Option<crate::api::types::PlayerIdentity>) -> int {
    match identity {
        Some(card) => card.account_level as int,
        None => 0,
    }
}

/// The record shown for a player of a match in agent selection.
pub open spec fn pregame_player_of(
    p: PregamePlayerInfo,
    my_puuid: Seq<char>,
    names: Map<Seq<char>, Seq<char>>,
    parties: Map<Seq<char>, Label>,
) -> PlayerModel {
    PlayerModel {
        puuid: p.subject@,
        name: shown_name(names, p.subject@),
        agent: agent_name_of(p.character_id@),
        locked: p.character_selection_state@ == "locked"@,
        party: shown_party(parties, p.subject@),
        is_me: p.subject@ == my_puuid,
        rank_tier: p.competitive_tier as int,
        rank_rr: 0,
        level: level_of(p.player_identity),
    }
}

/// The rank of a player of a running match: 0 where its badge is hidden.
pub open spec fn badge_rank_of(badge: Option<crate::api::types::SeasonalBadgeInfo>) -> int {
    match badge {
        Some(b) => match b.rank {
            Some(rank) => rank as int,
            None => 0,
        },
        None => 0,
    }
}

/// The record shown for a player of a running match.
pub open spec fn ingame_player_of(
    p: CoregamePlayerInfo,
    my_puuid: Seq<char>,
    names: Map<Seq<char>, Seq<char>>,
    parties: Map<Seq<char>, Label>,
) -> PlayerModel {
    PlayerModel {
        puuid: p.subject@,
        name: shown_name(names, p.subject@),
        agent: agent_name_of(p.character_id@),
        locked: true,
        party: shown_party(parties, p.subject@),
        is_me: p.subject@ == my_puuid,
        rank_tier: badge_rank_of(p.seasonal_badge_info),
        rank_rr: 0,
        level: level_of(p.player_identity),
    }
}

/// The snapshot of a match in agent selection: the allied team alone, in the order of
/// the match record.
pub open spec fn pregame_snapshot(
    match_id: Seq<char>,
    data: PregameMatch,
    my_puuid: Seq<char>,
    names: Map<Seq<char>, Seq<char>>,
    parties: Map<Seq<char>, Label>,
) -> SnapshotModel {
    let team = data.ally_team->0;
    SnapshotModel {
        state: "pregame"@,
        match_id: Some(match_id),
        map_name: Some(map_name_of(data.map_id@)),
        mode_name: Some(mode_name_of(data.queue_id@)),
        side: Some(side_of(team.team_id@)),
        allies: Seq::new(
            team.players@.len(),
            |i: int| pregame_player_of(team.players@[i], my_puuid, names, parties),
        ),
        enemies: Seq::empty(),
    }
}

/// The snapshot of a match in agent selection, none where the match record holds no
/// allied team.
pub fn pregame_state(
    match_id: &String,
    data: &PregameMatch,
    my_puuid: &String,
    names: &Dict<String>,
    parties: &PartyAssignment,
) -> (snapshot: Option<GameState>)
    ensures
        match snapshot {
            Some(s) => data.ally_team is Some && s@ == pregame_snapshot(
                match_id@,
                *data,
                my_puuid@,
                names@,
                parties@,
            ),
            None => data.ally_team is None,
        },
{
    let team = match &data.ally_team {
        Some(team) => team,
        None => {
            return None;
        },
    };
    let mut allies: Vec<PlayerData> = Vec::new();
    let mut i: usize = 0;
    while i < team.players.len()
        invariant
            i <= team.players@.len(),
            allies@.len() == i,
            forall|j: int|
                0 <= j < i ==> (#[trigger] allies@[j])@ == pregame_player_of(
                    team.players@[j],
                    my_puuid@,
                    names@,
                    parties@,
                ),
        decreases team.players@.len() - i,
    {
        let p = &team.players[i];
        let level = match &p.player_identity {
            Some(card) => card.account_level,
            None => 0,
        };
        allies.push(
            PlayerData {
                puuid: p.subject.clone(),
                name: name_shown(names, &p.subject),
                agent: get_agent_name(p.character_id.as_str()),
                locked: str_eq(p.character_selection_state.as_str(), "locked"),
                party: party_shown(parties, &p.subject),
                is_me: p.subject == *my_puuid,
                rank_tier: p.competitive_tier,
                rank_rr: 0,
                level,
            },
        );
        i += 1;
    }
    let side = if str_eq(team.team_id.as_str(), "Red") {
        String::from_str("SALDIRAN")
    } else {
        String::from_str("SAVUNAN")
    };
    let snapshot = GameState {
        state: String::from_str("pregame"),
        match_id: Some(match_id.clone()),
        map_name: Some(map_name(data.map_id.as_str())),
        mode_name: Some(mode_name(data.queue_id.as_str())),
        side: Some(side),
        allies,
        enemies: Vec::new(),
    };
    assert(snapshot@ =~= pregame_snapshot(match_id@, *data, my_puuid@, names@, parties@));
    Some(snapshot)
}

/// The team of the first player, from position `i` on, with the identifier `puuid`;
/// empty where there is none.
pub open spec fn team_from(players: Seq<CoregamePlayerInfo>, puuid: Seq<char>, i: nat) -> Seq<char>
    decreases players.len() - i,
{
    if i >= players.len() {
        Seq::empty()
    } else if players[i as int].subject@ == puuid {
        players[i as int].team_id@
    } else {
        team_from(players, puuid, i + 1)
    }
}

/// The team that a player of a running match is on; empty for one who is not in it.
pub open spec fn team_of(players: Seq<CoregamePlayerInfo>, puuid: Seq<char>) -> Seq<char> {
    team_from(players, puuid, 0)
}

/// The records shown for those of the first `n` players that are on the team `team`,
/// where `on_team` holds, or on another, where it does not.
pub open spec fn ingame_roster(
    players: Seq<CoregamePlayerInfo>,
    n: nat,
    team: Seq<char>,
    on_team: bool,
    my_puuid: Seq<char>,
    names: Map<Seq<char>, Seq<char>>,
    parties: Map<Seq<char>, Label>,
) -> Seq<PlayerModel>
    decreases n,
{
    if n == 0 {
        Seq::empty()
    } else {
        let before = ingame_roster(
            players,
            (n - 1) as nat,
            team,
            on_team,
            my_puuid,
            names,
            parties,
        );
        if (players[n - 1].team_id@ == team) == on_team {
            before.push(ingame_player_of(players[n - 1], my_puuid, names, parties))
        } else {
            before
        }
    }
}

/// The snapshot of a running match: the players on the caller's team as allies, all
/// others as enemies, each roster in the order of the match record.
pub open spec fn ingame_snapshot(
    match_id: Seq<char>,
    data: CoregameMatch,
    my_puuid: Seq<char>,
    names: Map<Seq<char>, Seq<char>>,
    parties: Map<Seq<char>, Label>,
) -> SnapshotModel {
    let team = team_of(data.players@, my_puuid);
    SnapshotModel {
        state: "ingame"@,
        match_id: Some(match_id),
        map_name: Some(map_name_of(data.map_id@)),
        mode_name: None,
        side: None,
        allies: ingame_roster(
            data.players@,
            data.players@.len(),
            team,
            true,
            my_puuid,
            names,
            parties,
        ),
        enemies: ingame_roster(
            data.players@,
            data.players@.len(),
            team,
            false,
            my_puuid,
            names,
            parties,
        ),
    }
}

/// The team that a player of a running match is on; empty for one who is not in it.
pub fn team_of_player(players: &Vec<CoregamePlayerInfo>, puuid: &String) -> (team: String)
    ensures
        team@ == team_of(players@, puuid@),
{
    let mut i: usize = 0;
    while i < players.len()
        invariant
            i <= players@.len(),
            team_of(players@, puuid@) == team_from(players@, puuid@, i as nat),
        decreases players@.len() - i,
    {
        if players[i].subject == *puuid {
            return players[i].team_id.clone();
        }
        i += 1;
    }
    String::new()
}

/// The snapshot of a running match.
pub fn ingame_state(
    match_id: &String,
    data: &CoregameMatch,
    my_puuid: &String,
    names: &Dict<String>,
    parties: &PartyAssignment,
) -> (snapshot: GameState)
    ensures
        snapshot@ == ingame_snapshot(match_id@, *data, my_puuid@, names@, parties@),
{
    let my_team = team_of_player(&data.players, my_puuid);
    let mut allies: Vec<PlayerData> = Vec::new();
    let mut enemies: Vec<PlayerData> = Vec::new();
    let mut i: usize = 0;
    while i < data.players.len()
        invariant
            i <= data.players@.len(),
            my_team@ == team_of(data.players@, my_puuid@),
            players_of(allies@) == ingame_roster(
                data.players@,
                i as nat,
                my_team@,
                true,
                my_puuid@,
                names@,
                parties@,
            ),
            players_of(enemies@) == ingame_roster(
                data.players@,
                i as nat,
                my_team@,
                false,
                my_puuid@,
                names@,
                parties@,
            ),
        decreases data.players@.len() - i,
    {
        let p = &data.players[i];
        let level = match &p.player_identity {
            Some(card) => card.account_level,
            None => 0,
        };
        let rank = match &p.seasonal_badge_info {
            Some(badge) => match badge.rank {
                Some(rank) => rank,
                None => 0,
            },
            None => 0,
        };
        let player = PlayerData {
            puuid: p.subject.clone(),
            name: name_shown(names, &p.subject),
            agent: get_agent_name(p.character_id.as_str()),
            locked: true,
            party: party_shown(parties, &p.subject),
            is_me: p.subject == *my_puuid,
            rank_tier: rank,
            rank_rr: 0,
            level,
        };
        let ghost shown = ingame_player_of(*p, my_puuid@, names@, parties@);
        assert(player@ == shown);
        if p.team_id == my_team {
            let ghost before = players_of(allies@);
            allies.push(player);
            assert(players_of(allies@) =~= before.push(shown));
        } else {
            let ghost before = players_of(enemies@);
            enemies.push(player);
            assert(players_of(enemies@) =~= before.push(shown));
        }
        i += 1;
    }
    let snapshot = GameState {
        state: String::from_str("ingame"),
        match_id: Some(match_id.clone()),
        map_name: Some(map_name(data.map_id.as_str())),
        mode_name: None,
        side: None,
        allies,
        enemies,
    };
    assert(snapshot@ =~= ingame_snapshot(match_id@, *data, my_puuid@, names@, parties@));
    snapshot
}

/// The parties of a roster, from the cache of the match in progress and what was
/// collected for this resolution. The cache takes the result in.
pub fn get_cached_parties(
    cache: &mut SessionCache,
    puuids: &Vec<String>,
    collected: Collected,
) -> (parties: PartyAssignment)
    ensures
        final(cache)@ == resolved(old(cache)@, signals_of(collected), texts(puuids@)),
        parties@ == display(final(cache)@.groups),
{
    let signals = collected.into_signals();
    cache.resolve_parties(puuids, &signals)
}

/// The players of the allied team of a match in agent selection.
pub fn pregame_roster(team: &PregameTeam) -> (roster: Vec<String>)
    ensures
        texts(roster@) == Seq::new(team.players@.len(), |i: int| team.players@[i].subject@),
{
    let mut roster: Vec<String> = Vec::new();
    let mut i: usize = 0;
    while i < team.players.len()
        invariant
            i <= team.players@.len(),
            roster@.len() == i,
            forall|j: int| 0 <= j < i ==> (#[trigger] roster@[j])@ == team.players@[j].subject@,
        decreases team.players@.len() - i,
    {
        roster.push(team.players[i].subject.clone());
        i += 1;
    }
    assert(texts(roster@) =~= Seq::new(team.players@.len(), |i: int| team.players@[i].subject@));
    roster
}

/// The players of a running match.
pub fn ingame_roster_ids(data: &CoregameMatch) -> (roster: Vec<String>)
    ensures
        texts(roster@) == Seq::new(data.players@.len(), |i: int| data.players@[i].subject@),
{
    let mut roster: Vec<String> = Vec::new();
    let mut i: usize = 0;
    while i < data.players.len()
        invariant
            i <= data.players@.len(),
            roster@.len() == i,
            forall|j: int| 0 <= j < i ==> (#[trigger] roster@[j])@ == data.players@[j].subject@,
        decreases data.players@.len() - i,
    {
        roster.push(data.players[i].subject.clone());
        i += 1;
    }
    assert(texts(roster@) =~= Seq::new(data.players@.len(), |i: int| data.players@[i].subject@));
    roster
}

/// Whether the first player, from position `i` on, with the identifier `puuid` has
/// locked an agent; false where there is no such player.
pub open spec fn locked_from(players: Seq<PregamePlayerInfo>, puuid: Seq<char>, i: nat) -> bool
    decreases players.len() - i,
{
    if i >= players.len() {
        false
    } else if players[i as int].subject@ == puuid {
        players[i as int].character_selection_state@ == "locked"@
    } else {
        locked_from(players, puuid, i + 1)
    }
}

/// Whether a player of a team in agent selection has locked an agent.
pub open spec fn has_locked(team: PregameTeam, puuid: Seq<char>) -> bool {
    locked_from(team.players@, puuid, 0)
}

/// Whether a player of a team in agent selection has locked an agent.
pub fn is_locked(team: &PregameTeam, puuid: &String) -> (locked: bool)
    ensures
        locked == has_locked(*team, puuid@),
{
    let mut i: usize = 0;
    while i < team.players.len()
        invariant
            i <= team.players@.len(),
            has_locked(*team, puuid@) == locked_from(team.players@, puuid@, i as nat),
        decreases team.players@.len() - i,
    {
        if team.players[i].subject == *puuid {
            return str_eq(team.players[i].character_selection_state.as_str(), "locked");
        }
        i += 1;
    }
    false
}

/// The identifier of the agent with the name `name`, given in lower case.
pub fn agent_id(name: &str) -> (id: Option<&'static str>)
    ensures
        match id {
            Some(id) => value_of(agent_table(), name@) == Some(id@),
            None => value_of(agent_table(), name@) is None,
        },
{
    let table = agents();
    lookup(&table, name)
}

/// The agent to select and lock for the caller: the configured one, by its name in
/// lower case, as long as the caller has not locked an agent; none where no agent is
/// configured or the table does not hold the configured name.
pub open spec fn auto_lock_of(team: PregameTeam, my_puuid: Seq<char>, agent: Option<String>)
    -> Option<Seq<char>> {
    if has_locked(team, my_puuid) {
        None
    } else {
        match agent {
            Some(name) => value_of(agent_table(), lowercase_of(name@)),
            None => None,
        }
    }
}

/// The identifier of the agent to select and lock for the caller in this poll, if any.
pub fn auto_lock_target(team: &PregameTeam, my_puuid: &String, agent: &Option<String>) -> (target:
    Option<&'static str>)
    ensures
        match target {
            Some(id) => auto_lock_of(*team, my_puuid@, *agent) == Some(id@),
            None => auto_lock_of(*team, my_puuid@, *agent) is None,
        },
{
    if is_locked(team, my_puuid) {
        return None;
    }
    match agent {
        Some(name) => {
            let lower = to_lowercase(name.as_str());
            agent_id(lower.as_str())
        },
        None => None,
    }
}

/// What a poll has learned so far. A lookup that was not made yet is `None`; one that
/// was made holds what it gave, `None` where it gave nothing.
pub struct PollProgress {
    pub pregame_id: Option<Option<String>>,
    pub pregame_match: Option<Option<PregameMatch>>,
    pub coregame_id: Option<Option<String>>,
    pub coregame_match: Option<Option<CoregameMatch>>,
}

/// The next step of a poll.
pub enum PollAction {
    /// Ask which match in agent selection the caller is in.
    FetchPregameId,
    /// Ask for the record of the match in agent selection.
    FetchPregameMatch { match_id: String },
    /// Ask which running match the caller is in.
    FetchCoregameId,
    /// Ask for the record of the running match.
    FetchCoregameMatch { match_id: String },
    /// The phase is known.
    Settle(Phase),
}

/// The next step of a poll, as a mathematical value.
pub enum PollStep {
    FetchPregameId,
    FetchPregameMatch { match_id: Seq<char> },
    FetchCoregameId,
    FetchCoregameMatch { match_id: Seq<char> },
    Settle(Phase),
}

impl View for PollAction {
    type V = PollStep;

    open spec fn view(&self) -> PollStep {
        match self {
            PollAction::FetchPregameId => PollStep::FetchPregameId,
            PollAction::FetchPregameMatch { match_id } => PollStep::FetchPregameMatch {
                match_id: match_id@,
            },
            PollAction::FetchCoregameId => PollStep::FetchCoregameId,
            PollAction::FetchCoregameMatch { match_id } => PollStep::FetchCoregameMatch {
                match_id: match_id@,
            },
            PollAction::Settle(phase) => PollStep::Settle(*phase),
        }
    }
}

/// Whether the poll has found a match in agent selection with its allied team.
pub open spec fn pregame_found(progress: PollProgress) -> bool {
    &&& progress.pregame_id matches Some(Some(_))
    &&& progress.pregame_match matches Some(Some(data))
    &&& data.ally_team is Some
}

/// The next step of a poll once agent selection is ruled out.
pub open spec fn next_coregame_step(progress: PollProgress) -> PollStep {
    match progress.coregame_id {
        None => PollStep::FetchCoregameId,
        Some(None) => PollStep::Settle(Phase::Idle),
        Some(Some(id)) => match progress.coregame_match {
            None => PollStep::FetchCoregameMatch { match_id: id@ },
            Some(None) => PollStep::Settle(Phase::Idle),
            Some(Some(_)) => PollStep::Settle(Phase::InGame),
        },
    }
}

/// The next step of a poll.
///
/// Without a session the poll is over at once. Else agent selection is looked for
/// first, then a running match; the phase is that of the first that is found with
/// its record, and idle where neither is.
pub open spec fn next_poll_step(connected: bool, progress: PollProgress) -> PollStep {
    if !connected {
        PollStep::Settle(Phase::Disconnected)
    } else {
        match progress.pregame_id {
            None => PollStep::FetchPregameId,
            Some(None) => next_coregame_step(progress),
            Some(Some(id)) => match progress.pregame_match {
                None => PollStep::FetchPregameMatch { match_id: id@ },
                Some(None) => next_coregame_step(progress),
                Some(Some(data)) => if data.ally_team is Some {
                    PollStep::Settle(Phase::Pregame)
                } else {
                    next_coregame_step(progress)
                },
            },
        }
    }
}

impl PollProgress {
    /// The progress of a poll that has not looked anything up.
    pub fn new() -> (progress: Self)
        ensures
            progress.pregame_id is None,
            progress.pregame_match is None,
            progress.coregame_id is None,
            progress.coregame_match is None,
    {
        PollProgress {
            pregame_id: None,
            pregame_match: None,
            coregame_id: None,
            coregame_match: None,
        }
    }

    fn next_coregame_action(&self) -> (action: PollAction)
        ensures
            action@ == next_coregame_step(*self),
    {
        match &self.coregame_id {
            None => PollAction::FetchCoregameId,
            Some(None) => PollAction::Settle(Phase::Idle),
            Some(Some(id)) => match &self.coregame_match {
                None => PollAction::FetchCoregameMatch { match_id: id.clone() },
                Some(None) => PollAction::Settle(Phase::Idle),
                Some(Some(_)) => PollAction::Settle(Phase::InGame),
            },
        }
    }

    /// The next step of the poll.
    pub fn next_action(&self, connected: bool) -> (action: PollAction)
        ensures
            action@ == next_poll_step(connected, *self),
    {
        if !connected {
            return PollAction::Settle(Phase::Disconnected);
        }
        match &self.pregame_id {
            None => PollAction::FetchPregameId,
            Some(None) => self.next_coregame_action(),
            Some(Some(id)) => match &self.pregame_match {
                None => PollAction::FetchPregameMatch { match_id: id.clone() },
                Some(None) => self.next_coregame_action(),
                Some(Some(data)) => {
                    if data.ally_team.is_some() {
                        PollAction::Settle(Phase::Pregame)
                    } else {
                        self.next_coregame_action()
                    }
                },
            },
        }
    }
}

/// The snapshot of a poll that found `phase`, from what the poll learned.
pub open spec fn snapshot_of(
    phase: Phase,
    progress: PollProgress,
    my_puuid: Seq<char>,
    names: Map<Seq<char>, Seq<char>>,
    parties: Map<Seq<char>, Label>,
) -> SnapshotModel {
    match phase {
        Phase::Disconnected => bare_snapshot("disconnected"@),
        Phase::Idle => bare_snapshot("idle"@),
        Phase::Pregame => pregame_snapshot(
            progress.pregame_id->0->0@,
            progress.pregame_match->0->0,
            my_puuid,
            names,
            parties,
        ),
        Phase::InGame => ingame_snapshot(
            progress.coregame_id->0->0@,
            progress.coregame_match->0->0,
            my_puuid,
            names,
            parties,
        ),
    }
}

/// The snapshot of a poll, once its phase is known: none while a lookup is still to be
/// made. `names` and `parties` are what was looked up and resolved for the players of
/// the match that the poll found.
pub fn get_game_state(
    connected: bool,
    progress: &PollProgress,
    my_puuid: &String,
    names: &Dict<String>,
    parties: &PartyAssignment,
) -> (snapshot: Option<GameState>)
    ensures
        match snapshot {
            Some(s) => {
                &&& next_poll_step(connected, *progress) matches PollStep::Settle(phase)
                &&& s@ == snapshot_of(phase, *progress, my_puuid@, names@, parties@)
            },
            None => !(next_poll_step(connected, *progress) is Settle),
        },
{
    match progress.next_action(connected) {
        PollAction::Settle(Phase::Disconnected) => Some(disconnected_state()),
        PollAction::Settle(Phase::Idle) => Some(idle_state()),
        PollAction::Settle(Phase::Pregame) => match (
            &progress.pregame_id,
            &progress.pregame_match,
        ) {
            (Some(Some(id)), Some(Some(data))) => pregame_state(id, data, my_puuid, names, parties),
            _ => {
                proof {
                    assert(false);
                }
                None
            },
        },
        PollAction::Settle(Phase::InGame) => match (
            &progress.coregame_id,
            &progress.coregame_match,
        ) {
            (Some(Some(id)), Some(Some(data))) => Some(
                ingame_state(id, data, my_puuid, names, parties),
            ),
            _ => {
                proof {
                    assert(false);
                }
                None
            },
        },
        _ => None,
    }
}

/// Sets the agent to lock automatically, or none.
pub fn set_auto_lock(state: &mut AppState, agent: Option<String>)
    ensures
        final(state).auto_lock_agent == agent,
        final(state).api == old(state).api,
        final(state).parties == old(state).parties,
        final(state).loadouts == old(state).loadouts,
{
    state.auto_lock_agent = agent;
}

/// The agent to lock automatically, if any.
pub fn get_auto_lock(state: &AppState) -> (agent: Option<String>)
    ensures
        agent == state.auto_lock_agent,
{
    match &state.auto_lock_agent {
        Some(name) => Some(name.clone()),
        None => None,
    }
}

/// The loadouts of the players of a match, as the phase of the match gives them.
pub enum MatchLoadouts {
    /// Of a match in agent selection.
    Pregame(PregameLoadoutsResponse),
    /// Of a running match.
    Coregame(LoadoutsResponse),
}

/// The cache of weapon skins after the loadouts of the match `match_id` were asked for:
/// it belongs to that match, and holds what the answer gave in addition.
pub open spec fn after_loadouts(
    cache: LoadoutModel,
    match_id: Seq<char>,
    data: Option<MatchLoadouts>,
) -> LoadoutModel {
    let seen = observed(cache, match_id);
    match data {
        Some(MatchLoadouts::Pregame(d)) => LoadoutModel {
            loadouts: with_pregame(seen.loadouts, d, d.loadouts@.len()),
            ..seen
        },
        Some(MatchLoadouts::Coregame(d)) => LoadoutModel {
            loadouts: with_coregame(seen.loadouts, d, d.loadouts@.len()),
            ..seen
        },
        None => seen,
    }
}

fn copy_skins(data: &PlayerSkinData) -> (copy: PlayerSkinData)
    ensures
        copy@ == data@,
{
    let mut skins: Vec<WeaponSkin> = Vec::new();
    let mut i: usize = 0;
    while i < data.skins.len()
        invariant
            i <= data.skins@.len(),
            skins@.len() == i,
            forall|j: int| 0 <= j < i ==> (#[trigger] skins@[j])@ == data.skins@[j]@,
        decreases data.skins@.len() - i,
    {
        let skin = &data.skins[i];
        skins.push(
            WeaponSkin {
                weapon_id: skin.weapon_id.clone(),
                skin_id: skin.skin_id.clone(),
                chroma_id: match &skin.chroma_id {
                    Some(id) => Some(id.clone()),
                    None => None,
                },
            },
        );
        i += 1;
    }
    let copy = PlayerSkinData { puuid: data.puuid.clone(), skins };
    assert(copy@ =~= data@);
    copy
}

/// The weapon skins of `puuid`, once the loadouts of the match `match_id` were asked
/// for: the cache takes the answer in, and what it then holds for the player is handed
/// out; nothing where the loadouts could not be had.
pub fn get_player_loadout(
    cache: &mut LoadoutCache,
    puuid: &String,
    match_id: &String,
    data: &Option<MatchLoadouts>,
) -> (skins: Option<PlayerSkinData>)
    ensures
        final(cache)@ == after_loadouts(old(cache)@, match_id@, *data),
        match skins {
            Some(s) => {
                &&& data is Some
                &&& final(cache)@.loadouts.contains_key(puuid@)
                &&& s@ == final(cache)@.loadouts[puuid@]
            },
            None => data is None || !final(cache)@.loadouts.contains_key(puuid@),
        },
{
    cache.observe_match(match_id);
    match data {
        Some(MatchLoadouts::Pregame(d)) => {
            cache.store_pregame(d);
        },
        Some(MatchLoadouts::Coregame(d)) => {
            cache.store_coregame(d);
        },
        None => {
            return None;
        },
    }
    match cache.get(puuid) {
        Some(found) => Some(copy_skins(found)),
        None => None,
    }
}

} // verus!
