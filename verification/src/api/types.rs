//! The records exchanged with the game client's services and with the presentation layer.
//!
//! They are plain data. Maps of the wire format are kept as lists of pairs in the
//! order in which they were received.

use vstd::prelude::*;

verus! {

/// The tokens that the local client hands out for the remote services.
#[derive(Debug, Clone)]
pub struct EntitlementsResponse {
    pub access_token: String,
    pub token: String,
    pub subject: String,
}

/// One external session of the local client.
#[derive(Debug, Clone)]
pub struct SessionData {
    pub launch_configuration: Option<LaunchConfig>,
}

/// How a session was launched.
#[derive(Debug, Clone)]
pub struct LaunchConfig {
    pub arguments: Option<Vec<String>>,
}

/// The answer of the version service.
#[derive(Debug, Clone)]
pub struct VersionResponse {
    pub data: Option<VersionData>,
}

/// The versions that the version service names.
#[derive(Debug, Clone)]
pub struct VersionData {
    pub riot_client_version: Option<String>,
}

/// The agent-selection match that a player is in, if any.
#[derive(Debug, Clone)]
pub struct PregamePlayer {
    pub match_id: Option<String>,
}

/// A match in agent selection.
#[derive(Debug, Clone)]
pub struct PregameMatch {
    pub map_id: String,
    pub queue_id: String,
    pub ally_team: Option<PregameTeam>,
}

/// The allied team of a match in agent selection.
#[derive(Debug, Clone)]
pub struct PregameTeam {
    pub team_id: String,
    pub players: Vec<PregamePlayerInfo>,
}

/// One player of a match in agent selection.
#[derive(Debug, Clone)]
pub struct PregamePlayerInfo {
    pub subject: String,
    pub character_id: String,
    pub character_selection_state: String,
    pub competitive_tier: i32,
    pub player_identity: Option<PlayerIdentity>,
}

/// The public card of a player.
#[derive(Debug, Clone)]
pub struct PlayerIdentity {
    pub account_level: i32,
}

/// The running match that a player is in, if any.
#[derive(Debug, Clone)]
pub struct CoregamePlayer {
    pub match_id: Option<String>,
}

/// A running match.
#[derive(Debug, Clone)]
pub struct CoregameMatch {
    pub map_id: String,
    pub players: Vec<CoregamePlayerInfo>,
}

/// One player of a running match.
#[derive(Debug, Clone)]
pub struct CoregamePlayerInfo {
    pub subject: String,
    pub character_id: String,
    pub team_id: String,
    pub player_identity: Option<PlayerIdentity>,
    pub seasonal_badge_info: Option<SeasonalBadgeInfo>,
}

/// The seasonal rank badge of a player.
#[derive(Debug, Clone)]
pub struct SeasonalBadgeInfo {
    pub rank: Option<i32>,
}

/// The name of a player as the name service gives it.
#[derive(Debug, Clone)]
pub struct PlayerNameInfo {
    pub subject: String,
    pub game_name: String,
    pub tag_line: String,
}

/// Whether the session to the game client stands, for the presentation layer.
#[derive(Debug, Clone)]
pub struct ConnectionStatus {
    pub connected: bool,
    pub region: String,
    pub message: String,
}

/// The snapshot of one poll, for the presentation layer.
#[derive(Debug, Clone)]
pub struct GameState {
    pub state: String,
    pub match_id: Option<String>,
    pub map_name: Option<String>,
    pub mode_name: Option<String>,
    pub side: Option<String>,
    pub allies: Vec<PlayerData>,
    pub enemies: Vec<PlayerData>,
}

/// One player of a snapshot.
#[derive(Debug, Clone)]
pub struct PlayerData {
    pub puuid: String,
    pub name: String,
    pub agent: String,
    pub locked: bool,
    pub party: String,
    pub is_me: bool,
    pub rank_tier: i32,
    pub rank_rr: i32,
    pub level: i32,
}

/// The presences visible to the caller.
#[derive(Debug, Clone)]
pub struct PresencesResponse {
    pub presences: Vec<Presence>,
}

/// One visible presence, with its encoded private part.
#[derive(Debug, Clone)]
pub struct Presence {
    pub puuid: String,
    pub private: Option<String>,
}

/// The decoded private part of a presence.
#[derive(Debug, Clone)]
pub struct PresencePrivate {
    pub party_id: Option<String>,
}

/// The party that a player is in, if any.
#[derive(Debug, Clone)]
pub struct PartyPlayerResponse {
    pub current_party_id: Option<String>,
}

/// A party and its members.
#[derive(Debug, Clone)]
pub struct PartyResponse {
    pub members: Vec<PartyMember>,
}

/// One member of a party.
#[derive(Debug, Clone)]
pub struct PartyMember {
    pub subject: Option<String>,
}

/// The rating record of a player.
#[derive(Debug, Clone)]
pub struct MmrResponse {
    pub queue_skills: Option<QueueSkills>,
}

/// The rating of a player by queue.
#[derive(Debug, Clone)]
pub struct QueueSkills {
    pub competitive: Option<CompetitiveSkill>,
}

/// The competitive rating of a player.
#[derive(Debug, Clone)]
pub struct CompetitiveSkill {
    pub competitive_tier: Option<u32>,
    pub ranked_rating: Option<u32>,
}

/// The recent matches of a player.
#[derive(Debug, Clone)]
pub struct MatchHistoryResponse {
    pub subject: Option<String>,
    pub history: Option<Vec<MatchHistoryEntry>>,
}

/// One match of a match history.
#[derive(Debug, Clone)]
pub struct MatchHistoryEntry {
    pub match_id: String,
    pub game_start_time: Option<u64>,
    pub queue_id: Option<String>,
}

/// The record of a finished match.
#[derive(Debug, Clone)]
pub struct MatchDetailsResponse {
    pub match_info: Option<MatchInfo>,
    pub players: Option<Vec<MatchPlayer>>,
}

/// What identifies a finished match.
#[derive(Debug, Clone)]
pub struct MatchInfo {
    pub match_id: Option<String>,
    pub queue_id: Option<String>,
}

/// One player of a finished match, with the party the player queued in.
#[derive(Debug, Clone)]
pub struct MatchPlayer {
    pub subject: String,
    pub party_id: String,
    pub team_id: Option<String>,
}

/// The loadouts of the players of a running match.
#[derive(Debug, Clone)]
pub struct LoadoutsResponse {
    pub loadouts: Vec<PlayerLoadout>,
}

/// The loadout of one player of a running match.
#[derive(Debug, Clone)]
pub struct PlayerLoadout {
    pub character_id: String,
    pub loadout: LoadoutData,
}

/// The items of a loadout by weapon, in the order received.
#[derive(Debug, Clone)]
pub struct LoadoutData {
    pub subject: String,
    pub items: Vec<(String, LoadoutItem)>,
}

/// The loadouts of the players of a match in agent selection.
#[derive(Debug, Clone)]
pub struct PregameLoadoutsResponse {
    pub loadouts: Vec<PregameLoadoutData>,
    pub loadouts_valid: Option<bool>,
}

/// The items of a loadout in agent selection by weapon, in the order received.
#[derive(Debug, Clone)]
pub struct PregameLoadoutData {
    pub subject: String,
    pub items: Vec<(String, LoadoutItem)>,
}

/// An equipped item with what is socketed into it.
#[derive(Debug, Clone)]
pub struct LoadoutItem {
    pub id: String,
    pub type_id: String,
    pub sockets: Option<Vec<(String, SocketItem)>>,
}

/// A socket of an item.
#[derive(Debug, Clone)]
pub struct SocketItem {
    pub id: String,
    pub item: SocketItemData,
}

/// What sits in a socket.
#[derive(Debug, Clone)]
pub struct SocketItemData {
    pub id: String,
    pub type_id: String,
}

/// The weapon skins of a player, for the presentation layer.
#[derive(Debug, Clone)]
pub struct PlayerSkinData {
    pub puuid: String,
    pub skins: Vec<WeaponSkin>,
}

/// The skin of one weapon.
#[derive(Debug, Clone)]
pub struct WeaponSkin {
    pub weapon_id: String,
    pub skin_id: String,
    pub chroma_id: Option<String>,
}

} // verus!
