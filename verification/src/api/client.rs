//! What the session client computes from the answers of the game client's services.

use vstd::prelude::*;
use vstd::string::*;
use crate::api::codec::{
    base64_decoded, basic_auth, basic_auth_of, decode_payload, payload_text_of, MAX_PASSWORD_CHARS,
};
use crate::api::types::{
    ConnectionStatus, EntitlementsResponse, MatchHistoryResponse, MmrResponse, PartyMember,
    PartyPlayerResponse, PartyResponse, PlayerNameInfo, Presence, PresencePrivate,
    PresencesResponse, SessionData, VersionResponse,
};
use crate::dict::Dict;
use crate::party::cache::{PartyAssignment, SessionCache};
use crate::party::model::{display, empty_cache, resolved, SignalsModel};
use crate::party::signals::{OwnParty, Signals};
use crate::text::{
    contains, lemma_split_piece_len, lowercase_of, occurs_in, split, split_chars, str_eq, texts,
    to_lowercase, to_uppercase, uppercase_of,
};

verus! {

/// Why the session with the game client could not be set up.
#[derive(Debug)]
pub enum ApiError {
    /// The game client is not running.
    NotRunning,
    /// A request failed.
    RequestFailed(String),
    /// An answer could not be read.
    ParseError(String),
}

/// The message of an error.
pub open spec fn error_text(e: ApiError) -> Seq<char> {
    match e {
        ApiError::NotRunning => "Valorant not running"@,
        ApiError::RequestFailed(detail) => "Request failed: "@ + detail@,
        ApiError::ParseError(detail) => "Parse error: "@ + detail@,
    }
}

impl ApiError {
    /// The message of the error.
    pub fn message(&self) -> (text: String)
        ensures
            text@ == error_text(*self),
    {
        match self {
            ApiError::NotRunning => String::from_str("Valorant not running"),
            ApiError::RequestFailed(detail) => {
                let mut text = String::from_str("Request failed: ");
                text.append(detail.as_str());
                text
            },
            ApiError::ParseError(detail) => {
                let mut text = String::from_str("Parse error: ");
                text.append(detail.as_str());
                text
            },
        }
    }
}

/// The name shown for a player: the game name, followed by `#` and the tag line where
/// there is one.
pub open spec fn display_name_of(game_name: Seq<char>, tag_line: Seq<char>) -> Seq<char> {
    if tag_line.len() == 0 {
        game_name
    } else {
        game_name + seq!['#'] + tag_line
    }
}

/// The name shown for a player.
pub fn display_name(info: &PlayerNameInfo) -> (name: String)
    ensures
        name@ == display_name_of(info.game_name@, info.tag_line@),
{
    if info.tag_line.as_str().is_empty() {
        info.game_name.clone()
    } else {
        proof {
            reveal_strlit("#");
        }
        let mut name = info.game_name.clone();
        name.append("#");
        name.append(info.tag_line.as_str());
        assert(name@ =~= display_name_of(info.game_name@, info.tag_line@));
        name
    }
}

/// The names by player after the first `n` answers of the name service: a later answer
/// for a player replaces an earlier one.
pub open spec fn names_of(data: Seq<PlayerNameInfo>, n: nat) -> Map<Seq<char>, Seq<char>>
    decreases n,
{
    if n == 0 {
        Map::empty()
    } else {
        names_of(data, (n - 1) as nat).insert(
            data[n - 1].subject@,
            display_name_of(data[n - 1].game_name@, data[n - 1].tag_line@),
        )
    }
}

/// The text inside the private part of a presence, where it has one that can be decoded.
pub open spec fn private_text_of(presence: Presence) -> Option<Seq<char>> {
    match presence.private {
        Some(payload) => payload_text_of(base64_decoded(payload@)),
        None => None,
    }
}

/// The text inside the private part of each presence, in the order of the presences:
/// nothing for a presence without a private part, or with one that is not Base64 of
/// UTF-8 text.
pub fn private_payloads(data: &PresencesResponse) -> (payloads: Vec<Option<String>>)
    ensures
        payloads@.len() == data.presences@.len(),
        forall|i: int|
            0 <= i < payloads@.len() ==> match #[trigger] payloads@[i] {
                Some(text) => private_text_of(data.presences@[i]) == Some(text@),
                None => private_text_of(data.presences@[i]) is None,
            },
{
    let mut payloads: Vec<Option<String>> = Vec::new();
    let mut i: usize = 0;
    while i < data.presences.len()
        invariant
            i <= data.presences@.len(),
            payloads@.len() == i,
            forall|j: int|
                0 <= j < i ==> match #[trigger] payloads@[j] {
                    Some(text) => private_text_of(data.presences@[j]) == Some(text@),
                    None => private_text_of(data.presences@[j]) is None,
                },
        decreases data.presences@.len() - i,
    {
        let text = match &data.presences[i].private {
            Some(payload) => decode_payload(payload.as_str()),
            None => None,
        };
        payloads.push(text);
        i += 1;
    }
    payloads
}

/// The party that a decoded private part names: none where the part could not be read,
/// names no party, or names an empty one.
pub open spec fn party_named(private: Option<PresencePrivate>) -> Option<Seq<char>> {
    match private {
        Some(p) => match p.party_id {
            Some(id) => if id@.len() > 0 {
                Some(id@)
            } else {
                None
            },
            None => None,
        },
        None => None,
    }
}

/// The parties by player after the first `n` presences: a presence that names a party
/// records it for its player, replacing what an earlier presence recorded.
pub open spec fn presences_of(
    presences: Seq<Presence>,
    privates: Seq<Option<PresencePrivate>>,
    n: nat,
) -> Map<Seq<char>, Seq<char>>
    decreases n,
{
    if n == 0 {
        Map::empty()
    } else {
        let before = presences_of(presences, privates, (n - 1) as nat);
        match party_named(privates[n - 1]) {
            Some(id) => before.insert(presences[n - 1].puuid@, id),
            None => before,
        }
    }
}

/// The smaller of two lengths.
pub open spec fn shorter(a: nat, b: nat) -> nat {
    if a <= b {
        a
    } else {
        b
    }
}

/// The party that the party service names for a player, if any.
pub fn current_party_id(player: &Option<PartyPlayerResponse>) -> (id: Option<String>)
    ensures
        match id {
            Some(id) => player is Some && player->0.current_party_id == Some(id),
            None => player is None || player->0.current_party_id is None,
        },
{
    match player {
        Some(p) => match &p.current_party_id {
            Some(id) => Some(id.clone()),
            None => None,
        },
        None => None,
    }
}

/// The members, among the first `n` of a party, that the party service names.
pub open spec fn named_members(members: Seq<PartyMember>, n: nat) -> Seq<Seq<char>>
    decreases n,
{
    if n == 0 {
        Seq::empty()
    } else {
        let before = named_members(members, (n - 1) as nat);
        match members[n - 1].subject {
            Some(subject) => before.push(subject@),
            None => before,
        }
    }
}

/// The members of the own party: those that the party service names, or the caller
/// alone where it did not answer for the party.
pub open spec fn own_members_of(puuid: Seq<char>, party: Option<PartyResponse>) -> Seq<Seq<char>> {
    match party {
        Some(p) => named_members(p.members@, p.members@.len()),
        None => seq![puuid],
    }
}

/// The competitive tier and rating of a rating record, each 0 where the record does
/// not hold it.
pub open spec fn mmr_of(data: Option<MmrResponse>) -> (u32, u32) {
    match data {
        Some(d) => match d.queue_skills {
            Some(q) => match q.competitive {
                Some(c) => (
                    match c.competitive_tier {
                        Some(t) => t,
                        None => 0,
                    },
                    match c.ranked_rating {
                        Some(r) => r,
                        None => 0,
                    },
                ),
                None => (0, 0),
            },
            None => (0, 0),
        },
        None => (0, 0),
    }
}

/// The identifiers of the matches of a match history, most recent first.
pub open spec fn match_ids_of(data: Option<MatchHistoryResponse>) -> Seq<Seq<char>> {
    match data {
        Some(d) => match d.history {
            Some(h) => Seq::new(h@.len(), |i: int| h@[i].match_id@),
            None => Seq::empty(),
        },
        None => Seq::empty(),
    }
}

/// What the lock file of the local client gives: the port it listens on and the value
/// of the authorization header that it takes.
#[derive(Debug)]
pub struct LocalCredentials {
    pub port: String,
    pub auth: String,
}

/// The session with the game client: who the player is, where the remote services
/// are, and what the local and remote services take as authorization.
pub struct ValorantAPI {
    pub puuid: String,
    pub region: String,
    pub shard: String,
    pub local_port: String,
    pub local_auth: String,
    pub remote_headers: Dict<String>,
    pub connected: bool,
}

/// The client version that is sent where the version service names none.
pub const FALLBACK_VERSION: &'static str = "release-09.10-shipping-18-2775386";

/// The platform descriptor that the remote services expect.
pub const CLIENT_PLATFORM: &'static str =
    "ew0KCSJwbGF0Zm9ybVR5cGUiOiAiUEMiLA0KCSJwbGF0Zm9ybU9TIjogIldpbmRvd3MiLA0KCSJwbGF0Zm9ybU9TVmVyc2lvbiI6ICIxMC4wLjE5MDQyLjEuMjU2LjY0Yml0IiwNCgkicGxhdGZvcm1DaGlwc2V0IjogIlVua25vd24iDQp9";

/// The client version that is sent where the version service names none.
pub open spec fn fallback_version() -> Seq<char> {
    FALLBACK_VERSION@
}

/// The client version that the version service names, or the fallback.
pub open spec fn client_version_of(data: Option<VersionResponse>) -> Seq<char> {
    match data {
        Some(d) => match d.data {
            Some(v) => match v.riot_client_version {
                Some(version) => version@,
                None => fallback_version(),
            },
            None => fallback_version(),
        },
        None => fallback_version(),
    }
}

/// The shard that serves a region, given in lower case.
pub open spec fn shard_of_lower(region: Seq<char>) -> Seq<char> {
    if region == "eu"@ || region == "tr"@ {
        "eu"@
    } else if region == "na"@ || region == "latam"@ || region == "br"@ {
        "na"@
    } else if region == "ap"@ {
        "ap"@
    } else if region == "kr"@ {
        "kr"@
    } else {
        "eu"@
    }
}

/// The shard that serves a region.
pub open spec fn shard_of(region: Seq<char>) -> Seq<char> {
    shard_of_lower(lowercase_of(region))
}

/// The region that a launch argument names, if it is the deployment argument: what
/// follows its first `=`, or `tr` where nothing does.
pub open spec fn region_in(arg: Seq<char>) -> Option<Seq<char>> {
    if occurs_in(arg, "-ares-deployment="@) {
        let parts = split_chars(arg, '=');
        if parts.len() > 1 {
            Some(parts[1])
        } else {
            Some("tr"@)
        }
    } else {
        None
    }
}

/// The shard that a launch argument names, if it is the endpoint argument: the second
/// label of the host that follows its first `=`.
pub open spec fn shard_in(arg: Seq<char>) -> Option<Seq<char>> {
    if occurs_in(arg, "-config-endpoint="@) {
        let parts = split_chars(arg, '=');
        if parts.len() > 1 {
            let labels = split_chars(parts[1], '.');
            if labels.len() > 1 {
                Some(labels[1])
            } else {
                None
            }
        } else {
            None
        }
    } else {
        None
    }
}

/// Region and shard after one launch argument.
pub open spec fn after_arg(at: (Seq<char>, Seq<char>), arg: Seq<char>) -> (Seq<char>, Seq<char>) {
    (
        match region_in(arg) {
            Some(region) => region,
            None => at.0,
        },
        match shard_in(arg) {
            Some(shard) => shard,
            None => at.1,
        },
    )
}

/// Region and shard after the first `n` launch arguments.
pub open spec fn after_args(at: (Seq<char>, Seq<char>), args: Seq<String>, n: nat) -> (
    Seq<char>,
    Seq<char>,
)
    decreases n,
{
    if n == 0 {
        at
    } else {
        after_arg(after_args(at, args, (n - 1) as nat), args[n - 1]@)
    }
}

/// Region and shard after the launch arguments of one session.
pub open spec fn after_session(at: (Seq<char>, Seq<char>), session: SessionData) -> (
    Seq<char>,
    Seq<char>,
) {
    match session.launch_configuration {
        Some(config) => match config.arguments {
            Some(args) => after_args(at, args@, args@.len()),
            None => at,
        },
        None => at,
    }
}

/// Region and shard after the first `n` sessions.
pub open spec fn after_sessions(at: (Seq<char>, Seq<char>), sessions: Seq<SessionData>, n: nat)
    -> (Seq<char>, Seq<char>)
    decreases n,
{
    if n == 0 {
        at
    } else {
        after_session(after_sessions(at, sessions, (n - 1) as nat), sessions[n - 1])
    }
}

/// Region and shard once the sessions were read: what their launch arguments name,
/// else what was known, else the region `tr` and the shard that serves the region.
pub open spec fn located(at: (Seq<char>, Seq<char>), sessions: Seq<SessionData>) -> (
    Seq<char>,
    Seq<char>,
) {
    let found = after_sessions(at, sessions, sessions.len());
    let region = if found.0.len() == 0 {
        "tr"@
    } else {
        found.0
    };
    let shard = if found.1.len() == 0 {
        shard_of(region)
    } else {
        found.1
    };
    (region, shard)
}

/// The platform descriptor that the remote services expect.
pub open spec fn client_platform() -> Seq<char> {
    CLIENT_PLATFORM@
}

/// The headers for the remote services, once the entitlements and the client version
/// are known.
pub open spec fn headers_of(
    headers: Map<Seq<char>, Seq<char>>,
    entitlements: EntitlementsResponse,
    version: Seq<char>,
) -> Map<Seq<char>, Seq<char>> {
    headers.insert("Authorization"@, "Bearer "@ + entitlements.access_token@).insert(
        "X-Riot-Entitlements-JWT"@,
        entitlements.token@,
    ).insert("X-Riot-ClientPlatform"@, client_platform()).insert(
        "X-Riot-ClientVersion"@,
        version,
    ).insert("Content-Type"@, "application/json"@)
}

/// The address of an endpoint of the regional game service.
pub open spec fn glz_url_of(region: Seq<char>, shard: Seq<char>, endpoint: Seq<char>) -> Seq<char> {
    let host = if lowercase_of(region) == "tr"@ {
        "eu"@
    } else {
        region
    };
    "https://glz-"@ + host + "-1."@ + shard + ".a.pvp.net"@ + endpoint
}

/// The address of an endpoint of the player data service.
pub open spec fn pd_url_of(shard: Seq<char>, endpoint: Seq<char>) -> Seq<char> {
    "https://pd."@ + shard + ".a.pvp.net"@ + endpoint
}

/// The signals that consist of a match history alone.
pub open spec fn history_signals(history: Map<Seq<char>, Seq<char>>) -> SignalsModel {
    SignalsModel { own_group: None, own_members: Seq::empty(), presences: Map::empty(), history }
}

/// The shard that serves a region, given in lower case.
pub fn shard_for(region: &str) -> (shard: String)
    ensures
        shard@ == shard_of_lower(region@),
{
    if str_eq(region, "eu") || str_eq(region, "tr") {
        String::from_str("eu")
    } else if str_eq(region, "na") || str_eq(region, "latam") || str_eq(region, "br") {
        String::from_str("na")
    } else if str_eq(region, "ap") {
        String::from_str("ap")
    } else if str_eq(region, "kr") {
        String::from_str("kr")
    } else {
        String::from_str("eu")
    }
}

/// The region that a launch argument names, if it is the deployment argument.
pub fn region_of_arg(arg: &str) -> (region: Option<String>)
    ensures
        match region {
            Some(r) => region_in(arg@) == Some(r@),
            None => region_in(arg@) is None,
        },
{
    if contains(arg, "-ares-deployment=") {
        let parts = split(arg, '=');
        if parts.len() > 1 {
            Some(parts[1].clone())
        } else {
            Some(String::from_str("tr"))
        }
    } else {
        None
    }
}

/// The shard that a launch argument names, if it is the endpoint argument.
pub fn shard_of_arg(arg: &str) -> (shard: Option<String>)
    ensures
        match shard {
            Some(s) => shard_in(arg@) == Some(s@),
            None => shard_in(arg@) is None,
        },
{
    if contains(arg, "-config-endpoint=") {
        let parts = split(arg, '=');
        if parts.len() > 1 {
            let labels = split(parts[1].as_str(), '.');
            if labels.len() > 1 {
                Some(labels[1].clone())
            } else {
                None
            }
        } else {
            None
        }
    } else {
        None
    }
}

/// Reads the lock file of the local client: its fields are separated by `:`, the third
/// is the port and the fourth the password.
pub fn parse_lockfile(content: &str) -> (r: Result<LocalCredentials, ApiError>)
    requires
        content@.len() <= MAX_PASSWORD_CHARS,
    ensures
        match r {
            Ok(credentials) => {
                &&& split_chars(content@, ':').len() >= 4
                &&& credentials.port@ == split_chars(content@, ':')[2]
                &&& credentials.auth@ == basic_auth_of(split_chars(content@, ':')[3])
            },
            Err(e) => {
                &&& split_chars(content@, ':').len() < 4
                &&& e matches ApiError::ParseError(detail)
                &&& detail@ == "Invalid lockfile"@
            },
        },
{
    let parts = split(content, ':');
    if parts.len() < 4 {
        return Err(ApiError::ParseError(String::from_str("Invalid lockfile")));
    }
    proof {
        lemma_split_piece_len(content@, ':', 0, 0);
        assert(parts@[3]@ == split_chars(content@, ':')[3]);
    }
    let port = parts[2].clone();
    let auth = basic_auth(parts[3].as_str());
    Ok(LocalCredentials { port, auth })
}

impl ValorantAPI {
    /// A session that is not set up yet.
    pub fn new() -> (api: Self)
        ensures
            api.puuid@.len() == 0,
            api.region@.len() == 0,
            api.shard@.len() == 0,
            api.local_port@.len() == 0,
            api.local_auth@.len() == 0,
            api.remote_headers@ == Map::<Seq<char>, Seq<char>>::empty(),
            !api.connected,
    {
        ValorantAPI {
            puuid: String::new(),
            region: String::new(),
            shard: String::new(),
            local_port: String::new(),
            local_auth: String::new(),
            remote_headers: Dict::new(),
            connected: false,
        }
    }

    /// Takes over what the lock file gave.
    pub fn set_local_credentials(&mut self, credentials: &LocalCredentials)
        ensures
            final(self).local_port@ == credentials.port@,
            final(self).local_auth@ == credentials.auth@,
            final(self).puuid == old(self).puuid,
            final(self).region == old(self).region,
            final(self).shard == old(self).shard,
            final(self).remote_headers == old(self).remote_headers,
            final(self).connected == old(self).connected,
    {
        self.local_port = credentials.port.clone();
        self.local_auth = credentials.auth.clone();
    }

    /// The shard that serves `region`.
    pub fn get_shard(&self, region: &str) -> (shard: String)
        ensures
            shard@ == shard_of(region@),
    {
        let lower = to_lowercase(region);
        shard_for(lower.as_str())
    }

    fn locate(&mut self, sessions: &Vec<SessionData>)
        ensures
            (final(self).region@, final(self).shard@) == after_sessions(
                (old(self).region@, old(self).shard@),
                sessions@,
                sessions@.len(),
            ),
            final(self).puuid == old(self).puuid,
            final(self).local_port == old(self).local_port,
            final(self).local_auth == old(self).local_auth,
            final(self).remote_headers == old(self).remote_headers,
            final(self).connected == old(self).connected,
    {
        let ghost start = (self.region@, self.shard@);
        let mut i: usize = 0;
        while i < sessions.len()
            invariant
                i <= sessions@.len(),
                (self.region@, self.shard@) == after_sessions(start, sessions@, i as nat),
                self.puuid == old(self).puuid,
                self.local_port == old(self).local_port,
                self.local_auth == old(self).local_auth,
                self.remote_headers == old(self).remote_headers,
                self.connected == old(self).connected,
            decreases sessions@.len() - i,
        {
            let ghost before = (self.region@, self.shard@);
            match &sessions[i].launch_configuration {
                Some(config) => match &config.arguments {
                    Some(args) => {
                        let mut j: usize = 0;
                        while j < args.len()
                            invariant
                                j <= args@.len(),
                                (self.region@, self.shard@) == after_args(before, args@, j as nat),
                                self.puuid == old(self).puuid,
                                self.local_port == old(self).local_port,
                                self.local_auth == old(self).local_auth,
                                self.remote_headers == old(self).remote_headers,
                                self.connected == old(self).connected,
                            decreases args@.len() - j,
                        {
                            let arg = args[j].as_str();
                            match region_of_arg(arg) {
                                Some(region) => {
                                    self.region = region;
                                },
                                None => {},
                            }
                            match shard_of_arg(arg) {
                                Some(shard) => {
                                    self.shard = shard;
                                },
                                None => {},
                            }
                            j += 1;
                        }
                    },
                    None => {},
                },
                None => {},
            }
            i += 1;
        }
    }

    /// Completes the setup of the session from the answers of the local client: the
    /// entitlements name the player and authorize the remote requests, the sessions'
    /// launch arguments name the region and the shard.
    pub fn initialize(
        &mut self,
        entitlements: &EntitlementsResponse,
        version: String,
        sessions: &Vec<SessionData>,
    ) -> (status: ConnectionStatus)
        ensures
            final(self).puuid@ == entitlements.subject@,
            final(self).remote_headers@ == headers_of(
                old(self).remote_headers@,
                *entitlements,
                version@,
            ),
            (final(self).region@, final(self).shard@) == located(
                (old(self).region@, old(self).shard@),
                sessions@,
            ),
            final(self).local_port == old(self).local_port,
            final(self).local_auth == old(self).local_auth,
            final(self).connected,
            status.connected,
            status.region@ == uppercase_of(final(self).region@),
            status.message@ == "Connected"@,
    {
        self.puuid = entitlements.subject.clone();
        let mut bearer = String::from_str("Bearer ");
        bearer.append(entitlements.access_token.as_str());
        self.remote_headers.insert(String::from_str("Authorization"), bearer);
        self.remote_headers.insert(
            String::from_str("X-Riot-Entitlements-JWT"),
            entitlements.token.clone(),
        );
        self.remote_headers.insert(
            String::from_str("X-Riot-ClientPlatform"),
            String::from_str(CLIENT_PLATFORM),
        );
        self.remote_headers.insert(String::from_str("X-Riot-ClientVersion"), version);
        self.remote_headers.insert(
            String::from_str("Content-Type"),
            String::from_str("application/json"),
        );
        self.locate(sessions);
        if self.region.as_str().is_empty() {
            self.region = String::from_str("tr");
        }
        if self.shard.as_str().is_empty() {
            self.shard = self.get_shard(self.region.as_str());
        }
        self.connected = true;
        ConnectionStatus {
            connected: true,
            region: to_uppercase(self.region.as_str()),
            message: String::from_str("Connected"),
        }
    }

    /// The address of an endpoint of the regional game service.
    pub fn glz_url(&self, endpoint: &str) -> (url: String)
        ensures
            url@ == glz_url_of(self.region@, self.shard@, endpoint@),
    {
        let lower = to_lowercase(self.region.as_str());
        let mut url = String::from_str("https://glz-");
        if str_eq(lower.as_str(), "tr") {
            url.append("eu");
        } else {
            url.append(self.region.as_str());
        }
        url.append("-1.");
        url.append(self.shard.as_str());
        url.append(".a.pvp.net");
        url.append(endpoint);
        url
    }

    /// The address of an endpoint of the player data service.
    pub fn pd_url(&self, endpoint: &str) -> (url: String)
        ensures
            url@ == pd_url_of(self.shard@, endpoint@),
    {
        let mut url = String::from_str("https://pd.");
        url.append(self.shard.as_str());
        url.append(".a.pvp.net");
        url.append(endpoint);
        url
    }

    /// The client version that the version service names, or the fallback.
    pub fn get_client_version(&self, data: &Option<VersionResponse>) -> (version: String)
        ensures
            version@ == client_version_of(*data),
    {
        match data {
            Some(d) => match &d.data {
                Some(v) => match &v.riot_client_version {
                    Some(version) => version.clone(),
                    None => String::from_str(FALLBACK_VERSION),
                },
                None => String::from_str(FALLBACK_VERSION),
            },
            None => String::from_str(FALLBACK_VERSION),
        }
    }

    /// The name shown for each player that the name service answered for.
    pub fn get_player_names(&self, data: &Vec<PlayerNameInfo>) -> (names: Dict<String>)
        ensures
            names@ == names_of(data@, data@.len()),
    {
        let mut names: Dict<String> = Dict::new();
        let mut i: usize = 0;
        while i < data.len()
            invariant
                i <= data@.len(),
                names@ == names_of(data@, i as nat),
            decreases data@.len() - i,
        {
            let info = &data[i];
            names.insert(info.subject.clone(), display_name(info));
            i += 1;
        }
        names
    }

    /// The party of each visible player that is in one. `privates` holds the decoded
    /// private part of each presence, position by position; presences beyond its end
    /// count as undecoded.
    pub fn get_presences(
        &self,
        data: &PresencesResponse,
        privates: &Vec<Option<PresencePrivate>>,
    ) -> (parties: Dict<String>)
        ensures
            parties@ == presences_of(
                data.presences@,
                privates@,
                shorter(data.presences@.len(), privates@.len()),
            ),
    {
        let count = if data.presences.len() <= privates.len() {
            data.presences.len()
        } else {
            privates.len()
        };
        let mut parties: Dict<String> = Dict::new();
        let mut i: usize = 0;
        while i < count
            invariant
                i <= count,
                count == shorter(data.presences@.len(), privates@.len()),
                parties@ == presences_of(data.presences@, privates@, i as nat),
            decreases count - i,
        {
            match &privates[i] {
                Some(private) => match &private.party_id {
                    Some(id) => {
                        if !id.as_str().is_empty() {
                            parties.insert(data.presences[i].puuid.clone(), id.clone());
                        }
                    },
                    None => {},
                },
                None => {},
            }
            i += 1;
        }
        parties
    }

    /// The caller's own party, from the answers of the party service: `party_id` is the
    /// party that it named for the caller, `party` its answer for that party.
    pub fn get_my_party(&self, party_id: Option<String>, party: &Option<PartyResponse>) -> (own:
        OwnParty)
        ensures
            own.group == party_id,
            party_id is Some ==> texts(own.members@) == own_members_of(self.puuid@, *party),
            party_id is None ==> own.members@.len() == 0,
    {
        let id = match party_id {
            Some(id) => id,
            None => {
                return OwnParty::none();
            },
        };
        let mut members: Vec<String> = Vec::new();
        match party {
            Some(p) => {
                let mut i: usize = 0;
                while i < p.members.len()
                    invariant
                        i <= p.members@.len(),
                        texts(members@) == named_members(p.members@, i as nat),
                    decreases p.members@.len() - i,
                {
                    let ghost before = texts(members@);
                    match &p.members[i].subject {
                        Some(subject) => {
                            members.push(subject.clone());
                            assert(texts(members@) =~= before.push(subject@));
                        },
                        None => {},
                    }
                    i += 1;
                }
            },
            None => {
                members.push(self.puuid.clone());
                assert(texts(members@) =~= seq![self.puuid@]);
            },
        }
        OwnParty { group: Some(id), members }
    }

    /// The competitive tier and rating of a player.
    pub fn get_player_mmr(&self, data: &Option<MmrResponse>) -> (mmr: (u32, u32))
        ensures
            mmr == mmr_of(*data),
    {
        match data {
            Some(d) => match &d.queue_skills {
                Some(q) => match &q.competitive {
                    Some(c) => (
                        match c.competitive_tier {
                            Some(t) => t,
                            None => 0,
                        },
                        match c.ranked_rating {
                            Some(r) => r,
                            None => 0,
                        },
                    ),
                    None => (0, 0),
                },
                None => (0, 0),
            },
            None => (0, 0),
        }
    }

    /// The identifiers of the recent matches of a player, none where the service did not
    /// answer.
    pub fn get_match_history(&self, data: &Option<MatchHistoryResponse>) -> (ids: Vec<String>)
        ensures
            texts(ids@) == match_ids_of(*data),
    {
        let mut ids: Vec<String> = Vec::new();
        match data {
            Some(d) => match &d.history {
                Some(h) => {
                    let mut i: usize = 0;
                    while i < h.len()
                        invariant
                            i <= h@.len(),
                            ids@.len() == i,
                            forall|j: int| 0 <= j < i ==> (#[trigger] ids@[j])@ == h@[j].match_id@,
                        decreases h@.len() - i,
                    {
                        ids.push(h[i].match_id.clone());
                        i += 1;
                    }
                    assert(texts(ids@) =~= match_ids_of(*data));
                },
                None => {
                    assert(texts(ids@) =~= match_ids_of(*data));
                },
            },
            None => {
                assert(texts(ids@) =~= match_ids_of(*data));
            },
        }
        ids
    }

    /// The parties of a roster, resolved from the signals alone.
    pub fn detect_parties(&self, puuids: &Vec<String>, signals: &Signals) -> (parties:
        PartyAssignment)
        ensures
            parties@ == display(resolved(empty_cache(), signals@, texts(puuids@)).groups),
    {
        let mut cache = SessionCache::new();
        cache.resolve_parties(puuids, signals)
    }

    /// The parties of a roster, resolved from the match history alone.
    pub fn detect_parties_via_history(
        &self,
        puuids: &Vec<String>,
        history: Dict<String>,
    ) -> (parties: PartyAssignment)
        ensures
            parties@ == display(
                resolved(empty_cache(), history_signals(history@), texts(puuids@)).groups,
            ),
    {
        let signals = Signals { own: OwnParty::none(), presences: Dict::new(), history };
        assert(signals@.own_members =~= Seq::<Seq<char>>::empty());
        assert(signals@ =~= history_signals(history@));
        let mut cache = SessionCache::new();
        cache.resolve_parties(puuids, &signals)
    }

    /// The parties of a roster, resolved from the signals and what the cache of the
    /// match in progress holds, which takes the result in.
    pub fn detect_parties_with_cache(
        &self,
        cache: &mut SessionCache,
        all_puuids: &Vec<String>,
        signals: &Signals,
    ) -> (parties: PartyAssignment)
        ensures
            final(cache)@ == resolved(old(cache)@, signals@, texts(all_puuids@)),
            parties@ == display(final(cache)@.groups),
    {
        cache.resolve_parties(all_puuids, signals)
    }
}

} // verus!
