use valorant_overlay::api::client::{
    current_party_id, display_name, parse_lockfile, private_payloads, region_of_arg, shard_for,
    shard_of_arg, ApiError, LocalCredentials, ValorantAPI,
};
use valorant_overlay::api::codec::{basic_auth, basic_header, decode_payload, payload_text};
use valorant_overlay::api::types::{
    CompetitiveSkill, EntitlementsResponse, LaunchConfig, MatchHistoryEntry,
    MatchHistoryResponse, MmrResponse, PartyMember, PartyPlayerResponse, PartyResponse,
    PlayerNameInfo, Presence, PresencePrivate, PresencesResponse, QueueSkills, SessionData,
    VersionData, VersionResponse,
};
use valorant_overlay::dict::Dict;
use valorant_overlay::party::label::PartyLabel;
use valorant_overlay::party::signals::{OwnParty, Signals};

fn s(text: &str) -> String {
    text.to_string()
}

fn session(args: &[&str]) -> SessionData {
    SessionData {
        launch_configuration: Some(LaunchConfig {
            arguments: Some(args.iter().map(|a| a.to_string()).collect()),
        }),
    }
}

fn entitlements() -> EntitlementsResponse {
    EntitlementsResponse { access_token: s("acc"), token: s("jwt"), subject: s("me") }
}

fn header(api: &ValorantAPI, name: &str) -> Option<String> {
    api.remote_headers.get(&s(name)).cloned()
}

#[test]
fn lockfile_gives_port_and_authorization() {
    let c = parse_lockfile("Riot Client:1234:5678:pw:https").expect("four fields are enough");
    assert_eq!(c.port, "5678");
    assert_eq!(c.auth, "Basic cmlvdDpwdw==");
    let exact = parse_lockfile("a:b:c:d").expect("exactly four fields");
    assert_eq!(exact.port, "c");
    assert_eq!(exact.auth, basic_auth("d"));
}

#[test]
fn lockfile_with_too_few_fields_is_refused() {
    for content in ["", "a:b:c", "no separators at all"] {
        match parse_lockfile(content) {
            Err(ApiError::ParseError(detail)) => assert_eq!(detail, "Invalid lockfile"),
            _ => panic!("a lock file of fewer than four fields is invalid"),
        }
    }
}

#[test]
fn lockfile_with_empty_fields() {
    let c = parse_lockfile(":::").expect("four empty fields");
    assert_eq!(c.port, "");
    assert_eq!(c.auth, "Basic cmlvdDo=");
}

#[test]
fn basic_authorization_is_base64_of_the_credential() {
    assert_eq!(basic_auth("pw"), "Basic cmlvdDpwdw==");
    assert_eq!(basic_auth(""), "Basic cmlvdDo=");
    assert_eq!(basic_header("abc"), "Basic abc");
}

#[test]
fn payload_is_base64_of_utf8_text() {
    assert_eq!(decode_payload("aGVsbG8="), Some(s("hello")));
    assert_eq!(decode_payload("w5Z6ZWw="), Some(s("Özel")));
    assert_eq!(decode_payload(""), Some(s("")));
    assert_eq!(decode_payload("not base64!"), None);
    assert_eq!(decode_payload("aGVsbG8"), None);
    assert_eq!(decode_payload("//79"), None);
    assert_eq!(payload_text(Some(vec![104, 105])), Some(s("hi")));
    assert_eq!(payload_text(Some(vec![0xff])), None);
    assert_eq!(payload_text(None), None);
}

#[test]
fn error_messages() {
    assert_eq!(ApiError::NotRunning.message(), "Valorant not running");
    assert_eq!(ApiError::RequestFailed(s("timeout")).message(), "Request failed: timeout");
    assert_eq!(ApiError::ParseError(s("bad json")).message(), "Parse error: bad json");
}

#[test]
fn names_with_and_without_tag_line() {
    let with = PlayerNameInfo { subject: s("p1"), game_name: s("Ace"), tag_line: s("EUW") };
    let without = PlayerNameInfo { subject: s("p2"), game_name: s("Solo"), tag_line: s("") };
    assert_eq!(display_name(&with), "Ace#EUW");
    assert_eq!(display_name(&without), "Solo");
    let again = PlayerNameInfo { subject: s("p1"), game_name: s("Late"), tag_line: s("2") };
    let api = ValorantAPI::new();
    let names = api.get_player_names(&vec![with, without, again]);
    assert_eq!(names.len(), 2);
    assert_eq!(names.get(&s("p1")).cloned(), Some(s("Late#2")));
    assert_eq!(names.get(&s("p2")).cloned(), Some(s("Solo")));
    assert_eq!(api.get_player_names(&vec![]).len(), 0);
}

#[test]
fn private_parts_are_decoded_in_order() {
    let data = PresencesResponse {
        presences: vec![
            Presence { puuid: s("a"), private: Some(s("eyJwYXJ0eUlkIjoiYWJjIn0=")) },
            Presence { puuid: s("b"), private: None },
            Presence { puuid: s("c"), private: Some(s("***")) },
            Presence { puuid: s("d"), private: Some(s("//79")) },
        ],
    };
    let texts = private_payloads(&data);
    assert_eq!(texts, vec![Some(s("{\"partyId\":\"abc\"}")), None, None, None]);
}

#[test]
fn presences_name_the_parties_of_friends() {
    let data = PresencesResponse {
        presences: vec![
            Presence { puuid: s("a"), private: Some(s("x")) },
            Presence { puuid: s("b"), private: Some(s("x")) },
            Presence { puuid: s("c"), private: Some(s("x")) },
            Presence { puuid: s("d"), private: None },
            Presence { puuid: s("a"), private: Some(s("x")) },
            Presence { puuid: s("e"), private: Some(s("x")) },
        ],
    };
    let privates = vec![
        Some(PresencePrivate { party_id: Some(s("Q1")) }),
        Some(PresencePrivate { party_id: Some(s("")) }),
        Some(PresencePrivate { party_id: None }),
        None,
        Some(PresencePrivate { party_id: Some(s("Q2")) }),
    ];
    let api = ValorantAPI::new();
    let parties = api.get_presences(&data, &privates);
    assert_eq!(parties.len(), 1);
    assert_eq!(parties.get(&s("a")).cloned(), Some(s("Q2")));
    assert!(parties.get(&s("b")).is_none());
    assert!(parties.get(&s("e")).is_none());
    assert_eq!(api.get_presences(&data, &vec![]).len(), 0);
}

#[test]
fn own_party_from_the_party_service() {
    let mut api = ValorantAPI::new();
    api.puuid = s("me");
    let none = api.get_my_party(None, &None);
    assert!(none.group.is_none());
    assert!(none.members.is_empty());
    let alone = api.get_my_party(Some(s("G")), &None);
    assert_eq!(alone.group, Some(s("G")));
    assert_eq!(alone.members, vec![s("me")]);
    let party = PartyResponse {
        members: vec![
            PartyMember { subject: Some(s("me")) },
            PartyMember { subject: None },
            PartyMember { subject: Some(s("friend")) },
        ],
    };
    let full = api.get_my_party(Some(s("G")), &Some(party));
    assert_eq!(full.group, Some(s("G")));
    assert_eq!(full.members, vec![s("me"), s("friend")]);
    let ignored = api.get_my_party(None, &Some(PartyResponse { members: vec![] }));
    assert!(ignored.group.is_none());
    assert!(ignored.members.is_empty());
}

#[test]
fn party_named_for_the_caller() {
    assert_eq!(current_party_id(&None), None);
    assert_eq!(current_party_id(&Some(PartyPlayerResponse { current_party_id: None })), None);
    assert_eq!(
        current_party_id(&Some(PartyPlayerResponse { current_party_id: Some(s("G")) })),
        Some(s("G"))
    );
}

#[test]
fn rating_defaults_to_zero() {
    let api = ValorantAPI::new();
    assert_eq!(api.get_player_mmr(&None), (0, 0));
    assert_eq!(api.get_player_mmr(&Some(MmrResponse { queue_skills: None })), (0, 0));
    assert_eq!(
        api.get_player_mmr(&Some(MmrResponse {
            queue_skills: Some(QueueSkills { competitive: None })
        })),
        (0, 0)
    );
    let skill = |tier, rr| {
        Some(MmrResponse {
            queue_skills: Some(QueueSkills {
                competitive: Some(CompetitiveSkill { competitive_tier: tier, ranked_rating: rr }),
            }),
        })
    };
    assert_eq!(api.get_player_mmr(&skill(Some(21), Some(57))), (21, 57));
    assert_eq!(api.get_player_mmr(&skill(None, Some(57))), (0, 57));
    assert_eq!(api.get_player_mmr(&skill(Some(21), None)), (21, 0));
}

#[test]
fn match_identifiers_in_order() {
    let api = ValorantAPI::new();
    assert!(api.get_match_history(&None).is_empty());
    let silent = MatchHistoryResponse { subject: None, history: None };
    assert!(api.get_match_history(&Some(silent)).is_empty());
    let entry =
        |id: &str| MatchHistoryEntry { match_id: s(id), game_start_time: None, queue_id: None };
    let data = MatchHistoryResponse {
        subject: Some(s("me")),
        history: Some(vec![entry("m2"), entry("m1")]),
    };
    assert_eq!(api.get_match_history(&Some(data)), vec![s("m2"), s("m1")]);
}

#[test]
fn client_version_or_fallback() {
    let api = ValorantAPI::new();
    let fallback = "release-09.10-shipping-18-2775386";
    assert_eq!(api.get_client_version(&None), fallback);
    assert_eq!(api.get_client_version(&Some(VersionResponse { data: None })), fallback);
    assert_eq!(
        api.get_client_version(&Some(VersionResponse {
            data: Some(VersionData { riot_client_version: None })
        })),
        fallback
    );
    assert_eq!(
        api.get_client_version(&Some(VersionResponse {
            data: Some(VersionData { riot_client_version: Some(s("release-10.0")) })
        })),
        "release-10.0"
    );
}

#[test]
fn shards_by_region() {
    let api = ValorantAPI::new();
    for (region, shard) in [
        ("eu", "eu"),
        ("tr", "eu"),
        ("na", "na"),
        ("latam", "na"),
        ("br", "na"),
        ("ap", "ap"),
        ("kr", "kr"),
        ("xx", "eu"),
        ("", "eu"),
    ] {
        assert_eq!(shard_for(region), shard);
        assert_eq!(api.get_shard(region), shard);
    }
    assert_eq!(api.get_shard("NA"), "na");
    assert_eq!(api.get_shard("Kr"), "kr");
    assert_eq!(shard_for("NA"), "eu");
}

#[test]
fn launch_arguments_name_region_and_shard() {
    assert_eq!(region_of_arg("-ares-deployment=eu"), Some(s("eu")));
    assert_eq!(region_of_arg("x-ares-deployment=na=zz"), Some(s("na")));
    assert_eq!(region_of_arg("-ares-deployment"), None);
    assert_eq!(region_of_arg("-other=eu"), None);
    assert_eq!(shard_of_arg("-config-endpoint=https://shared.eu.a.pvp.net"), Some(s("eu")));
    assert_eq!(shard_of_arg("-config-endpoint=localhost"), None);
    assert_eq!(shard_of_arg("-config-endpoint="), None);
    assert_eq!(shard_of_arg("-ares-deployment=eu"), None);
}

#[test]
fn a_new_session_is_empty() {
    let api = ValorantAPI::new();
    assert!(!api.connected);
    assert_eq!(api.puuid, "");
    assert_eq!(api.region, "");
    assert_eq!(api.shard, "");
    assert_eq!(api.local_port, "");
    assert_eq!(api.local_auth, "");
    assert_eq!(api.remote_headers.len(), 0);
}

#[test]
fn setup_reads_region_and_shard_from_the_sessions() {
    let mut api = ValorantAPI::new();
    api.set_local_credentials(&LocalCredentials { port: s("5678"), auth: s("Basic x") });
    assert_eq!(api.local_port, "5678");
    assert_eq!(api.local_auth, "Basic x");
    let sessions = vec![
        SessionData { launch_configuration: None },
        SessionData { launch_configuration: Some(LaunchConfig { arguments: None }) },
        session(&["-ares-deployment=na", "-config-endpoint=https://shared.na.a.pvp.net", "-x"]),
    ];
    let status = api.initialize(&entitlements(), s("v1"), &sessions);
    assert!(status.connected);
    assert_eq!(status.region, "NA");
    assert_eq!(status.message, "Connected");
    assert!(api.connected);
    assert_eq!(api.puuid, "me");
    assert_eq!(api.region, "na");
    assert_eq!(api.shard, "na");
    assert_eq!(api.local_port, "5678");
    assert_eq!(api.remote_headers.len(), 5);
    assert_eq!(header(&api, "Authorization"), Some(s("Bearer acc")));
    assert_eq!(header(&api, "X-Riot-Entitlements-JWT"), Some(s("jwt")));
    assert_eq!(header(&api, "X-Riot-ClientVersion"), Some(s("v1")));
    assert_eq!(header(&api, "Content-Type"), Some(s("application/json")));
    let platform = header(&api, "X-Riot-ClientPlatform").expect("set");
    assert!(platform.starts_with("ew0KCSJwbGF0Zm9ybVR5cGUi"));
    assert!(platform.ends_with("IlVua25vd24iDQp9"));
    assert_eq!(platform.len(), 180);
}

#[test]
fn setup_falls_back_to_the_default_region() {
    let mut api = ValorantAPI::new();
    let status = api.initialize(&entitlements(), s("v1"), &vec![]);
    assert_eq!(api.region, "tr");
    assert_eq!(api.shard, "eu");
    assert_eq!(status.region, "TR");
}

#[test]
fn setup_derives_the_shard_from_the_region() {
    let mut api = ValorantAPI::new();
    let status = api.initialize(&entitlements(), s("v1"), &vec![session(&["-ares-deployment=KR"])]);
    assert_eq!(api.region, "KR");
    assert_eq!(api.shard, "kr");
    assert_eq!(status.region, "KR");
}

#[test]
fn setup_keeps_a_known_region_and_the_last_argument_wins() {
    let mut api = ValorantAPI::new();
    api.region = s("ap");
    api.shard = s("ap");
    api.initialize(&entitlements(), s("v1"), &vec![]);
    assert_eq!(api.region, "ap");
    assert_eq!(api.shard, "ap");
    api.initialize(
        &entitlements(),
        s("v2"),
        &vec![session(&["-ares-deployment=eu"]), session(&["-ares-deployment=br"])],
    );
    assert_eq!(api.region, "br");
    assert_eq!(api.shard, "ap");
    assert_eq!(header(&api, "X-Riot-ClientVersion"), Some(s("v2")));
    assert_eq!(api.remote_headers.len(), 5);
}

#[test]
fn service_addresses() {
    let mut api = ValorantAPI::new();
    api.region = s("na");
    api.shard = s("na");
    assert_eq!(
        api.glz_url("/pregame/v1/players/x"),
        "https://glz-na-1.na.a.pvp.net/pregame/v1/players/x"
    );
    assert_eq!(api.pd_url("/mmr/v1/players/x"), "https://pd.na.a.pvp.net/mmr/v1/players/x");
    api.region = s("TR");
    api.shard = s("eu");
    assert_eq!(api.glz_url(""), "https://glz-eu-1.eu.a.pvp.net");
    api.region = s("Ap");
    assert_eq!(api.glz_url("/x"), "https://glz-Ap-1.eu.a.pvp.net/x");
}

#[test]
fn parties_detected_without_a_cache() {
    let api = ValorantAPI::new();
    let roster: Vec<String> = ["A", "B", "C"].iter().map(|p| p.to_string()).collect();
    let mut history = Dict::new();
    history.insert(s("A"), s(""));
    history.insert(s("B"), s("pg1"));
    history.insert(s("C"), s("pg1"));
    let a = api.detect_parties_via_history(&roster, history);
    assert_eq!(*a.get(&s("A")).expect("resolved"), PartyLabel::Solo);
    assert_eq!(*a.get(&s("B")).expect("resolved"), PartyLabel::Group(1));
    assert_eq!(*a.get(&s("C")).expect("resolved"), PartyLabel::Group(1));
    let signals = Signals {
        own: OwnParty { group: Some(s("G")), members: vec![s("A"), s("C")] },
        presences: Dict::new(),
        history: Dict::new(),
    };
    let b = api.detect_parties(&roster, &signals);
    assert_eq!(*b.get(&s("A")).expect("resolved"), PartyLabel::Group(1));
    assert_eq!(*b.get(&s("B")).expect("resolved"), PartyLabel::Solo);
    assert_eq!(*b.get(&s("C")).expect("resolved"), PartyLabel::Group(1));
    let mut cache = valorant_overlay::party::cache::SessionCache::new();
    let c = api.detect_parties_with_cache(&mut cache, &roster, &signals);
    assert_eq!(*c.get(&s("C")).expect("resolved"), PartyLabel::Group(1));
    assert!(cache.covers(&roster));
}
