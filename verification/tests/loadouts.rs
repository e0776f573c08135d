use valorant_overlay::api::types::{
    LoadoutData, LoadoutItem, LoadoutsResponse, PlayerLoadout, PregameLoadoutData,
    PregameLoadoutsResponse, SocketItem, SocketItemData,
};
use valorant_overlay::commands::{get_auto_lock, get_player_loadout, set_auto_lock, MatchLoadouts};
use valorant_overlay::loadout::{chroma, weapon_skins, LoadoutAction, LoadoutCache, LoadoutError};
use valorant_overlay::party::model::Phase;
use valorant_overlay::party::signals::Signals;
use valorant_overlay::state::AppState;

const CHROMA: &str = "3ad1b2b2-acdb-4524-852f-954a76ddae0a";

fn s(text: &str) -> String {
    text.to_string()
}

fn socket(type_id: &str, id: &str) -> (String, SocketItem) {
    (
        s("socket"),
        SocketItem { id: s("sock"), item: SocketItemData { id: s(id), type_id: s(type_id) } },
    )
}

fn item(id: &str, sockets: Option<Vec<(String, SocketItem)>>) -> LoadoutItem {
    LoadoutItem { id: s(id), type_id: s("skin"), sockets }
}

fn items() -> Vec<(String, LoadoutItem)> {
    vec![
        (s("vandal"), item("prime", Some(vec![socket("other", "x"), socket(CHROMA, "blue")]))),
        (s("knife"), item("plain", None)),
    ]
}

#[test]
fn chroma_is_what_sits_in_the_last_chroma_socket() {
    assert_eq!(chroma(&item("a", None)), None);
    assert_eq!(chroma(&item("a", Some(vec![]))), None);
    assert_eq!(chroma(&item("a", Some(vec![socket("other", "x")]))), None);
    let first = item("a", Some(vec![socket(CHROMA, "c1"), socket("other", "x")]));
    assert_eq!(chroma(&first), Some(s("c1")));
    let twice = item("a", Some(vec![socket(CHROMA, "c1"), socket(CHROMA, "c2")]));
    assert_eq!(chroma(&twice), Some(s("c2")));
}

#[test]
fn skins_weapon_by_weapon() {
    let data = weapon_skins(&s("p"), &items());
    assert_eq!(data.puuid, "p");
    assert_eq!(data.skins.len(), 2);
    assert_eq!(data.skins[0].weapon_id, "vandal");
    assert_eq!(data.skins[0].skin_id, "prime");
    assert_eq!(data.skins[0].chroma_id, Some(s("blue")));
    assert_eq!(data.skins[1].weapon_id, "knife");
    assert_eq!(data.skins[1].skin_id, "plain");
    assert_eq!(data.skins[1].chroma_id, None);
    assert!(weapon_skins(&s("q"), &vec![]).skins.is_empty());
}

#[test]
fn cache_belongs_to_one_match() {
    let mut cache = LoadoutCache::new();
    assert!(cache.get(&s("p")).is_none());
    cache.observe_match(&s("m1"));
    cache.store_pregame(&PregameLoadoutsResponse {
        loadouts: vec![
            PregameLoadoutData { subject: s("p"), items: items() },
            PregameLoadoutData { subject: s("q"), items: vec![] },
        ],
        loadouts_valid: Some(true),
    });
    assert_eq!(cache.get(&s("p")).expect("stored").skins.len(), 2);
    assert_eq!(cache.get(&s("q")).expect("stored").skins.len(), 0);
    cache.observe_match(&s("m1"));
    assert!(cache.get(&s("p")).is_some());
    cache.observe_match(&s("m2"));
    assert!(cache.get(&s("p")).is_none());
    cache.store_coregame(&LoadoutsResponse {
        loadouts: vec![
            PlayerLoadout {
                character_id: s("c"),
                loadout: LoadoutData { subject: s("r"), items: items() },
            },
            PlayerLoadout {
                character_id: s("c"),
                loadout: LoadoutData { subject: s("r"), items: vec![] },
            },
        ],
    });
    let r = cache.get(&s("r")).expect("stored");
    assert_eq!(r.puuid, "r");
    assert!(r.skins.is_empty());
    cache.clear();
    assert!(cache.get(&s("r")).is_none());
}

fn step(action: LoadoutAction) -> String {
    match action {
        LoadoutAction::Fail(e) => format!("fail {}", e.message()),
        LoadoutAction::Cached => s("cached"),
        LoadoutAction::FetchCoregameId => s("coregame-id"),
        LoadoutAction::FetchPregameId => s("pregame-id"),
        LoadoutAction::FetchCoregameLoadouts { match_id } => format!("coregame {}", match_id),
        LoadoutAction::FetchPregameLoadouts { match_id } => format!("pregame {}", match_id),
    }
}

#[test]
fn steps_towards_a_loadout() {
    let mut cache = LoadoutCache::new();
    let p = s("p");
    assert_eq!(step(cache.next_action(false, &p, &None, &None)), "fail Not connected");
    assert_eq!(step(cache.next_action(true, &p, &None, &None)), "coregame-id");
    assert_eq!(step(cache.next_action(true, &p, &Some(Some(s("m"))), &None)), "coregame m");
    assert_eq!(step(cache.next_action(true, &p, &Some(None), &None)), "pregame-id");
    assert_eq!(step(cache.next_action(true, &p, &Some(None), &Some(Some(s("n"))))), "pregame n");
    assert_eq!(step(cache.next_action(true, &p, &Some(None), &Some(None))), "fail Not in game");
    cache.store_pregame(&PregameLoadoutsResponse {
        loadouts: vec![PregameLoadoutData { subject: s("p"), items: vec![] }],
        loadouts_valid: None,
    });
    assert_eq!(step(cache.next_action(true, &p, &None, &None)), "cached");
    assert_eq!(step(cache.next_action(false, &p, &None, &None)), "fail Not connected");
    assert_eq!(LoadoutError::NotConnected.message(), "Not connected");
    assert_eq!(LoadoutError::NotInGame.message(), "Not in game");
}

#[test]
fn shared_state_starts_empty_and_follows_the_phase() {
    let mut state = AppState::new();
    assert!(!state.api.connected);
    assert_eq!(state.api.puuid, "");
    assert_eq!(state.api.region, "");
    assert_eq!(state.api.shard, "");
    assert_eq!(state.api.local_port, "");
    assert_eq!(state.api.local_auth, "");
    assert_eq!(state.api.remote_headers.len(), 0);
    assert!(!state.parties.is_active());
    assert_eq!(state.parties.assignment().len(), 0);
    assert_eq!(get_auto_lock(&state), None);
    set_auto_lock(&mut state, Some(s("Jett")));
    assert_eq!(get_auto_lock(&state), Some(s("Jett")));
    state.loadouts.observe_match(&s("m"));
    state.loadouts.store_pregame(&PregameLoadoutsResponse {
        loadouts: vec![PregameLoadoutData { subject: s("p"), items: vec![] }],
        loadouts_valid: None,
    });
    state.parties.resolve_parties(&vec![s("p")], &Signals::empty());
    state.notify_phase(Phase::Pregame);
    state.notify_phase(Phase::InGame);
    assert!(state.loadouts.get(&s("p")).is_some());
    assert!(state.parties.is_resolved(&s("p")));
    assert!(state.parties.is_active());
    state.notify_phase(Phase::Idle);
    assert!(state.loadouts.get(&s("p")).is_none());
    assert!(!state.parties.is_resolved(&s("p")));
    assert!(!state.parties.is_active());
    assert_eq!(get_auto_lock(&state), Some(s("Jett")));
    set_auto_lock(&mut state, None);
    assert_eq!(get_auto_lock(&state), None);
}

#[test]
fn loadout_of_a_player_after_the_lookup() {
    let mut cache = LoadoutCache::new();
    let pregame = Some(MatchLoadouts::Pregame(PregameLoadoutsResponse {
        loadouts: vec![PregameLoadoutData { subject: s("p"), items: items() }],
        loadouts_valid: None,
    }));
    let found = get_player_loadout(&mut cache, &s("p"), &s("m1"), &pregame).expect("stored");
    assert_eq!(found.puuid, "p");
    assert_eq!(found.skins.len(), 2);
    assert_eq!(found.skins[0].weapon_id, "vandal");
    assert_eq!(found.skins[0].skin_id, "prime");
    assert_eq!(found.skins[0].chroma_id, Some(s("blue")));
    assert_eq!(found.skins[1].chroma_id, None);
    assert!(get_player_loadout(&mut cache, &s("q"), &s("m1"), &pregame).is_none());
    assert!(cache.get(&s("p")).is_some());
    assert!(get_player_loadout(&mut cache, &s("p"), &s("m1"), &None).is_none());
    assert!(cache.get(&s("p")).is_some());
    assert!(get_player_loadout(&mut cache, &s("p"), &s("m2"), &None).is_none());
    assert!(cache.get(&s("p")).is_none());
    let coregame = Some(MatchLoadouts::Coregame(LoadoutsResponse {
        loadouts: vec![PlayerLoadout {
            character_id: s("c"),
            loadout: LoadoutData { subject: s("r"), items: vec![] },
        }],
    }));
    let other = get_player_loadout(&mut cache, &s("r"), &s("m2"), &coregame).expect("stored");
    assert_eq!(other.puuid, "r");
    assert!(other.skins.is_empty());
}
