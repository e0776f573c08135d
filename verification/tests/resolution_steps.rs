use valorant_overlay::api::types::{MatchDetailsResponse, MatchPlayer};
use valorant_overlay::commands::get_cached_parties;
use valorant_overlay::dict::Dict;
use valorant_overlay::party::cache::SessionCache;
use valorant_overlay::party::collect::{
    match_history_parties, match_players, Collected, ResolveAction, HISTORY_DEPTH,
};
use valorant_overlay::party::label::PartyLabel;
use valorant_overlay::party::signals::{contains_text, fast_evidence_in, OwnParty, Signals};

fn names(list: &[&str]) -> Vec<String> {
    list.iter().map(|n| n.to_string()).collect()
}

fn player(subject: &str, party: &str) -> MatchPlayer {
    MatchPlayer { subject: subject.to_string(), party_id: party.to_string(), team_id: None }
}

fn presences(pairs: &[(&str, &str)]) -> Dict<String> {
    let mut d = Dict::new();
    for (k, v) in pairs {
        d.insert(k.to_string(), v.to_string());
    }
    d
}

#[test]
fn lookups_come_in_order() {
    let cache = SessionCache::new();
    let roster = names(&["A", "B", "C"]);
    let mut c = Collected::new();
    assert!(matches!(cache.next_action(&roster, &c), ResolveAction::FetchOwnParty));
    c.own = Some(OwnParty { group: Some("G".to_string()), members: names(&["A"]) });
    assert!(matches!(cache.next_action(&roster, &c), ResolveAction::FetchPresences));
    c.presences = Some(presences(&[]));
    match cache.next_action(&roster, &c) {
        ResolveAction::FetchMatchHistory { player, count } => {
            assert_eq!(player, "B");
            assert_eq!(count, 2);
        }
        _ => panic!("the match history of the first unresolved player is wanted"),
    }
    c.match_ids = Some(names(&["m1", "m2", "m3"]));
    match cache.next_action(&roster, &c) {
        ResolveAction::FetchMatchDetails { match_id } => assert_eq!(match_id, "m1"),
        _ => panic!("the first match is looked into"),
    }
    c.matches.push(vec![player("B", "H")]);
    match cache.next_action(&roster, &c) {
        ResolveAction::FetchMatchDetails { match_id } => assert_eq!(match_id, "m2"),
        _ => panic!("the second match is looked into"),
    }
    c.matches.push(vec![]);
    assert!(matches!(cache.next_action(&roster, &c), ResolveAction::Finish));
    assert_eq!(HISTORY_DEPTH, 2);
}

#[test]
fn no_history_where_the_fast_signals_suffice() {
    let cache = SessionCache::new();
    let roster = names(&["A", "B"]);
    let mut c = Collected::new();
    c.own = Some(OwnParty { group: Some("G".to_string()), members: names(&["A"]) });
    c.presences = Some(presences(&[("B", "P")]));
    assert!(matches!(cache.next_action(&roster, &c), ResolveAction::Finish));
}

#[test]
fn fewer_matches_than_the_depth() {
    let cache = SessionCache::new();
    let roster = names(&["A"]);
    let mut c = Collected::new();
    c.own = Some(OwnParty::none());
    c.presences = Some(presences(&[]));
    c.match_ids = Some(names(&[]));
    assert!(matches!(cache.next_action(&roster, &c), ResolveAction::Finish));
    c.match_ids = Some(names(&["only"]));
    assert!(matches!(cache.next_action(&roster, &c), ResolveAction::FetchMatchDetails { .. }));
    c.matches.push(vec![]);
    assert!(matches!(cache.next_action(&roster, &c), ResolveAction::Finish));
}

#[test]
fn no_lookup_for_a_covered_roster() {
    let mut cache = SessionCache::new();
    let roster = names(&["A", "B"]);
    cache.resolve_parties(&roster, &Signals::empty());
    assert!(matches!(cache.next_action(&roster, &Collected::new()), ResolveAction::Finish));
    assert!(matches!(cache.next_action(&names(&[]), &Collected::new()), ResolveAction::Finish));
}

#[test]
fn no_lookup_where_only_consulted_players_are_left() {
    let mut cache = SessionCache::new();
    cache.mark_fetched(&names(&["A", "B"]));
    let roster = names(&["A", "B"]);
    assert!(!cache.covers(&roster));
    assert!(matches!(cache.next_action(&roster, &Collected::new()), ResolveAction::Finish));
}

#[test]
fn history_is_never_asked_of_a_consulted_player() {
    let mut cache = SessionCache::new();
    cache.mark_fetched(&names(&["A"]));
    let roster = names(&["A", "B"]);
    let mut c = Collected::new();
    c.own = Some(OwnParty::none());
    c.presences = Some(presences(&[]));
    match cache.next_action(&roster, &c) {
        ResolveAction::FetchMatchHistory { player, .. } => assert_eq!(player, "B"),
        _ => panic!("the match history of the open player is wanted"),
    }
}

#[test]
fn first_record_of_a_player_decides() {
    let matches = vec![
        vec![player("A", "new"), player("B", ""), player("A", "again")],
        vec![player("A", "old"), player("C", "old")],
    ];
    let h = match_history_parties(&matches);
    assert_eq!(h.len(), 3);
    assert_eq!(h.get(&"A".to_string()).map(|v| v.as_str()), Some("new"));
    assert_eq!(h.get(&"B".to_string()).map(|v| v.as_str()), Some(""));
    assert_eq!(h.get(&"C".to_string()).map(|v| v.as_str()), Some("old"));
    assert!(h.get(&"D".to_string()).is_none());
    assert_eq!(match_history_parties(&vec![]).len(), 0);
}

#[test]
fn players_of_a_missing_record() {
    assert_eq!(match_players(None).len(), 0);
    let bare = MatchDetailsResponse { match_info: None, players: None };
    assert_eq!(match_players(Some(bare)).len(), 0);
    let some = match_players(Some(MatchDetailsResponse {
        match_info: None,
        players: Some(vec![player("A", "p"), player("B", "q")]),
    }));
    assert_eq!(some.len(), 2);
    assert_eq!(some[1].subject, "B");
    assert_eq!(some[1].party_id, "q");
}

#[test]
fn collected_signals_are_resolved() {
    let mut cache = SessionCache::new();
    let mut c = Collected::new();
    c.own = Some(OwnParty { group: Some("G".to_string()), members: names(&["A", "B"]) });
    c.presences = Some(presences(&[("C", "P")]));
    c.match_ids = Some(names(&["m1"]));
    c.matches.push(vec![player("D", "P"), player("E", "")]);
    let a = get_cached_parties(&mut cache, &names(&["A", "B", "C", "D", "E"]), c);
    let of = |p: &str| *a.get(&p.to_string()).expect("resolved");
    assert_eq!(of("A"), PartyLabel::Group(1));
    assert_eq!(of("B"), PartyLabel::Group(1));
    assert_eq!(of("C"), PartyLabel::Group(2));
    assert_eq!(of("D"), PartyLabel::Group(2));
    assert_eq!(of("E"), PartyLabel::Solo);
}

#[test]
fn nothing_collected_means_no_groups() {
    let mut cache = SessionCache::new();
    let a = get_cached_parties(&mut cache, &names(&["A", "B"]), Collected::new());
    assert_eq!(a.len(), 2);
    assert_eq!(*a.get(&"A".to_string()).expect("resolved"), PartyLabel::Solo);
    let sig = Collected::new().into_signals();
    assert!(sig.own.group.is_none());
    assert_eq!(sig.presences.len(), 0);
    assert_eq!(sig.history.len(), 0);
}

#[test]
fn evidence_of_the_signals() {
    let sig = Signals {
        own: OwnParty { group: Some("G".to_string()), members: names(&["A"]) },
        presences: presences(&[("A", "P"), ("B", "P")]),
        history: presences(&[("C", "H"), ("D", "")]),
    };
    let of = |p: &str| sig.fast_evidence(&p.to_string()).map(|g| g.as_str().to_string());
    assert_eq!(of("A"), Some("G".to_string()));
    assert_eq!(of("B"), Some("P".to_string()));
    assert_eq!(of("C"), None);
    let past = |p: &str| sig.history_evidence(&p.to_string()).map(|g| g.as_str().to_string());
    assert_eq!(past("C"), Some("H".to_string()));
    assert_eq!(past("D"), None);
    assert_eq!(past("A"), None);
    let lone = OwnParty { group: None, members: names(&["A"]) };
    assert!(fast_evidence_in(&lone, &presences(&[]), &"A".to_string()).is_none());
    assert!(contains_text(&names(&["x", "y"]), &"y".to_string()));
    assert!(!contains_text(&names(&["x", "y"]), &"z".to_string()));
}
