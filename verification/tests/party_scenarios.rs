use valorant_overlay::dict::Dict;
use valorant_overlay::party::cache::SessionCache;
use valorant_overlay::party::label::PartyLabel;
use valorant_overlay::party::model::Phase;
use valorant_overlay::party::signals::{OwnParty, Signals};

fn s(text: &str) -> String {
    text.to_string()
}

fn roster(names: &[&str]) -> Vec<String> {
    names.iter().map(|n| n.to_string()).collect()
}

fn map(pairs: &[(&str, &str)]) -> Dict<String> {
    let mut d = Dict::new();
    for (k, v) in pairs {
        d.insert(k.to_string(), v.to_string());
    }
    d
}

fn own(group: &str, members: &[&str]) -> OwnParty {
    OwnParty { group: Some(s(group)), members: roster(members) }
}

fn signals(own: OwnParty, presences: &[(&str, &str)], history: &[(&str, &str)]) -> Signals {
    Signals { own, presences: map(presences), history: map(history) }
}

fn label(a: &Dict<PartyLabel>, p: &str) -> PartyLabel {
    *a.get(&s(p)).expect("the player is in the assignment")
}

fn pairs(a: &Dict<PartyLabel>) -> Vec<(String, PartyLabel)> {
    let mut out = Vec::new();
    for i in 0..a.len() {
        let k = a.key_at(i).clone();
        let v = *a.get(&k).expect("a key has a value");
        out.push((k, v));
    }
    out.sort_by(|x, y| x.0.cmp(&y.0));
    out
}

#[test]
fn own_party_and_lone_presence() {
    let mut cache = SessionCache::new();
    let sig = signals(own("G", &["A", "B"]), &[("C", "G2")], &[]);
    let a = cache.resolve_parties(&roster(&["A", "B", "C", "D"]), &sig);
    assert_eq!(label(&a, "A"), PartyLabel::Group(1));
    assert_eq!(label(&a, "B"), PartyLabel::Group(1));
    assert_eq!(label(&a, "C"), PartyLabel::Solo);
    assert_eq!(label(&a, "D"), PartyLabel::Solo);
    assert_eq!(label(&a, "A").to_text(), "Group-1");
    assert_eq!(label(&a, "C").to_text(), "Solo");
    assert_eq!(a.len(), 4);
}

#[test]
fn history_with_an_unaffiliated_player() {
    let mut cache = SessionCache::new();
    let sig = signals(OwnParty::none(), &[], &[("A", ""), ("B", "pg1"), ("C", "pg1")]);
    let a = cache.resolve_parties(&roster(&["A", "B", "C"]), &sig);
    assert_eq!(label(&a, "A"), PartyLabel::Solo);
    assert_eq!(label(&a, "B"), PartyLabel::Group(1));
    assert_eq!(label(&a, "C"), PartyLabel::Group(1));
}

#[test]
fn later_roster_joins_the_existing_group() {
    let mut cache = SessionCache::new();
    let first = signals(own("G", &["A", "B", "D"]), &[], &[]);
    let a = cache.resolve_parties(&roster(&["A", "B"]), &first);
    assert_eq!(label(&a, "A"), PartyLabel::Group(1));
    assert_eq!(label(&a, "B"), PartyLabel::Group(1));
    let second = signals(own("G", &["A", "B", "D"]), &[("C", "H")], &[]);
    let b = cache.resolve_parties(&roster(&["A", "B", "C", "D"]), &second);
    assert_eq!(label(&b, "A"), PartyLabel::Group(1));
    assert_eq!(label(&b, "D"), PartyLabel::Group(1));
    assert_eq!(label(&b, "B"), PartyLabel::Group(1));
    assert_eq!(label(&b, "C"), PartyLabel::Solo);
}

#[test]
fn second_resolution_of_a_roster_is_a_hit() {
    let mut cache = SessionCache::new();
    let r = roster(&["A", "B", "C"]);
    let first = signals(own("G", &["A", "B"]), &[], &[]);
    let a = cache.resolve_parties(&r, &first);
    let other = signals(own("X", &["C"]), &[("A", "Y"), ("C", "Y")], &[("B", "Z"), ("C", "Z")]);
    let b = cache.resolve_parties(&r, &other);
    assert_eq!(pairs(&a), pairs(&b));
    assert_eq!(
        pairs(&b),
        vec![
            (s("A"), PartyLabel::Group(1)),
            (s("B"), PartyLabel::Group(1)),
            (s("C"), PartyLabel::Solo)
        ]
    );
    assert!(cache.covers(&r));
}

#[test]
fn a_hit_hands_back_the_whole_cached_assignment() {
    let mut cache = SessionCache::new();
    let sig = signals(own("G", &["A", "B"]), &[], &[]);
    cache.resolve_parties(&roster(&["A", "B", "C"]), &sig);
    let a = cache.resolve_parties(&roster(&["B"]), &Signals::empty());
    assert_eq!(a.len(), 3);
    assert_eq!(label(&a, "B"), PartyLabel::Group(1));
}

#[test]
fn no_group_has_a_single_member() {
    let mut cache = SessionCache::new();
    let sig = signals(
        own("G", &["A"]),
        &[("B", "Q1"), ("C", "Q2"), ("D", "Q2")],
        &[("E", "H1"), ("F", "H2"), ("G", "H2"), ("H", "")],
    );
    let a = cache.resolve_parties(&roster(&["A", "B", "C", "D", "E", "F", "G", "H"]), &sig);
    let all = pairs(&a);
    for (p, l) in &all {
        if *l != PartyLabel::Solo {
            let size = all.iter().filter(|(_, other)| other == l).count();
            assert!(size >= 2, "{} is alone in its group", p);
        }
    }
    assert_eq!(label(&a, "A"), PartyLabel::Solo);
    assert_eq!(label(&a, "B"), PartyLabel::Solo);
    assert_eq!(label(&a, "C"), PartyLabel::Group(3));
    assert_eq!(label(&a, "D"), PartyLabel::Group(3));
    assert_eq!(label(&a, "E"), PartyLabel::Solo);
    assert_eq!(label(&a, "F"), PartyLabel::Group(5));
    assert_eq!(label(&a, "G"), PartyLabel::Group(5));
    assert_eq!(label(&a, "H"), PartyLabel::Solo);
}

#[test]
fn one_group_seen_by_several_signals_has_one_label() {
    let mut cache = SessionCache::new();
    let sig = signals(own("G", &["A"]), &[("B", "G"), ("C", "K")], &[("D", "G"), ("E", "K")]);
    let a = cache.resolve_parties(&roster(&["A", "B", "C", "D", "E"]), &sig);
    assert_eq!(label(&a, "A"), PartyLabel::Group(1));
    assert_eq!(label(&a, "B"), PartyLabel::Group(1));
    assert_eq!(label(&a, "D"), PartyLabel::Group(1));
    assert_eq!(label(&a, "C"), PartyLabel::Group(2));
    assert_eq!(label(&a, "E"), PartyLabel::Group(2));
}

#[test]
fn groups_are_numbered_in_the_order_first_seen() {
    let mut cache = SessionCache::new();
    let sig = signals(
        OwnParty::none(),
        &[("C", "P"), ("D", "P")],
        &[("A", "H"), ("B", "H")],
    );
    let a = cache.resolve_parties(&roster(&["A", "B", "C", "D"]), &sig);
    assert_eq!(label(&a, "C"), PartyLabel::Group(1));
    assert_eq!(label(&a, "D"), PartyLabel::Group(1));
    assert_eq!(label(&a, "A"), PartyLabel::Group(2));
    assert_eq!(label(&a, "B"), PartyLabel::Group(2));
}

#[test]
fn own_party_goes_before_presence_and_presence_before_history() {
    let mut cache = SessionCache::new();
    let sig = signals(
        own("G", &["A", "B"]),
        &[("A", "P"), ("C", "P"), ("D", "P")],
        &[("B", "H"), ("C", "H"), ("E", "H"), ("F", "H")],
    );
    let a = cache.resolve_parties(&roster(&["A", "B", "C", "D", "E", "F"]), &sig);
    assert_eq!(label(&a, "A"), PartyLabel::Group(1));
    assert_eq!(label(&a, "B"), PartyLabel::Group(1));
    assert_eq!(label(&a, "C"), PartyLabel::Group(2));
    assert_eq!(label(&a, "D"), PartyLabel::Group(2));
    assert_eq!(label(&a, "E"), PartyLabel::Group(3));
    assert_eq!(label(&a, "F"), PartyLabel::Group(3));
}

#[test]
fn a_new_member_lifts_the_demotion_and_keeps_every_group() {
    let mut cache = SessionCache::new();
    let first = signals(own("G", &["A", "B"]), &[("C", "K")], &[]);
    let a = cache.resolve_parties(&roster(&["A", "B", "C"]), &first);
    assert_eq!(label(&a, "A"), PartyLabel::Group(1));
    assert_eq!(label(&a, "C"), PartyLabel::Solo);
    let second = signals(OwnParty::none(), &[("A", "Z"), ("E", "K")], &[("D", "M")]);
    let b = cache.resolve_parties(&roster(&["A", "B", "C", "D", "E"]), &second);
    assert_eq!(label(&b, "A"), PartyLabel::Group(1));
    assert_eq!(label(&b, "B"), PartyLabel::Group(1));
    assert_eq!(label(&b, "C"), PartyLabel::Group(2));
    assert_eq!(label(&b, "E"), PartyLabel::Group(2));
    assert_eq!(label(&b, "D"), PartyLabel::Solo);
}

#[test]
fn a_consulted_player_stays_without_a_group() {
    let mut cache = SessionCache::new();
    cache.mark_fetched(&roster(&["A"]));
    assert!(cache.is_fetched(&s("A")));
    assert!(!cache.is_fetched(&s("B")));
    assert!(!cache.is_open(&s("A")));
    assert!(cache.is_open(&s("B")));
    let sig = signals(own("G", &["A", "B"]), &[("A", "P")], &[("A", "H"), ("B", "H"), ("C", "H")]);
    let a = cache.resolve_parties(&roster(&["A", "B", "C"]), &sig);
    assert_eq!(label(&a, "A"), PartyLabel::Solo);
    assert_eq!(label(&a, "B"), PartyLabel::Solo);
    assert_eq!(label(&a, "C"), PartyLabel::Solo);
    assert!(cache.is_fetched(&s("B")));
    assert!(cache.is_fetched(&s("C")));
    assert!(cache.is_resolved(&s("A")));
}

#[test]
fn resolution_marks_the_roster_as_consulted() {
    let mut cache = SessionCache::new();
    cache.resolve_parties(&roster(&["A", "B"]), &Signals::empty());
    assert!(cache.is_fetched(&s("A")));
    assert!(cache.is_fetched(&s("B")));
    assert!(!cache.is_fetched(&s("C")));
    assert!(cache.is_active());
}

#[test]
fn a_poll_without_a_match_empties_the_cache() {
    let mut cache = SessionCache::new();
    let first = signals(own("G", &["A", "B"]), &[("C", "K"), ("D", "K")], &[]);
    let a = cache.resolve_parties(&roster(&["A", "B", "C", "D"]), &first);
    assert_eq!(label(&a, "C"), PartyLabel::Group(2));
    cache.notify_phase(Phase::Idle);
    assert!(!cache.is_active());
    assert!(!cache.is_fetched(&s("A")));
    assert!(!cache.is_resolved(&s("A")));
    assert_eq!(cache.assignment().len(), 0);
    let second = signals(OwnParty::none(), &[("C", "K"), ("D", "K")], &[]);
    let b = cache.resolve_parties(&roster(&["C", "D", "E"]), &second);
    assert_eq!(b.len(), 3);
    assert_eq!(label(&b, "C"), PartyLabel::Group(1));
    assert_eq!(label(&b, "D"), PartyLabel::Group(1));
    assert_eq!(label(&b, "E"), PartyLabel::Solo);
    assert!(b.get(&s("A")).is_none());
}

#[test]
fn a_match_phase_keeps_the_cache() {
    let mut cache = SessionCache::new();
    let sig = signals(own("G", &["A", "B"]), &[], &[]);
    cache.resolve_parties(&roster(&["A", "B"]), &sig);
    cache.notify_phase(Phase::Pregame);
    assert!(cache.is_active());
    assert!(cache.is_resolved(&s("A")));
    cache.notify_phase(Phase::InGame);
    assert!(cache.is_resolved(&s("B")));
    assert_eq!(label(&cache.assignment(), "A"), PartyLabel::Group(1));
    cache.notify_phase(Phase::Disconnected);
    assert!(!cache.is_resolved(&s("A")));
    assert!(!cache.is_active());
}

#[test]
fn invalidate_forgets_everything() {
    let mut cache = SessionCache::new();
    cache.resolve_parties(&roster(&["A"]), &Signals::empty());
    cache.invalidate();
    assert!(!cache.is_active());
    assert!(!cache.is_resolved(&s("A")));
    assert!(!cache.is_fetched(&s("A")));
}

#[test]
fn empty_roster_is_covered() {
    let mut cache = SessionCache::new();
    assert!(cache.covers(&roster(&[])));
    let a = cache.resolve_parties(&roster(&[]), &Signals::empty());
    assert_eq!(a.len(), 0);
    assert!(cache.is_active());
}

#[test]
fn a_player_named_twice_is_resolved_once() {
    let mut cache = SessionCache::new();
    let sig = signals(OwnParty::none(), &[("A", "P")], &[]);
    let a = cache.resolve_parties(&roster(&["A", "A"]), &sig);
    assert_eq!(a.len(), 1);
    assert_eq!(label(&a, "A"), PartyLabel::Solo);
}

#[test]
fn label_of_reads_the_cache() {
    let mut cache = SessionCache::new();
    let sig = signals(own("G", &["A", "B"]), &[], &[]);
    cache.resolve_parties(&roster(&["A", "B", "C"]), &sig);
    assert_eq!(cache.label_of(&s("A")), PartyLabel::Group(1));
    assert_eq!(cache.label_of(&s("C")), PartyLabel::Solo);
    assert_eq!(cache.label_of(&s("nobody")), PartyLabel::Solo);
}

#[test]
fn labels_are_written_in_decimal() {
    assert_eq!(PartyLabel::Solo.to_text(), "Solo");
    assert_eq!(PartyLabel::Group(1).to_text(), "Group-1");
    assert_eq!(PartyLabel::Group(10).to_text(), "Group-10");
    assert_eq!(PartyLabel::Group(907).to_text(), "Group-907");
    assert_eq!(PartyLabel::Group(0).to_text(), "Group-0");
    assert!(PartyLabel::Group(3).is_group());
    assert!(!PartyLabel::Solo.is_group());
    assert_eq!(valorant_overlay::party::label::decimal_string(1234567890), "1234567890");
    assert_eq!(valorant_overlay::party::label::decimal_string(0), "0");
}

#[test]
fn without_a_poll_between_matches_the_entries_stay() {
    let mut cache = SessionCache::new();
    let first = signals(own("G", &["A", "B"]), &[], &[]);
    cache.resolve_parties(&roster(&["A", "B"]), &first);
    let second = signals(OwnParty::none(), &[("C", "K"), ("D", "K")], &[]);
    let a = cache.resolve_parties(&roster(&["C", "D"]), &second);
    assert_eq!(a.len(), 4);
    assert_eq!(label(&a, "A"), PartyLabel::Group(1));
    assert_eq!(label(&a, "B"), PartyLabel::Group(1));
    assert_eq!(label(&a, "C"), PartyLabel::Group(2));
    assert_eq!(label(&a, "D"), PartyLabel::Group(2));
}
