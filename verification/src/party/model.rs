//! The mathematical model of party resolution.
//!
//! Players and party groups are identified by strings, seen here as `Seq<char>`.
//! A resolution threads one cumulative table of the group identifiers seen so
//! far through three passes over the roster: the fast signals (own party, then
//! presences), the match history, and the default for whoever is left.

use vstd::prelude::*;
use crate::party::label::Label;

verus! {

/// Whether `i` is the first position of `a` in `s`.
pub open spec fn first_at(s: Seq<Seq<char>>, a: Seq<char>, i: int) -> bool {
    &&& 0 <= i < s.len()
    &&& s[i] == a
    &&& forall|j: int| 0 <= j < i ==> #[trigger] s[j] != a
}

/// The first position of `a` in `s`.
pub open spec fn position(s: Seq<Seq<char>>, a: Seq<char>) -> int {
    choose|i: int| first_at(s, a, i)
}

proof fn lemma_first_at_exists(s: Seq<Seq<char>>, a: Seq<char>, w: int)
    requires
        0 <= w < s.len(),
        s[w] == a,
    ensures
        exists|i: int| first_at(s, a, i),
    decreases w,
{
    if forall|j: int| 0 <= j < w ==> #[trigger] s[j] != a {
        assert(first_at(s, a, w));
    } else {
        let j = choose|j: int| 0 <= j < w && #[trigger] s[j] == a;
        lemma_first_at_exists(s, a, j);
    }
}

/// An element that occurs has a first position.
pub proof fn lemma_position(s: Seq<Seq<char>>, a: Seq<char>)
    requires
        s.contains(a),
    ensures
        first_at(s, a, position(s, a)),
{
    let w = choose|i: int| 0 <= i < s.len() && s[i] == a;
    lemma_first_at_exists(s, a, w);
}

/// The first position of an element is unique.
pub proof fn lemma_position_is(s: Seq<Seq<char>>, a: Seq<char>, i: int)
    requires
        first_at(s, a, i),
    ensures
        s.contains(a),
        position(s, a) == i,
{
    assert(s[i] == a);
    lemma_position(s, a);
    let f = position(s, a);
    if i < f {
        assert(s[i] != a);
    } else if f < i {
        assert(s[f] != a);
    }
}

/// Whether `longer` begins with `shorter`.
pub open spec fn extends(longer: Seq<Seq<char>>, shorter: Seq<Seq<char>>) -> bool {
    &&& shorter.len() <= longer.len()
    &&& forall|i: int| 0 <= i < shorter.len() ==> #[trigger] longer[i] == shorter[i]
}

/// What is found in a table keeps its position when the table grows at its end.
pub proof fn lemma_position_extends(longer: Seq<Seq<char>>, shorter: Seq<Seq<char>>, a: Seq<char>)
    requires
        extends(longer, shorter),
        shorter.contains(a),
    ensures
        longer.contains(a),
        position(longer, a) == position(shorter, a),
{
    lemma_position(shorter, a);
    let f = position(shorter, a);
    assert(longer[f] == a);
    assert forall|j: int| 0 <= j < f implies #[trigger] longer[j] != a by {
        assert(shorter[j] != a);
    }
    lemma_position_is(longer, a, f);
}

/// The table of group identifiers after `g` has been looked up in it: unchanged where
/// `g` is known, with `g` at its end where it is new.
pub open spec fn intern_table(table: Seq<Seq<char>>, g: Seq<char>) -> Seq<Seq<char>> {
    if table.contains(g) {
        table
    } else {
        table.push(g)
    }
}

/// The number of group `g`: one more than its first position in the table, and the next
/// free number where the table does not hold it yet.
pub open spec fn intern_number(table: Seq<Seq<char>>, g: Seq<char>) -> nat {
    if table.contains(g) {
        (position(table, g) + 1) as nat
    } else {
        table.len() + 1
    }
}

/// The number that a table gives to a group it holds.
pub open spec fn number_of(table: Seq<Seq<char>>, g: Seq<char>) -> nat {
    (position(table, g) + 1) as nat
}

/// Looking a group up leaves the table an extension of what it was, with the group in
/// it under the number that the lookup gave.
pub proof fn lemma_intern(table: Seq<Seq<char>>, g: Seq<char>)
    ensures
        extends(intern_table(table, g), table),
        intern_table(table, g).contains(g),
        number_of(intern_table(table, g), g) == intern_number(table, g),
        1 <= intern_number(table, g) <= intern_table(table, g).len(),
{
    let t = intern_table(table, g);
    if table.contains(g) {
        lemma_position(table, g);
    } else {
        let n = table.len() as int;
        assert(t[n] == g);
        assert forall|j: int| 0 <= j < n implies #[trigger] t[j] != g by {
            assert(table[j] == t[j]);
            if table[j] == g {
                assert(table.contains(g));
            }
        }
        lemma_position_is(t, g, n);
    }
}

/// Two groups of a table have the same number only if they are the same group.
pub proof fn lemma_number_injective(table: Seq<Seq<char>>, g: Seq<char>, h: Seq<char>)
    requires
        table.contains(g),
        table.contains(h),
        number_of(table, g) == number_of(table, h),
    ensures
        g == h,
{
    lemma_position(table, g);
    lemma_position(table, h);
}

/// The state of the session cache.
#[verifier::ext_equal]
pub struct CacheModel {
    /// The group identifiers seen so far, in first-seen order: the group at position
    /// `i` has the number `i + 1`.
    pub table: Seq<Seq<char>>,
    /// For each resolved player the number of the group, or `None` for a player without one.
    pub groups: Map<Seq<char>, Option<nat>>,
    /// The players whose match history has been consulted in this match.
    pub fetched: Set<Seq<char>>,
    /// Whether a match is in progress.
    pub active: bool,
}

/// The signals that one resolution works from.
#[verifier::ext_equal]
pub struct SignalsModel {
    /// The group of the caller's own party, if the caller is in one.
    pub own_group: Option<Seq<char>>,
    /// The members of the caller's own party.
    pub own_members: Seq<Seq<char>>,
    /// The group of each visible friend that is in a party.
    pub presences: Map<Seq<char>, Seq<char>>,
    /// The group recorded for each player of the recent matches; empty for a player
    /// who queued alone.
    pub history: Map<Seq<char>, Seq<char>>,
}

/// The next lookup of a resolution, as a mathematical value.
pub enum ActionModel {
    Finish,
    FetchOwnParty,
    FetchPresences,
    FetchMatchHistory { player: Seq<char>, count: nat },
    FetchMatchDetails { match_id: Seq<char> },
}

/// The state before the first match and after every invalidation.
pub open spec fn empty_cache() -> CacheModel {
    CacheModel { table: Seq::empty(), groups: Map::empty(), fetched: Set::empty(), active: false }
}

/// No signal at all.
pub open spec fn no_signals() -> SignalsModel {
    SignalsModel {
        own_group: None,
        own_members: Seq::empty(),
        presences: Map::empty(),
        history: Map::empty(),
    }
}

/// What the fast signals say of `p`: the own party's group for its members, else the
/// group seen in the presences.
pub open spec fn fast_evidence(sig: SignalsModel, p: Seq<char>) -> Option<Seq<char>> {
    if sig.own_group is Some && sig.own_members.contains(p) {
        sig.own_group
    } else if sig.presences.contains_key(p) {
        Some(sig.presences[p])
    } else {
        None
    }
}

/// What the match history says of `p`: the recorded group, unless it is empty.
pub open spec fn history_evidence(sig: SignalsModel, p: Seq<char>) -> Option<Seq<char>> {
    if sig.history.contains_key(p) && sig.history[p].len() > 0 {
        Some(sig.history[p])
    } else {
        None
    }
}

/// What all signals say of `p`, the fast ones first.
pub open spec fn evidence(sig: SignalsModel, p: Seq<char>) -> Option<Seq<char>> {
    if fast_evidence(sig, p) is Some {
        fast_evidence(sig, p)
    } else {
        history_evidence(sig, p)
    }
}

/// Whether signals may still be collected for `p`: it is neither resolved nor were its
/// matches consulted before.
pub open spec fn open_to(st: CacheModel, p: Seq<char>) -> bool {
    !st.groups.contains_key(p) && !st.fetched.contains(p)
}

/// Whether the match history is wanted for `p`: signals may be collected for it and the
/// fast ones say nothing.
pub open spec fn needs_history(st: CacheModel, sig: SignalsModel, p: Seq<char>) -> bool {
    open_to(st, p) && fast_evidence(sig, p) is None
}

/// The state after `p` was put into group `g`.
pub open spec fn assign(st: CacheModel, p: Seq<char>, g: Seq<char>) -> CacheModel {
    CacheModel {
        table: intern_table(st.table, g),
        groups: st.groups.insert(p, Some(intern_number(st.table, g))),
        ..st
    }
}

/// The two passes that read signals.
pub enum Stage {
    /// The own party, then the presences.
    Fast,
    /// The match history.
    History,
}

/// What the signals of a stage say of `p`.
pub open spec fn stage_evidence(stage: Stage, sig: SignalsModel, p: Seq<char>) -> Option<
    Seq<char>,
> {
    match stage {
        Stage::Fast => fast_evidence(sig, p),
        Stage::History => history_evidence(sig, p),
    }
}

/// One step of a pass that reads signals: a player for whom signals may be collected
/// enters the group that the stage's signals name.
pub open spec fn signal_step(stage: Stage, st: CacheModel, sig: SignalsModel, p: Seq<char>)
    -> CacheModel {
    if open_to(st, p) && stage_evidence(stage, sig, p) is Some {
        assign(st, p, stage_evidence(stage, sig, p)->0)
    } else {
        st
    }
}

/// A pass that reads signals, over the first `n` players of the roster.
pub open spec fn signal_pass(
    stage: Stage,
    st: CacheModel,
    sig: SignalsModel,
    roster: Seq<Seq<char>>,
    n: nat,
) -> CacheModel
    decreases n,
{
    if n == 0 {
        st
    } else {
        signal_step(stage, signal_pass(stage, st, sig, roster, (n - 1) as nat), sig, roster[n - 1])
    }
}

/// The first pass over the first `n` players of the roster.
pub open spec fn fast_pass(st: CacheModel, sig: SignalsModel, roster: Seq<Seq<char>>, n: nat)
    -> CacheModel {
    signal_pass(Stage::Fast, st, sig, roster, n)
}

/// The second pass over the first `n` players of the roster.
pub open spec fn history_pass(st: CacheModel, sig: SignalsModel, roster: Seq<Seq<char>>, n: nat)
    -> CacheModel {
    signal_pass(Stage::History, st, sig, roster, n)
}

/// One step of the last pass.
pub open spec fn default_step(st: CacheModel, p: Seq<char>) -> CacheModel {
    if st.groups.contains_key(p) {
        st
    } else {
        CacheModel { groups: st.groups.insert(p, None), ..st }
    }
}

/// The last pass over the first `n` players of the roster.
pub open spec fn default_pass(st: CacheModel, roster: Seq<Seq<char>>, n: nat) -> CacheModel
    decreases n,
{
    if n == 0 {
        st
    } else {
        default_step(default_pass(st, roster, (n - 1) as nat), roster[n - 1])
    }
}

/// The phase of the player's session that a poll finds.
#[derive(Clone, Copy, Debug, PartialEq, Eq, Structural)]
pub enum Phase {
    /// No session with the game client.
    Disconnected,
    /// A session, and no match.
    Idle,
    /// A match in agent selection.
    Pregame,
    /// A running match.
    InGame,
}

/// Whether a match is in progress in this phase.
pub open spec fn in_match(phase: Phase) -> bool {
    phase == Phase::Pregame || phase == Phase::InGame
}

/// The state after a poll found `phase`: alive in a match, and emptied by every poll
/// that finds none.
pub open spec fn phase_applied(st: CacheModel, phase: Phase) -> CacheModel {
    if in_match(phase) {
        CacheModel { active: true, ..st }
    } else {
        empty_cache()
    }
}

/// Whether every player of the roster is resolved.
pub open spec fn covers(st: CacheModel, roster: Seq<Seq<char>>) -> bool {
    forall|i: int| 0 <= i < roster.len() ==> st.groups.contains_key(#[trigger] roster[i])
}

/// The players of a roster.
pub open spec fn roster_set(roster: Seq<Seq<char>>) -> Set<Seq<char>> {
    Set::new(|p: Seq<char>| roster.contains(p))
}

/// The state after `players` were recorded as consulted.
pub open spec fn marked(st: CacheModel, players: Seq<Seq<char>>) -> CacheModel {
    CacheModel { fetched: st.fetched.union(roster_set(players)), ..st }
}

/// The state after the signals were merged in for a roster that the cache does not cover.
pub open spec fn merged(st: CacheModel, sig: SignalsModel, roster: Seq<Seq<char>>) -> CacheModel {
    let a = fast_pass(st, sig, roster, roster.len());
    let b = history_pass(a, sig, roster, roster.len());
    let c = default_pass(b, roster, roster.len());
    CacheModel { fetched: st.fetched.union(roster_set(roster)), active: true, ..c }
}

/// The state after a resolution: untouched on a hit but for the liveness flag, merged otherwise.
pub open spec fn resolved(st: CacheModel, sig: SignalsModel, roster: Seq<Seq<char>>) -> CacheModel {
    if covers(st, roster) {
        CacheModel { active: true, ..st }
    } else {
        merged(st, sig, roster)
    }
}

/// Whether `p` is in a group that another resolved player is in too.
pub open spec fn shares_group(groups: Map<Seq<char>, Option<nat>>, p: Seq<char>) -> bool {
    &&& groups.contains_key(p)
    &&& groups[p] is Some
    &&& exists|q: Seq<char>| q != p && #[trigger] groups.contains_key(q) && groups[q] == groups[p]
}

/// The tag shown for `p`: its group's, if another resolved player shares the group.
pub open spec fn label_of(groups: Map<Seq<char>, Option<nat>>, p: Seq<char>) -> Label {
    if shares_group(groups, p) {
        Label::Group(groups[p]->0)
    } else {
        Label::Solo
    }
}

/// The assignment shown for the resolved players.
pub open spec fn display(groups: Map<Seq<char>, Option<nat>>) -> Map<Seq<char>, Label> {
    Map::new(|p: Seq<char>| groups.contains_key(p), |p: Seq<char>| label_of(groups, p))
}

/// Whether a state of the cache hangs together: every resolved player counts as
/// consulted, every recorded number is the number of a group of the table, and outside
/// a match nothing is resolved.
pub open spec fn consistent(st: CacheModel) -> bool {
    &&& forall|p: Seq<char>| #[trigger] st.groups.contains_key(p) ==> st.fetched.contains(p)
    &&& forall|p: Seq<char>| #[trigger]
        st.groups.contains_key(p) && st.groups[p] is Some ==> 1 <= st.groups[p]->0
            <= st.table.len()
    &&& !st.active ==> st.groups =~= Map::empty() && st.table =~= Seq::empty()
}

/// A pass that reads signals leaves the consulted players and the liveness flag as they are.
pub proof fn lemma_signal_pass_keeps(
    stage: Stage,
    st: CacheModel,
    sig: SignalsModel,
    roster: Seq<Seq<char>>,
    n: nat,
)
    ensures
        signal_pass(stage, st, sig, roster, n).fetched == st.fetched,
        signal_pass(stage, st, sig, roster, n).active == st.active,
    decreases n,
{
    if n > 0 {
        lemma_signal_pass_keeps(stage, st, sig, roster, (n - 1) as nat);
    }
}

/// The last pass leaves the table, the consulted players and the liveness flag as they are.
pub proof fn lemma_default_pass_keeps(st: CacheModel, roster: Seq<Seq<char>>, n: nat)
    ensures
        default_pass(st, roster, n).table == st.table,
        default_pass(st, roster, n).fetched == st.fetched,
        default_pass(st, roster, n).active == st.active,
    decreases n,
{
    if n > 0 {
        lemma_default_pass_keeps(st, roster, (n - 1) as nat);
    }
}

} // verus!
