//! The session cache: the parties resolved so far in the match in progress.

use vstd::prelude::*;
use crate::dict::Dict;
use crate::party::label::PartyLabel;
use crate::party::laws::law_consistent;
use crate::party::model::{
    assign, consistent, covers, default_pass, display, empty_cache, fast_pass, history_pass,
    intern_number, intern_table, label_of, lemma_default_pass_keeps, lemma_position_is,
    lemma_signal_pass_keeps, marked, merged, no_signals, open_to, phase_applied, resolved,
    roster_set, shares_group, CacheModel, Phase, Stage,
};
use crate::party::signals::{contains_text, Signals};
use crate::text::texts;

verus! {

/// What the cache records of a resolved player.
#[derive(Clone, Copy, Debug)]
pub enum Membership {
    /// The player is in the group of this number.
    Group(usize),
    /// Nothing groups the player with anyone.
    Unaffiliated,
}

impl View for Membership {
    type V = Option<nat>;

    open spec fn view(&self) -> Option<nat> {
        match self {
            Membership::Group(n) => Some(*n as nat),
            Membership::Unaffiliated => None,
        }
    }
}

/// The assignment of a tag to each resolved player.
pub type PartyAssignment = Dict<PartyLabel>;

/// What the session cache holds: the table that numbers the groups, the group of each
/// resolved player, the consulted players and the liveness flag.
struct Ledger {
    table: Vec<String>,
    groups: Dict<Membership>,
    fetched: Vec<String>,
    active: bool,
}

impl View for Ledger {
    type V = CacheModel;

    closed spec fn view(&self) -> CacheModel {
        CacheModel {
            table: texts(self.table@),
            groups: self.groups@,
            fetched: roster_set(texts(self.fetched@)),
            active: self.active,
        }
    }
}

impl Ledger {
    /// The cache before the first match.
    fn new() -> (cache: Self)
        ensures
            cache@ == empty_cache(),
    {
        let cache = Ledger {
            table: Vec::new(),
            groups: Dict::new(),
            fetched: Vec::new(),
            active: false,
        };
        assert(cache@ =~= empty_cache());
        cache
    }

    /// The cache holds finitely many players.
    proof fn lemma_finite(&self)
        ensures
            self@.groups.dom().finite(),
    {
        self.groups.lemma_finite();
    }

    /// Whether a match is in progress.
    fn is_active(&self) -> (b: bool)
        ensures
            b == self@.active,
    {
        self.active
    }

    /// Whether `p` is resolved.
    fn is_resolved(&self, p: &String) -> (b: bool)
        ensures
            b == self@.groups.contains_key(p@),
    {
        self.groups.contains_key(p)
    }

    /// Whether the match history of `p` has been consulted in this match.
    fn is_fetched(&self, p: &String) -> (b: bool)
        ensures
            b == self@.fetched.contains(p@),
    {
        contains_text(&self.fetched, p)
    }

    /// Whether signals may still be collected for `p`.
    fn is_open(&self, p: &String) -> (b: bool)
        ensures
            b == open_to(self@, p@),
    {
        !self.groups.contains_key(p) && !contains_text(&self.fetched, p)
    }

    /// Whether every player of the roster is resolved.
    fn covers(&self, roster: &Vec<String>) -> (b: bool)
        ensures
            b == covers(self@, texts(roster@)),
    {
        let mut i: usize = 0;
        while i < roster.len()
            invariant
                i <= roster@.len(),
                forall|j: int|
                    0 <= j < i ==> self@.groups.contains_key(#[trigger] texts(roster@)[j]),
            decreases roster@.len() - i,
        {
            if !self.groups.contains_key(&roster[i]) {
                assert(!self@.groups.contains_key(texts(roster@)[i as int]));
                return false;
            }
            i += 1;
        }
        true
    }

    /// The number of group `g`, which enters the table if it is new.
    fn intern(&mut self, g: &String) -> (n: usize)
        ensures
            n == intern_number(old(self)@.table, g@),
            final(self)@ == (CacheModel {
                table: intern_table(old(self)@.table, g@),
                ..old(self)@
            }),
    {
        let ghost t = texts(self.table@);
        let mut i: usize = 0;
        while i < self.table.len()
            invariant
                i <= self.table@.len(),
                *self == *old(self),
                t == texts(self.table@),
                forall|j: int| 0 <= j < i ==> #[trigger] t[j] != g@,
            decreases self.table@.len() - i,
        {
            if self.table[i] == *g {
                proof {
                    assert(t[i as int] == g@);
                    lemma_position_is(t, g@, i as int);
                    assert(self@ =~= (CacheModel { table: intern_table(t, g@), ..old(self)@ }));
                }
                return i + 1;
            }
            i += 1;
        }
        proof {
            if t.contains(g@) {
                let w = choose|w: int| 0 <= w < t.len() && t[w] == g@;
                assert(t[w] != g@);
            }
        }
        self.table.push(g.clone());
        proof {
            assert(texts(self.table@) =~= t.push(g@));
            assert(self@ =~= (CacheModel { table: intern_table(t, g@), ..old(self)@ }));
        }
        self.table.len()
    }

    /// Puts `p` into group `g`.
    fn assign(&mut self, p: &String, g: &String)
        ensures
            final(self)@ == assign(old(self)@, p@, g@),
    {
        let n = self.intern(g);
        self.groups.insert(p.clone(), Membership::Group(n));
        assert(self@ =~= assign(old(self)@, p@, g@));
    }

    fn run_fast_pass(&mut self, roster: &Vec<String>, signals: &Signals)
        ensures
            final(self)@ == fast_pass(old(self)@, signals@, texts(roster@), roster@.len()),
    {
        let mut i: usize = 0;
        while i < roster.len()
            invariant
                i <= roster@.len(),
                self@ == fast_pass(old(self)@, signals@, texts(roster@), i as nat),
            decreases roster@.len() - i,
        {
            let p = &roster[i];
            assert(texts(roster@)[i as int] == p@);
            if self.is_open(p) {
                match signals.fast_evidence(p) {
                    Some(g) => {
                        self.assign(p, g);
                    },
                    None => {},
                }
            }
            i += 1;
        }
    }

    fn run_history_pass(&mut self, roster: &Vec<String>, signals: &Signals)
        ensures
            final(self)@ == history_pass(old(self)@, signals@, texts(roster@), roster@.len()),
    {
        let mut i: usize = 0;
        while i < roster.len()
            invariant
                i <= roster@.len(),
                self@ == history_pass(old(self)@, signals@, texts(roster@), i as nat),
            decreases roster@.len() - i,
        {
            let p = &roster[i];
            assert(texts(roster@)[i as int] == p@);
            if self.is_open(p) {
                match signals.history_evidence(p) {
                    Some(g) => {
                        self.assign(p, g);
                    },
                    None => {},
                }
            }
            i += 1;
        }
    }

    fn run_default_pass(&mut self, roster: &Vec<String>)
        ensures
            final(self)@ == default_pass(old(self)@, texts(roster@), roster@.len()),
    {
        let mut i: usize = 0;
        while i < roster.len()
            invariant
                i <= roster@.len(),
                self@ == default_pass(old(self)@, texts(roster@), i as nat),
            decreases roster@.len() - i,
        {
            let p = &roster[i];
            assert(texts(roster@)[i as int] == p@);
            if !self.groups.contains_key(p) {
                self.groups.insert(p.clone(), Membership::Unaffiliated);
                assert(self@ =~= default_pass(old(self)@, texts(roster@), (i + 1) as nat));
            }
            i += 1;
        }
    }

    /// Records that the match history has been consulted for `players` in this match.
    fn mark_fetched(&mut self, players: &Vec<String>)
        ensures
            final(self)@ == marked(old(self)@, texts(players@)),
    {
        let ghost ps = texts(players@);
        let mut i: usize = 0;
        while i < players.len()
            invariant
                i <= players@.len(),
                ps == texts(players@),
                self@ == (CacheModel {
                    fetched: old(self)@.fetched.union(roster_set(ps.take(i as int))),
                    ..old(self)@
                }),
            decreases players@.len() - i,
        {
            let p = &players[i];
            let ghost before = texts(self.fetched@);
            if !contains_text(&self.fetched, p) {
                self.fetched.push(p.clone());
                assert(texts(self.fetched@) =~= before.push(p@));
            }
            proof {
                let after = texts(self.fetched@);
                let prev = ps.take(i as int);
                let next = ps.take(i + 1);
                let was = old(self)@.fetched.union(roster_set(prev));
                let now = old(self)@.fetched.union(roster_set(next));
                assert(next =~= prev.push(p@));
                assert forall|q: Seq<char>| roster_set(after).contains(q) <==> now.contains(q) by {
                    if after.contains(q) {
                        let w = choose|w: int| 0 <= w < after.len() && after[w] == q;
                        if w < before.len() {
                            assert(before[w] == q);
                            assert(roster_set(before).contains(q));
                            assert(was.contains(q));
                            if roster_set(prev).contains(q) {
                                let v = choose|v: int| 0 <= v < prev.len() && prev[v] == q;
                                assert(next[v] == q);
                            }
                        } else {
                            assert(q == p@);
                            assert(next[i as int] == q);
                        }
                    }
                    if now.contains(q) {
                        if q == p@ {
                            if before.contains(q) {
                                let w = choose|w: int| 0 <= w < before.len() && before[w] == q;
                                assert(after[w] == q);
                            } else {
                                assert(after[before.len() as int] == q);
                            }
                        } else {
                            if roster_set(next).contains(q) {
                                let v = choose|v: int| 0 <= v < next.len() && next[v] == q;
                                assert(v < i);
                                assert(prev[v] == q);
                            }
                            assert(was.contains(q));
                            assert(roster_set(before).contains(q));
                            let w = choose|w: int| 0 <= w < before.len() && before[w] == q;
                            assert(after[w] == q);
                        }
                    }
                }
                assert(roster_set(after) =~= now);
            }
            i += 1;
        }
        proof {
            assert(ps.take(players@.len() as int) =~= ps);
        }
    }

    /// The tag shown for `p`.
    fn label_of(&self, p: &String) -> (label: PartyLabel)
        ensures
            label@ == label_of(self@.groups, p@),
    {
        let n = match self.groups.get(p) {
            Some(Membership::Group(n)) => *n,
            _ => {
                return PartyLabel::Solo;
            },
        };
        let ghost groups = self.groups@;
        let ghost keys = self.groups.key_seq();
        let count = self.groups.len();
        let mut j: usize = 0;
        while j < count
            invariant
                j <= count == keys.len(),
                keys == self.groups.key_seq(),
                groups == self.groups@,
                groups.contains_key(p@),
                groups[p@] == Some(n as nat),
                forall|k: int|
                    0 <= k < j && #[trigger] keys[k] != p@ ==> groups[keys[k]] != groups[p@],
            decreases count - j,
        {
            let q = self.groups.key_at(j);
            if *q != *p {
                match self.groups.get(q) {
                    Some(Membership::Group(m)) => {
                        if *m == n {
                            assert(q@ != p@ && groups.contains_key(q@) && groups[q@] == groups[p@]);
                            return PartyLabel::Group(n);
                        }
                    },
                    _ => {},
                }
            }
            j += 1;
        }
        proof {
            self.groups.lemma_key_seq();
            if shares_group(groups, p@) {
                let q = choose|q: Seq<char>|
                    q != p@ && #[trigger] groups.contains_key(q) && groups[q] == groups[p@];
                assert(keys.contains(q));
                let k = choose|k: int| 0 <= k < keys.len() && keys[k] == q;
                assert(groups[keys[k]] != groups[p@]);
            }
        }
        PartyLabel::Solo
    }

    /// The assignment shown for the players resolved so far.
    fn assignment(&self) -> (a: PartyAssignment)
        ensures
            a@ == display(self@.groups),
    {
        let ghost groups = self.groups@;
        let ghost keys = self.groups.key_seq();
        let count = self.groups.len();
        let mut out: Dict<PartyLabel> = Dict::new();
        let mut i: usize = 0;
        while i < count
            invariant
                i <= count == keys.len(),
                keys == self.groups.key_seq(),
                groups == self.groups@,
                groups == self@.groups,
                out@ == Map::new(
                    |p: Seq<char>| keys.take(i as int).contains(p),
                    |p: Seq<char>| label_of(groups, p),
                ),
            decreases count - i,
        {
            let p = self.groups.key_at(i);
            let label = self.label_of(p);
            out.insert(p.clone(), label);
            proof {
                let prev = keys.take(i as int);
                let next = keys.take(i + 1);
                assert(next =~= prev.push(p@));
                assert forall|q: Seq<char>| next.contains(q) <==> (prev.contains(q) || q == p@) by {
                    if next.contains(q) {
                        let w = choose|w: int| 0 <= w < next.len() && next[w] == q;
                        if w < i {
                            assert(prev[w] == q);
                        }
                    }
                    if prev.contains(q) {
                        let w = choose|w: int| 0 <= w < prev.len() && prev[w] == q;
                        assert(next[w] == q);
                    }
                    if q == p@ {
                        assert(next[i as int] == q);
                    }
                }
                assert(out@ =~= Map::new(
                    |p: Seq<char>| next.contains(p),
                    |p: Seq<char>| label_of(groups, p),
                ));
            }
            i += 1;
        }
        proof {
            self.groups.lemma_key_seq();
            assert(keys.take(count as int) =~= keys);
            assert(out@ =~= display(groups));
        }
        out
    }

    /// Resolves the parties of a roster: a hit hands back what is held, a miss runs the
    /// three passes and records the roster's players as consulted.
    fn resolve_parties(&mut self, roster: &Vec<String>, signals: &Signals) -> (a:
        PartyAssignment)
        ensures
            final(self)@ == resolved(old(self)@, signals@, texts(roster@)),
            a@ == display(final(self)@.groups),
    {
        if !self.covers(roster) {
            self.run_fast_pass(roster, signals);
            self.run_history_pass(roster, signals);
            self.run_default_pass(roster);
            self.mark_fetched(roster);
        }
        self.active = true;
        proof {
            let st = old(self)@;
            let r = texts(roster@);
            if !covers(st, r) {
                let a = fast_pass(st, signals@, r, r.len());
                let b = history_pass(a, signals@, r, r.len());
                let c = default_pass(b, r, r.len());
                lemma_signal_pass_keeps(Stage::Fast, st, signals@, r, r.len());
                lemma_signal_pass_keeps(Stage::History, a, signals@, r, r.len());
                lemma_default_pass_keeps(b, r, r.len());
                assert(self@ =~= merged(st, signals@, r));
            } else {
                assert(self@ =~= resolved(st, signals@, r));
            }
        }
        self.assignment()
    }

    /// Forgets everything: the assignment, the table of groups and the consulted players.
    fn invalidate(&mut self)
        ensures
            final(self)@ == empty_cache(),
    {
        self.table.clear();
        self.groups.clear();
        self.fetched.clear();
        self.active = false;
        assert(self@ =~= empty_cache());
    }

    /// Applies the phase that a poll found.
    fn notify_phase(&mut self, phase: Phase)
        ensures
            final(self)@ == phase_applied(old(self)@, phase),
    {
        match phase {
            Phase::Pregame | Phase::InGame => {
                self.active = true;
                assert(self@ =~= phase_applied(old(self)@, phase));
            },
            Phase::Idle | Phase::Disconnected => {
                self.invalidate();
            },
        }
    }
}

/// The parties resolved in the match in progress, the table that numbers their groups,
/// and the players whose match history has been consulted.
///
/// The cache is consistent at all times: every resolved player counts as consulted,
/// every recorded number is the number of a group of the table, and outside a match
/// nothing is resolved.
pub struct SessionCache {
    ledger: Ledger,
}

impl View for SessionCache {
    type V = CacheModel;

    closed spec fn view(&self) -> CacheModel {
        self.ledger@
    }
}

impl SessionCache {
    #[verifier::type_invariant]
    spec fn is_consistent(&self) -> bool {
        consistent(self.ledger@)
    }

    /// The cache before the first match.
    pub fn new() -> (cache: Self)
        ensures
            cache@ == empty_cache(),
    {
        SessionCache { ledger: Ledger::new() }
    }

    /// Whether a match is in progress.
    pub fn is_active(&self) -> (b: bool)
        ensures
            b == self@.active,
            consistent(self@),
    {
        proof {
            use_type_invariant(self);
        }
        self.ledger.is_active()
    }

    /// Whether `p` is resolved.
    pub fn is_resolved(&self, p: &String) -> (b: bool)
        ensures
            b == self@.groups.contains_key(p@),
    {
        self.ledger.is_resolved(p)
    }

    /// Whether the match history of `p` has been consulted in this match.
    pub fn is_fetched(&self, p: &String) -> (b: bool)
        ensures
            b == self@.fetched.contains(p@),
    {
        self.ledger.is_fetched(p)
    }

    /// Whether signals may still be collected for `p`.
    pub fn is_open(&self, p: &String) -> (b: bool)
        ensures
            b == open_to(self@, p@),
    {
        self.ledger.is_open(p)
    }

    /// Whether every player of the roster is resolved.
    pub fn covers(&self, roster: &Vec<String>) -> (b: bool)
        ensures
            b == covers(self@, texts(roster@)),
    {
        self.ledger.covers(roster)
    }

    /// The tag shown for `p`.
    pub fn label_of(&self, p: &String) -> (label: PartyLabel)
        ensures
            label@ == label_of(self@.groups, p@),
    {
        self.ledger.label_of(p)
    }

    /// The assignment shown for the players resolved so far, of which there are
    /// finitely many.
    pub fn assignment(&self) -> (a: PartyAssignment)
        ensures
            a@ == display(self@.groups),
            self@.groups.dom().finite(),
            consistent(self@),
    {
        proof {
            use_type_invariant(self);
            self.ledger.lemma_finite();
        }
        self.ledger.assignment()
    }

    /// Resolves the parties of a roster.
    ///
    /// Where the cache covers the roster, the cached assignment is handed back and the
    /// signals are not looked at. Otherwise the signals are merged in: for each player
    /// that is neither resolved nor consulted before, the own party decides, then the
    /// presences, then the match history; groups are numbered in the order in which
    /// they are first seen, by the table that the cache keeps for the whole match;
    /// whoever is left has no group. No resolved player changes group. The roster's
    /// players then count as consulted.
    pub fn resolve_parties(&mut self, roster: &Vec<String>, signals: &Signals) -> (a:
        PartyAssignment)
        ensures
            final(self)@ == resolved(old(self)@, signals@, texts(roster@)),
            a@ == display(final(self)@.groups),
            consistent(final(self)@),
    {
        proof {
            use_type_invariant(&*self);
        }
        let mut ledger = Ledger::new();
        std::mem::swap(&mut self.ledger, &mut ledger);
        let a = ledger.resolve_parties(roster, signals);
        proof {
            law_consistent(old(self)@, signals@, texts(roster@), Phase::Idle);
        }
        self.ledger = ledger;
        a
    }

    /// Records that the match history has been consulted for `players` in this match.
    pub fn mark_fetched(&mut self, players: &Vec<String>)
        ensures
            final(self)@ == marked(old(self)@, texts(players@)),
            consistent(final(self)@),
    {
        proof {
            use_type_invariant(&*self);
        }
        let mut ledger = Ledger::new();
        std::mem::swap(&mut self.ledger, &mut ledger);
        ledger.mark_fetched(players);
        proof {
            law_consistent(old(self)@, no_signals(), texts(players@), Phase::Idle);
        }
        self.ledger = ledger;
    }

    /// Forgets everything: the assignment, the table of groups and the consulted players.
    pub fn invalidate(&mut self)
        ensures
            final(self)@ == empty_cache(),
    {
        self.ledger = Ledger::new();
    }

    /// Tells the cache which phase a poll found. A match in agent selection or running
    /// keeps the cache and marks it alive; any other phase invalidates it.
    pub fn notify_phase(&mut self, phase: Phase)
        ensures
            final(self)@ == phase_applied(old(self)@, phase),
            consistent(final(self)@),
    {
        proof {
            use_type_invariant(&*self);
        }
        let mut ledger = Ledger::new();
        std::mem::swap(&mut self.ledger, &mut ledger);
        ledger.notify_phase(phase);
        proof {
            law_consistent(old(self)@, no_signals(), Seq::empty(), phase);
        }
        self.ledger = ledger;
    }
}

} // verus!
