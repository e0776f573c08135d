//! What holds of every resolution.

use vstd::prelude::*;
use crate::party::collect::{
    history_target, history_wanted, is_history_target, next_action, signals_of, Collected,
    HISTORY_DEPTH,
};
use crate::party::label::Label;
use crate::party::model::{
    consistent, covers, default_pass, display, empty_cache, evidence, extends, fast_evidence,
    fast_pass, history_evidence, history_pass, label_of, lemma_intern, lemma_number_injective,
    lemma_position, lemma_position_extends, marked, merged, needs_history, number_of, open_to,
    phase_applied, resolved, roster_set, shares_group, signal_pass, signal_step, stage_evidence,
    ActionModel, CacheModel, Phase, SignalsModel, Stage,
};

verus! {

/// Whether `p` is among the first `n` players of the roster.
pub open spec fn among(roster: Seq<Seq<char>>, n: int, p: Seq<char>) -> bool {
    exists|i: int| 0 <= i < n && i < roster.len() && #[trigger] roster[i] == p
}

/// Whether `p` is recorded as a member of group `g`, under the number that the table
/// gives to `g`.
pub open spec fn numbered(st: CacheModel, p: Seq<char>, g: Seq<char>) -> bool {
    &&& st.table.contains(g)
    &&& st.groups.contains_key(p)
    &&& st.groups[p] == Some(number_of(st.table, g))
}

/// What a resolution records of a player that was not resolved before: nothing for a
/// player consulted before or without evidence, else the number of the group that the
/// evidence names.
pub open spec fn settled(st: CacheModel, sig: SignalsModel, table: Seq<Seq<char>>, p: Seq<char>)
    -> Option<nat> {
    if st.fetched.contains(p) {
        None
    } else {
        match evidence(sig, p) {
            Some(g) => Some(number_of(table, g)),
            None => None,
        }
    }
}

proof fn lemma_extends_trans(a: Seq<Seq<char>>, b: Seq<Seq<char>>, c: Seq<Seq<char>>)
    requires
        extends(a, b),
        extends(b, c),
    ensures
        extends(a, c),
{
    assert forall|i: int| 0 <= i < c.len() implies #[trigger] a[i] == c[i] by {
        assert(b[i] == c[i]);
        assert(a[i] == b[i]);
    }
}

proof fn lemma_numbered_extends(later: CacheModel, earlier: CacheModel, p: Seq<char>, g: Seq<char>)
    requires
        numbered(earlier, p, g),
        extends(later.table, earlier.table),
        later.groups.contains_key(p),
        later.groups[p] == earlier.groups[p],
    ensures
        numbered(later, p, g),
{
    lemma_position_extends(later.table, earlier.table, g);
}

/// Whether the evidence of the stage names `g` for one of the first `n` players of the
/// roster for whom signals may be collected.
pub open spec fn named_by(
    stage: Stage,
    st: CacheModel,
    sig: SignalsModel,
    roster: Seq<Seq<char>>,
    n: nat,
    g: Seq<char>,
) -> bool {
    exists|i: int|
        0 <= i < n && i < roster.len() && open_to(st, #[trigger] roster[i]) && stage_evidence(
            stage,
            sig,
            roster[i],
        ) == Some(g)
}

proof fn lemma_named_by_more(
    stage: Stage,
    st: CacheModel,
    sig: SignalsModel,
    roster: Seq<Seq<char>>,
    n: nat,
    g: Seq<char>,
)
    requires
        named_by(stage, st, sig, roster, n, g),
    ensures
        named_by(stage, st, sig, roster, n + 1, g),
{
    let i = choose|i: int|
        0 <= i < n && i < roster.len() && open_to(st, #[trigger] roster[i]) && stage_evidence(
            stage,
            sig,
            roster[i],
        ) == Some(g);
    assert(open_to(st, roster[i]));
}

/// What a pass that reads signals does, seen from its start.
pub open spec fn signal_pass_post(
    stage: Stage,
    st: CacheModel,
    sig: SignalsModel,
    roster: Seq<Seq<char>>,
    n: nat,
    s: CacheModel,
) -> bool {
    &&& extends(s.table, st.table)
    &&& s.fetched == st.fetched
    &&& s.active == st.active
    &&& forall|p: Seq<char>| #[trigger]
        st.groups.contains_key(p) ==> s.groups.contains_key(p) && s.groups[p] == st.groups[p]
    &&& forall|p: Seq<char>| #[trigger]
        s.groups.contains_key(p) && !st.groups.contains_key(p) ==> {
            &&& among(roster, n as int, p)
            &&& open_to(st, p)
            &&& stage_evidence(stage, sig, p) is Some
            &&& numbered(s, p, stage_evidence(stage, sig, p)->0)
        }
    &&& forall|i: int|
        0 <= i < n && open_to(st, roster[i]) && stage_evidence(stage, sig, roster[i]) is Some
            ==> s.groups.contains_key(#[trigger] roster[i])
    &&& forall|k: int|
        st.table.len() <= k < s.table.len() ==> named_by(
            stage,
            st,
            sig,
            roster,
            n,
            #[trigger] s.table[k],
        )
}

/// A pass that reads signals only extends the table, keeps what was resolved, and puts
/// exactly the players of the roster for which signals may be collected, and of which
/// its stage has evidence, into the group that the evidence names.
pub proof fn lemma_signal_pass(
    stage: Stage,
    st: CacheModel,
    sig: SignalsModel,
    roster: Seq<Seq<char>>,
    n: nat,
)
    requires
        n <= roster.len(),
    ensures
        signal_pass_post(stage, st, sig, roster, n, signal_pass(stage, st, sig, roster, n)),
    decreases n,
{
    if n > 0 {
        let m = (n - 1) as nat;
        let s0 = signal_pass(stage, st, sig, roster, m);
        let p0 = roster[n - 1];
        let s = signal_step(stage, s0, sig, p0);
        lemma_signal_pass(stage, st, sig, roster, m);
        assert(s == signal_pass(stage, st, sig, roster, n));
        assert(signal_pass_post(stage, st, sig, roster, m, s0));
        if open_to(s0, p0) && stage_evidence(stage, sig, p0) is Some {
            let g = stage_evidence(stage, sig, p0)->0;
            lemma_intern(s0.table, g);
            lemma_extends_trans(s.table, s0.table, st.table);
            assert(!st.groups.contains_key(p0));
            assert forall|p: Seq<char>| #[trigger]
                s.groups.contains_key(p) && !st.groups.contains_key(p) implies {
                &&& among(roster, n as int, p)
                &&& open_to(st, p)
                &&& stage_evidence(stage, sig, p) is Some
                &&& numbered(s, p, stage_evidence(stage, sig, p)->0)
            } by {
                if p == p0 {
                    assert(roster[n - 1] == p);
                } else {
                    assert(s0.groups.contains_key(p));
                    let i = choose|i: int|
                        0 <= i < m && i < roster.len() && #[trigger] roster[i] == p;
                    assert(roster[i] == p);
                    lemma_numbered_extends(s, s0, p, stage_evidence(stage, sig, p)->0);
                }
            }
            assert forall|i: int|
                0 <= i < n && open_to(st, roster[i]) && stage_evidence(stage, sig, roster[i])
                    is Some implies s.groups.contains_key(#[trigger] roster[i]) by {
                if i < m {
                    assert(s0.groups.contains_key(roster[i]));
                }
            }
            assert forall|k: int| st.table.len() <= k < s.table.len() implies named_by(
                stage,
                st,
                sig,
                roster,
                n,
                #[trigger] s.table[k],
            ) by {
                if k < s0.table.len() {
                    assert(s.table[k] == s0.table[k]);
                    lemma_named_by_more(stage, st, sig, roster, m, s0.table[k]);
                } else {
                    assert(s.table[k] == g);
                    assert(open_to(st, roster[n - 1]));
                }
            }
        } else {
            assert forall|p: Seq<char>| #[trigger]
                s.groups.contains_key(p) && !st.groups.contains_key(p) implies {
                &&& among(roster, n as int, p)
                &&& open_to(st, p)
                &&& stage_evidence(stage, sig, p) is Some
                &&& numbered(s, p, stage_evidence(stage, sig, p)->0)
            } by {
                let i = choose|i: int| 0 <= i < m && i < roster.len() && #[trigger] roster[i] == p;
                assert(roster[i] == p);
            }
            assert forall|i: int|
                0 <= i < n && open_to(st, roster[i]) && stage_evidence(stage, sig, roster[i])
                    is Some implies s.groups.contains_key(#[trigger] roster[i]) by {
                if i < m {
                    assert(s0.groups.contains_key(roster[i]));
                }
            }
            assert forall|k: int| st.table.len() <= k < s.table.len() implies named_by(
                stage,
                st,
                sig,
                roster,
                n,
                #[trigger] s.table[k],
            ) by {
                lemma_named_by_more(stage, st, sig, roster, m, s0.table[k]);
            }
        }
    }
}

/// What the last pass does, seen from its start.
pub open spec fn default_pass_post(st: CacheModel, roster: Seq<Seq<char>>, n: nat, s: CacheModel)
    -> bool {
    &&& s.table == st.table
    &&& s.fetched == st.fetched
    &&& s.active == st.active
    &&& forall|p: Seq<char>| #[trigger]
        st.groups.contains_key(p) ==> s.groups.contains_key(p) && s.groups[p] == st.groups[p]
    &&& forall|p: Seq<char>| #[trigger]
        s.groups.contains_key(p) && !st.groups.contains_key(p) ==> among(roster, n as int, p)
            && s.groups[p] is None
    &&& forall|i: int| 0 <= i < n ==> s.groups.contains_key(#[trigger] roster[i])
}

/// The last pass keeps what was resolved and records the rest of the roster without a group.
pub proof fn lemma_default_pass(st: CacheModel, roster: Seq<Seq<char>>, n: nat)
    requires
        n <= roster.len(),
    ensures
        default_pass_post(st, roster, n, default_pass(st, roster, n)),
    decreases n,
{
    if n > 0 {
        let m = (n - 1) as nat;
        let s0 = default_pass(st, roster, m);
        let s = default_pass(st, roster, n);
        lemma_default_pass(st, roster, m);
        assert(default_pass_post(st, roster, m, s0));
        assert forall|p: Seq<char>| #[trigger]
            s.groups.contains_key(p) && !st.groups.contains_key(p) implies among(
            roster,
            n as int,
            p,
        ) && s.groups[p] is None by {
            if s0.groups.contains_key(p) {
                let i = choose|i: int| 0 <= i < m && i < roster.len() && #[trigger] roster[i] == p;
                assert(roster[i] == p);
            } else {
                assert(roster[n - 1] == p);
            }
        }
        assert forall|i: int| 0 <= i < n implies s.groups.contains_key(#[trigger] roster[i]) by {
            if i < m {
                assert(s0.groups.contains_key(roster[i]));
            }
        }
    }
}

/// Whether the evidence names `g` for a player of the roster for whom signals may be
/// collected.
pub open spec fn newly_named(
    st: CacheModel,
    sig: SignalsModel,
    roster: Seq<Seq<char>>,
    g: Seq<char>,
) -> bool {
    exists|i: int|
        0 <= i < roster.len() && open_to(st, #[trigger] roster[i]) && evidence(sig, roster[i])
            == Some(g)
}

/// What merging the signals in for a roster does to the cache.
pub open spec fn merged_post(
    st: CacheModel,
    sig: SignalsModel,
    roster: Seq<Seq<char>>,
    f: CacheModel,
) -> bool {
    &&& extends(f.table, st.table)
    &&& f.fetched == st.fetched.union(roster_set(roster))
    &&& f.active
    &&& forall|p: Seq<char>| #[trigger]
        st.groups.contains_key(p) ==> f.groups.contains_key(p) && f.groups[p] == st.groups[p]
    &&& forall|p: Seq<char>| #[trigger]
        f.groups.contains_key(p) <==> st.groups.contains_key(p) || roster.contains(p)
    &&& forall|p: Seq<char>|
        roster.contains(p) && !st.groups.contains_key(p) ==> #[trigger] f.groups[p] == settled(
            st,
            sig,
            f.table,
            p,
        )
    &&& forall|p: Seq<char>|
        roster.contains(p) && !st.groups.contains_key(p) && !st.fetched.contains(p) && evidence(
            sig,
            p,
        ) is Some ==> f.table.contains(#[trigger] evidence(sig, p)->0)
    &&& forall|k: int|
        st.table.len() <= k < f.table.len() ==> newly_named(st, sig, roster, #[trigger] f.table[k])
}

/// Merging keeps every resolved player's group and the numbers of the known groups,
/// resolves exactly the roster's players in addition, and gives each of them the number
/// of the group that the first signal with evidence names.
pub proof fn lemma_merged(st: CacheModel, sig: SignalsModel, roster: Seq<Seq<char>>)
    ensures
        merged_post(st, sig, roster, merged(st, sig, roster)),
{
    let n = roster.len();
    let a = fast_pass(st, sig, roster, n);
    let b = history_pass(a, sig, roster, n);
    let c = default_pass(b, roster, n);
    let f = merged(st, sig, roster);
    lemma_signal_pass(Stage::Fast, st, sig, roster, n);
    lemma_signal_pass(Stage::History, a, sig, roster, n);
    lemma_default_pass(b, roster, n);
    assert(signal_pass_post(Stage::Fast, st, sig, roster, n, a));
    assert(signal_pass_post(Stage::History, a, sig, roster, n, b));
    assert(default_pass_post(b, roster, n, c));
    lemma_extends_trans(b.table, a.table, st.table);
    assert forall|p: Seq<char>| #[trigger]
        st.groups.contains_key(p) implies f.groups.contains_key(p) && f.groups[p]
        == st.groups[p] by {
        assert(a.groups.contains_key(p));
        assert(b.groups.contains_key(p));
    }
    assert forall|p: Seq<char>| #[trigger]
        f.groups.contains_key(p) <==> st.groups.contains_key(p) || roster.contains(p) by {
        if f.groups.contains_key(p) && !st.groups.contains_key(p) {
            if b.groups.contains_key(p) {
                if a.groups.contains_key(p) {
                    assert(among(roster, n as int, p));
                } else {
                    assert(among(roster, n as int, p));
                }
            } else {
                assert(among(roster, n as int, p));
            }
        }
        if roster.contains(p) {
            let i = choose|i: int| 0 <= i < roster.len() && roster[i] == p;
            assert(c.groups.contains_key(roster[i]));
        }
        if st.groups.contains_key(p) {
            assert(a.groups.contains_key(p));
            assert(b.groups.contains_key(p));
        }
    }
    assert forall|p: Seq<char>| roster.contains(p) && !st.groups.contains_key(p) implies (
    #[trigger] f.groups[p] == settled(st, sig, f.table, p)) && (!st.fetched.contains(p)
        && evidence(sig, p) is Some ==> f.table.contains(evidence(sig, p)->0)) by {
        let i = choose|i: int| 0 <= i < roster.len() && roster[i] == p;
        assert(roster[i] == p);
        assert(c.groups.contains_key(roster[i]));
        if a.groups.contains_key(p) {
            assert(b.groups.contains_key(p));
            assert(numbered(a, p, fast_evidence(sig, p)->0));
            lemma_numbered_extends(b, a, p, fast_evidence(sig, p)->0);
        } else if b.groups.contains_key(p) {
            assert(open_to(a, p));
            if fast_evidence(sig, p) is Some {
                assert(open_to(st, roster[i]));
                assert(a.groups.contains_key(roster[i]));
            }
            assert(numbered(b, p, history_evidence(sig, p)->0));
        } else {
            if !st.fetched.contains(p) {
                assert(open_to(st, roster[i]));
                if fast_evidence(sig, p) is Some {
                    assert(a.groups.contains_key(roster[i]));
                }
                assert(open_to(a, roster[i]));
                if history_evidence(sig, p) is Some {
                    assert(b.groups.contains_key(roster[i]));
                }
            }
        }
    }
    assert forall|k: int| st.table.len() <= k < f.table.len() implies newly_named(
        st,
        sig,
        roster,
        #[trigger] f.table[k],
    ) by {
        let g = f.table[k];
        if k < a.table.len() {
            assert(b.table[k] == a.table[k]);
            assert(named_by(Stage::Fast, st, sig, roster, n, a.table[k]));
            let i = choose|i: int|
                0 <= i < n && i < roster.len() && open_to(st, #[trigger] roster[i])
                    && stage_evidence(Stage::Fast, sig, roster[i]) == Some(g);
            assert(open_to(st, roster[i]) && evidence(sig, roster[i]) == Some(g));
        } else {
            assert(named_by(Stage::History, a, sig, roster, n, b.table[k]));
            let i = choose|i: int|
                0 <= i < n && i < roster.len() && open_to(a, #[trigger] roster[i])
                    && stage_evidence(Stage::History, sig, roster[i]) == Some(g);
            assert(open_to(a, roster[i]));
            assert(!st.groups.contains_key(roster[i]));
            assert(open_to(st, roster[i]));
            if fast_evidence(sig, roster[i]) is Some {
                assert(a.groups.contains_key(roster[i]));
            }
            assert(open_to(st, roster[i]) && evidence(sig, roster[i]) == Some(g));
        }
    }
}

/// Idempotence: after a resolution the cache covers the roster, and a second resolution
/// of the same roster, whatever the signals then say, leaves the cache as it is and so
/// hands back the same assignment.
pub proof fn law_idempotent(
    st: CacheModel,
    sig: SignalsModel,
    later: SignalsModel,
    roster: Seq<Seq<char>>,
)
    ensures
        covers(resolved(st, sig, roster), roster),
        resolved(resolved(st, sig, roster), later, roster) == resolved(st, sig, roster),
        display(resolved(resolved(st, sig, roster), later, roster).groups) == display(
            resolved(st, sig, roster).groups,
        ),
{
    let f = resolved(st, sig, roster);
    if !covers(st, roster) {
        lemma_merged(st, sig, roster);
        assert(merged_post(st, sig, roster, f));
        assert forall|i: int| 0 <= i < roster.len() implies f.groups.contains_key(
            #[trigger] roster[i],
        ) by {
            assert(roster.contains(roster[i]));
        }
    }
    assert(covers(f, roster));
    assert(resolved(f, later, roster) =~= f);
}

/// A hit needs no lookup: once a roster is resolved, no lookup is made for it again,
/// whatever was collected.
pub proof fn law_hit_needs_no_lookup(
    st: CacheModel,
    sig: SignalsModel,
    roster: Seq<Seq<char>>,
    c: Collected,
)
    ensures
        next_action(resolved(st, sig, roster), roster, c) == ActionModel::Finish,
{
    law_idempotent(st, sig, sig, roster);
}

/// Size-one demotion: a player tagged with a group shares that tag with another player.
pub proof fn law_no_group_of_one(groups: Map<Seq<char>, Option<nat>>, p: Seq<char>)
    requires
        display(groups).contains_key(p),
        display(groups)[p] != Label::Solo,
    ensures
        exists|q: Seq<char>|
            q != p && #[trigger] display(groups).contains_key(q) && display(groups)[q] == display(
                groups,
            )[p],
{
    assert(shares_group(groups, p));
    let q = choose|q: Seq<char>|
        q != p && #[trigger] groups.contains_key(q) && groups[q] == groups[p];
    assert(groups.contains_key(p) && p != q && groups[p] == groups[q]);
    assert(shares_group(groups, q));
    assert(display(groups).contains_key(q));
}

/// The players that an assignment tags with `label`.
pub open spec fn members(assignment: Map<Seq<char>, Label>, label: Label) -> Set<Seq<char>> {
    Set::new(|p: Seq<char>| assignment.contains_key(p) && assignment[p] == label)
}

/// Size-one demotion, counted: among finitely many resolved players each group tag has
/// no member or at least two.
pub proof fn law_group_sizes(groups: Map<Seq<char>, Option<nat>>, n: nat)
    requires
        groups.dom().finite(),
    ensures
        members(display(groups), Label::Group(n)).finite(),
        members(display(groups), Label::Group(n)).len() == 0 || members(
            display(groups),
            Label::Group(n),
        ).len() >= 2,
{
    let a = display(groups);
    let ms = members(a, Label::Group(n));
    assert(ms.subset_of(groups.dom()));
    vstd::set_lib::lemma_len_subset(ms, groups.dom());
    if ms.len() != 0 {
        let p = ms.choose();
        vstd::set_lib::lemma_set_empty_equivalency_len(ms);
        assert(ms.contains(p));
        law_no_group_of_one(groups, p);
        let q = choose|q: Seq<char>| q != p && #[trigger] a.contains_key(q) && a[q] == a[p];
        assert(ms.contains(q));
        assert(ms.remove(p).contains(q));
        assert(ms.remove(p).len() == ms.len() - 1);
        assert(ms.remove(p).remove(q).len() == ms.remove(p).len() - 1);
    }
}

/// Label stability: two players that one resolution resolves from evidence are
/// recorded in the same group exactly if their evidence names the same group, whichever
/// signals the evidence came from; two different such players of one group are both
/// tagged with that group; and a group that the table held before keeps its number.
pub proof fn law_label_stability(
    st: CacheModel,
    sig: SignalsModel,
    roster: Seq<Seq<char>>,
    p: Seq<char>,
    q: Seq<char>,
)
    requires
        roster.contains(p),
        roster.contains(q),
        open_to(st, p),
        open_to(st, q),
        evidence(sig, p) is Some,
        evidence(sig, q) is Some,
    ensures
        resolved(st, sig, roster).groups[p] == Some(
            number_of(resolved(st, sig, roster).table, evidence(sig, p)->0),
        ),
        resolved(st, sig, roster).groups[p] == resolved(st, sig, roster).groups[q] <==> evidence(
            sig,
            p,
        ) == evidence(sig, q),
        p != q && evidence(sig, p) == evidence(sig, q) ==> {
            &&& label_of(resolved(st, sig, roster).groups, p) == Label::Group(
                number_of(resolved(st, sig, roster).table, evidence(sig, p)->0),
            )
            &&& label_of(resolved(st, sig, roster).groups, q) == label_of(
                resolved(st, sig, roster).groups,
                p,
            )
        },
        st.table.contains(evidence(sig, p)->0) ==> resolved(st, sig, roster).groups[p] == Some(
            number_of(st.table, evidence(sig, p)->0),
        ),
{
    let i = choose|i: int| 0 <= i < roster.len() && roster[i] == p;
    assert(!st.groups.contains_key(roster[i]));
    assert(!covers(st, roster));
    let f = merged(st, sig, roster);
    let g = evidence(sig, p)->0;
    let h = evidence(sig, q)->0;
    lemma_merged(st, sig, roster);
    assert(merged_post(st, sig, roster, f));
    assert(f.groups[p] == settled(st, sig, f.table, p));
    assert(f.groups[q] == settled(st, sig, f.table, q));
    assert(f.table.contains(g));
    assert(f.table.contains(h));
    assert(f.groups.contains_key(p));
    assert(f.groups.contains_key(q));
    if number_of(f.table, g) == number_of(f.table, h) {
        lemma_number_injective(f.table, g, h);
    }
    if st.table.contains(g) {
        lemma_position_extends(f.table, st.table, g);
    }
    if p != q && g == h {
        assert(shares_group(f.groups, p));
        assert(shares_group(f.groups, q));
    }
}

/// Merge monotonicity: a resolution keeps the group of every player resolved before.
/// The tag of such a player stays, or turns from `Solo` into the tag of the player's
/// group because a player resolved only now is in that group too.
pub proof fn law_merge_monotonic(
    st: CacheModel,
    sig: SignalsModel,
    roster: Seq<Seq<char>>,
    p: Seq<char>,
)
    requires
        st.groups.contains_key(p),
    ensures
        resolved(st, sig, roster).groups.contains_key(p),
        resolved(st, sig, roster).groups[p] == st.groups[p],
        label_of(st.groups, p) != Label::Solo ==> label_of(resolved(st, sig, roster).groups, p)
            == label_of(st.groups, p),
        label_of(resolved(st, sig, roster).groups, p) != label_of(st.groups, p) ==> {
            &&& label_of(st.groups, p) == Label::Solo
            &&& st.groups[p] is Some
            &&& label_of(resolved(st, sig, roster).groups, p) == Label::Group(st.groups[p]->0)
            &&& exists|q: Seq<char>|
                !st.groups.contains_key(q) && #[trigger] resolved(
                    st,
                    sig,
                    roster,
                ).groups.contains_key(q) && resolved(st, sig, roster).groups[q] == st.groups[p]
        },
{
    let f = resolved(st, sig, roster);
    if !covers(st, roster) {
        lemma_merged(st, sig, roster);
        assert(merged_post(st, sig, roster, f));
    }
    if shares_group(st.groups, p) {
        let q = choose|q: Seq<char>|
            q != p && #[trigger] st.groups.contains_key(q) && st.groups[q] == st.groups[p];
        assert(f.groups.contains_key(q) && f.groups[q] == f.groups[p]);
        assert(shares_group(f.groups, p));
    } else if shares_group(f.groups, p) {
        let q = choose|q: Seq<char>|
            q != p && #[trigger] f.groups.contains_key(q) && f.groups[q] == f.groups[p];
        if st.groups.contains_key(q) {
            assert(st.groups[q] == st.groups[p]);
            assert(shares_group(st.groups, p));
        }
    }
}

/// Fetched-set precedence: a consulted player stays consulted through every resolution,
/// is never one for whom the match history is wanted, and, where a resolution has to
/// resolve such a player, ends without a group whatever the signals say.
pub proof fn law_fetched_precedence(
    st: CacheModel,
    sig: SignalsModel,
    roster: Seq<Seq<char>>,
    p: Seq<char>,
)
    requires
        st.fetched.contains(p),
    ensures
        resolved(st, sig, roster).fetched.contains(p),
        !needs_history(st, sig, p),
        roster.contains(p) && !st.groups.contains_key(p) ==> resolved(st, sig, roster).groups[p]
            is None,
{
    if !covers(st, roster) {
        lemma_merged(st, sig, roster);
        assert(merged_post(st, sig, roster, merged(st, sig, roster)));
        if roster.contains(p) && !st.groups.contains_key(p) {
            assert(merged(st, sig, roster).groups[p] == settled(
                st,
                sig,
                merged(st, sig, roster).table,
                p,
            ));
        }
    } else {
        if roster.contains(p) {
            let i = choose|i: int| 0 <= i < roster.len() && roster[i] == p;
            assert(st.groups.contains_key(roster[i]));
        }
    }
}

/// Invalidation: what is resolved from the empty cache holds no player and no group of
/// the match before: only the roster's players are resolved, every group in the table
/// is named by the evidence of one of them, and only they count as consulted.
pub proof fn law_fresh_after_invalidation(sig: SignalsModel, roster: Seq<Seq<char>>)
    ensures
        empty_cache().fetched == Set::<Seq<char>>::empty(),
        forall|p: Seq<char>| #[trigger]
            resolved(empty_cache(), sig, roster).groups.contains_key(p) <==> roster.contains(p),
        forall|p: Seq<char>|
            roster.contains(p) ==> #[trigger] resolved(empty_cache(), sig, roster).groups[p] == (
            match evidence(sig, p) {
                Some(g) => Some(number_of(resolved(empty_cache(), sig, roster).table, g)),
                None => None,
            }),
        forall|p: Seq<char>| #[trigger]
            resolved(empty_cache(), sig, roster).fetched.contains(p) <==> roster.contains(p),
        forall|k: int|
            0 <= k < resolved(empty_cache(), sig, roster).table.len() ==> newly_named(
                empty_cache(),
                sig,
                roster,
                #[trigger] resolved(empty_cache(), sig, roster).table[k],
            ),
{
    let st = empty_cache();
    let f = resolved(st, sig, roster);
    if !covers(st, roster) {
        lemma_merged(st, sig, roster);
        assert(merged_post(st, sig, roster, f));
        assert forall|p: Seq<char>| roster.contains(p) implies #[trigger] f.groups[p] == (
        match evidence(sig, p) {
            Some(g) => Some(number_of(f.table, g)),
            None => None,
        }) by {
            assert(f.groups[p] == settled(st, sig, f.table, p));
        }
    } else {
        assert forall|p: Seq<char>| !roster.contains(p) by {
            if roster.contains(p) {
                let i = choose|i: int| 0 <= i < roster.len() && roster[i] == p;
                assert(st.groups.contains_key(roster[i]));
            }
        }
    }
}

proof fn lemma_first_history_target(
    st: CacheModel,
    sig: SignalsModel,
    roster: Seq<Seq<char>>,
    w: int,
)
    requires
        0 <= w < roster.len(),
        needs_history(st, sig, roster[w]),
    ensures
        exists|i: int| is_history_target(st, sig, roster, i),
    decreases w,
{
    if forall|j: int| 0 <= j < w ==> !needs_history(st, sig, #[trigger] roster[j]) {
        assert(is_history_target(st, sig, roster, w));
    } else {
        let j = choose|j: int| 0 <= j < w && needs_history(st, sig, #[trigger] roster[j]);
        lemma_first_history_target(st, sig, roster, j);
    }
}

/// Fetched-set precedence, for the lookups: the recent matches are only ever asked for
/// of a player of the roster that is neither resolved nor consulted before, and for
/// `HISTORY_DEPTH` matches; and the players of a match are only asked for while fewer
/// than `HISTORY_DEPTH` matches were looked into.
pub proof fn law_history_lookups(st: CacheModel, roster: Seq<Seq<char>>, c: Collected)
    ensures
        match next_action(st, roster, c) {
            ActionModel::FetchMatchHistory { player, count } => {
                &&& roster.contains(player)
                &&& !st.fetched.contains(player)
                &&& !st.groups.contains_key(player)
                &&& count == HISTORY_DEPTH
            },
            ActionModel::FetchMatchDetails { match_id } => c.matches@.len() < HISTORY_DEPTH,
            _ => true,
        },
{
    let sig = signals_of(c);
    if history_wanted(st, sig, roster) {
        let w = choose|i: int|
            0 <= i < roster.len() && needs_history(st, sig, #[trigger] roster[i]);
        lemma_first_history_target(st, sig, roster, w);
        let i = choose|i: int| is_history_target(st, sig, roster, i);
        assert(history_target(st, sig, roster) == roster[i]);
        assert(needs_history(st, sig, roster[i]));
    }
}

/// Invalidation: a poll that finds no match leaves the cache empty, whatever it held.
pub proof fn law_invalidation(st: CacheModel, sig: SignalsModel, roster: Seq<Seq<char>>)
    ensures
        phase_applied(st, Phase::Idle) == empty_cache(),
        phase_applied(st, Phase::Idle).fetched == Set::<Seq<char>>::empty(),
        resolved(phase_applied(st, Phase::Idle), sig, roster) == resolved(
            empty_cache(),
            sig,
            roster,
        ),
{
}

/// Consistency is an invariant: the empty cache is consistent, and every operation
/// keeps a consistent cache consistent.
pub proof fn law_consistent(
    st: CacheModel,
    sig: SignalsModel,
    roster: Seq<Seq<char>>,
    phase: Phase,
)
    requires
        consistent(st),
    ensures
        consistent(empty_cache()),
        consistent(resolved(st, sig, roster)),
        consistent(marked(st, roster)),
        consistent(phase_applied(st, phase)),
{
    let f = resolved(st, sig, roster);
    if !covers(st, roster) {
        lemma_merged(st, sig, roster);
        assert(merged_post(st, sig, roster, f));
        assert forall|p: Seq<char>| #[trigger]
            f.groups.contains_key(p) && f.groups[p] is Some implies 1 <= f.groups[p]->0
            <= f.table.len() by {
            if !st.groups.contains_key(p) {
                assert(roster.contains(p));
                assert(f.groups[p] == settled(st, sig, f.table, p));
                let g = evidence(sig, p)->0;
                assert(f.table.contains(g));
                lemma_position(f.table, g);
            }
        }
        assert forall|p: Seq<char>| #[trigger] f.groups.contains_key(p) implies f.fetched.contains(
            p,
        ) by {
            if !st.groups.contains_key(p) {
                assert(roster.contains(p));
            }
        }
    }
}

} // verus!
