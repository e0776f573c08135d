//! The signals that a resolution works from, as the collectors hand them over.

use vstd::prelude::*;
use crate::dict::Dict;
use crate::party::model::{fast_evidence, history_evidence, no_signals, SignalsModel};
use crate::text::texts;

verus! {

/// Whether `v` holds a string with the characters of `p`.
pub fn contains_text(v: &Vec<String>, p: &String) -> (b: bool)
    ensures
        b == texts(v@).contains(p@),
{
    let mut i: usize = 0;
    while i < v.len()
        invariant
            i <= v@.len(),
            forall|j: int| 0 <= j < i ==> #[trigger] texts(v@)[j] != p@,
        decreases v@.len() - i,
    {
        if v[i] == *p {
            assert(texts(v@)[i as int] == p@);
            return true;
        }
        i += 1;
    }
    false
}

/// The caller's own party: its group, where the caller is in one, and its members.
pub struct OwnParty {
    pub group: Option<String>,
    pub members: Vec<String>,
}

/// The signals of one resolution.
pub struct Signals {
    /// What the own-party lookup gave.
    pub own: OwnParty,
    /// What the presence lookup gave: the group of each friend that is in a party.
    pub presences: Dict<String>,
    /// What the match-history lookup gave: the group recorded for each player, empty
    /// for one who queued alone.
    pub history: Dict<String>,
}

/// The signals that consist of an own party and presences alone.
pub open spec fn fast_signals(own: OwnParty, presences: Dict<String>) -> SignalsModel {
    SignalsModel {
        own_group: match own.group {
            Some(g) => Some(g@),
            None => None,
        },
        own_members: texts(own.members@),
        presences: presences@,
        history: Map::empty(),
    }
}

impl View for Signals {
    type V = SignalsModel;

    open spec fn view(&self) -> SignalsModel {
        SignalsModel {
            own_group: match self.own.group {
                Some(g) => Some(g@),
                None => None,
            },
            own_members: texts(self.own.members@),
            presences: self.presences@,
            history: self.history@,
        }
    }
}

/// What the own party and the presences say of `p`: the own party's group for its
/// members, else the group seen in the presences.
pub fn fast_evidence_in<'a>(own: &'a OwnParty, presences: &'a Dict<String>, p: &String) -> (r:
    Option<&'a String>)
    ensures
        match r {
            Some(g) => fast_evidence(fast_signals(*own, *presences), p@) == Some(g@),
            None => fast_evidence(fast_signals(*own, *presences), p@) is None,
        },
{
    match &own.group {
        Some(g) => {
            if contains_text(&own.members, p) {
                return Some(g);
            }
        },
        None => {},
    }
    presences.get(p)
}

impl OwnParty {
    /// The own party of a caller who is in none.
    pub fn none() -> (own: Self)
        ensures
            own.group is None,
            own.members@.len() == 0,
    {
        OwnParty { group: None, members: Vec::new() }
    }
}

impl Signals {
    /// No signal at all: what is left when every lookup failed.
    pub fn empty() -> (sig: Self)
        ensures
            sig@ == no_signals(),
    {
        let sig = Signals { own: OwnParty::none(), presences: Dict::new(), history: Dict::new() };
        assert(sig@.own_members =~= Seq::<Seq<char>>::empty());
        assert(sig@ =~= no_signals());
        sig
    }

    /// What the fast signals say of `p`.
    pub fn fast_evidence(&self, p: &String) -> (r: Option<&String>)
        ensures
            match r {
                Some(g) => fast_evidence(self@, p@) == Some(g@),
                None => fast_evidence(self@, p@) is None,
            },
    {
        fast_evidence_in(&self.own, &self.presences, p)
    }

    /// What the match history says of `p`.
    pub fn history_evidence(&self, p: &String) -> (r: Option<&String>)
        ensures
            match r {
                Some(g) => history_evidence(self@, p@) == Some(g@),
                None => history_evidence(self@, p@) is None,
            },
    {
        match self.history.get(p) {
            Some(g) => {
                if g.as_str().is_empty() {
                    None
                } else {
                    Some(g)
                }
            },
            None => None,
        }
    }
}

} // verus!
