//! The tag that is shown for a player's party.

use vstd::prelude::*;
use vstd::string::*;

verus! {

/// The tag of a party as a mathematical value: unaffiliated, or the number of a group.
pub enum Label {
    Solo,
    Group(nat),
}

/// The tag of a party: `Solo` for an unaffiliated player, `Group(n)` for the members of
/// the group numbered `n`.
#[derive(Clone, Copy, Debug, PartialEq, Eq, Structural)]
pub enum PartyLabel {
    Solo,
    Group(usize),
}

impl View for PartyLabel {
    type V = Label;

    open spec fn view(&self) -> Label {
        match self {
            PartyLabel::Solo => Label::Solo,
            PartyLabel::Group(n) => Label::Group(*n as nat),
        }
    }
}

/// The character of a decimal digit.
pub open spec fn digit_char(d: nat) -> char {
    if d == 0 {
        '0'
    } else if d == 1 {
        '1'
    } else if d == 2 {
        '2'
    } else if d == 3 {
        '3'
    } else if d == 4 {
        '4'
    } else if d == 5 {
        '5'
    } else if d == 6 {
        '6'
    } else if d == 7 {
        '7'
    } else if d == 8 {
        '8'
    } else {
        '9'
    }
}

/// The decimal numeral of `n`, without leading zeros.
pub open spec fn decimal(n: nat) -> Seq<char>
    decreases n,
{
    if n < 10 {
        seq![digit_char(n)]
    } else {
        decimal(n / 10).push(digit_char(n % 10))
    }
}

/// The text of a tag: `Solo`, or `Group-` followed by the group's number.
pub open spec fn label_text(label: Label) -> Seq<char> {
    match label {
        Label::Solo => seq!['S', 'o', 'l', 'o'],
        Label::Group(n) => seq!['G', 'r', 'o', 'u', 'p', '-'] + decimal(n),
    }
}

fn digit_str(d: usize) -> (s: &'static str)
    requires
        d < 10,
    ensures
        s@ == seq![digit_char(d as nat)],
{
    proof {
        reveal_strlit("0");
        reveal_strlit("1");
        reveal_strlit("2");
        reveal_strlit("3");
        reveal_strlit("4");
        reveal_strlit("5");
        reveal_strlit("6");
        reveal_strlit("7");
        reveal_strlit("8");
        reveal_strlit("9");
    }
    let s = if d == 0 {
        "0"
    } else if d == 1 {
        "1"
    } else if d == 2 {
        "2"
    } else if d == 3 {
        "3"
    } else if d == 4 {
        "4"
    } else if d == 5 {
        "5"
    } else if d == 6 {
        "6"
    } else if d == 7 {
        "7"
    } else if d == 8 {
        "8"
    } else {
        "9"
    };
    assert(s@ =~= seq![digit_char(d as nat)]);
    s
}

/// Writes `n` in decimal.
pub fn decimal_string(n: usize) -> (s: String)
    ensures
        s@ == decimal(n as nat),
    decreases n,
{
    if n < 10 {
        String::from_str(digit_str(n))
    } else {
        let mut s = decimal_string(n / 10);
        s.append(digit_str(n % 10));
        assert(s@ =~= decimal(n as nat));
        s
    }
}

impl PartyLabel {
    /// Whether the tag names a group.
    pub fn is_group(&self) -> (b: bool)
        ensures
            b == (self@ is Group),
    {
        match self {
            PartyLabel::Solo => false,
            PartyLabel::Group(_) => true,
        }
    }

    /// The text shown for the tag.
    pub fn to_text(&self) -> (s: String)
        ensures
            s@ == label_text(self@),
    {
        match self {
            PartyLabel::Solo => {
                proof {
                    reveal_strlit("Solo");
                }
                let s = String::from_str("Solo");
                assert(s@ =~= label_text(self@));
                s
            },
            PartyLabel::Group(n) => {
                proof {
                    reveal_strlit("Group-");
                }
                let mut s = String::from_str("Group-");
                let digits = decimal_string(*n);
                s.append(digits.as_str());
                assert(s@ =~= label_text(self@));
                s
            },
        }
    }
}

} // verus!
