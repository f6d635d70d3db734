use vstd::prelude::*;
use crate::score::GameState;

verus! {

/// What a HUD element shows.
#[derive(Clone, Copy, Debug, PartialEq, Eq)]
pub enum HudRole {
    Score,
    HighScore,
}

/// A HUD text element: its role, fixed when it is made, and the text shown.
#[derive(Debug)]
pub struct HudText {
    pub role: HudRole,
    pub text: String,
}

/// The label shown above the value.
pub open spec fn label(role: HudRole) -> Seq<char> {
    match role {
        HudRole::Score => seq!['S', 'C', 'O', 'R', 'E'],
        HudRole::HighScore => seq!['H', 'I', 'G', 'H', ' ', 'S', 'C', 'O', 'R', 'E'],
    }
}

pub open spec fn digit(d: nat) -> char {
    seq!['0', '1', '2', '3', '4', '5', '6', '7', '8', '9'][d as int]
}

/// The decimal digits of `n`, without leading zeros.
pub open spec fn decimal(n: nat) -> Seq<char>
    decreases n,
{
    if n < 10 {
        seq![digit(n)]
    } else {
        decimal(n / 10).push(digit(n % 10))
    }
}

/// The value an element of the given role shows.
pub open spec fn shown_value(role: HudRole, state: GameState) -> nat {
    match role {
        HudRole::Score => state.score as nat,
        HudRole::HighScore => state.high_score as nat,
    }
}

/// The text of an element showing `value`: the label, a line break, the value.
pub open spec fn hud_line(role: HudRole, value: nat) -> Seq<char> {
    label(role) + seq!['\n'] + decimal(value)
}

fn label_str(role: HudRole) -> (r: &'static str)
    ensures
        r@ == label(role),
{
    match role {
        HudRole::Score => {
            proof {
                reveal_strlit("SCORE");
            }
            assert("SCORE"@ =~= label(role));
            "SCORE"
        },
        HudRole::HighScore => {
            proof {
                reveal_strlit("HIGH SCORE");
            }
            assert("HIGH SCORE"@ =~= label(role));
            "HIGH SCORE"
        },
    }
}

fn digit_str(d: u32) -> (r: &'static str)
    requires
        d < 10,
    ensures
        r@ == seq![digit(d as nat)],
{
    assert(seq!['0', '1', '2', '3', '4', '5', '6', '7', '8', '9'][d as int] == digit(d as nat));
    if d == 0 {
        proof {
            reveal_strlit("0");
        }
        "0"
    } else if d == 1 {
        proof {
            reveal_strlit("1");
        }
        "1"
    } else if d == 2 {
        proof {
            reveal_strlit("2");
        }
        "2"
    } else if d == 3 {
        proof {
            reveal_strlit("3");
        }
        "3"
    } else if d == 4 {
        proof {
            reveal_strlit("4");
        }
        "4"
    } else if d == 5 {
        proof {
            reveal_strlit("5");
        }
        "5"
    } else if d == 6 {
        proof {
            reveal_strlit("6");
        }
        "6"
    } else if d == 7 {
        proof {
            reveal_strlit("7");
        }
        "7"
    } else if d == 8 {
        proof {
            reveal_strlit("8");
        }
        "8"
    } else if d == 9 {
        proof {
            reveal_strlit("9");
        }
        "9"
    } else {
        proof {
            reveal_strlit("9");
        }
        "9"
    }
}

/// Appends the decimal digits of `n` to `out`.
fn push_decimal(out: &mut String, n: u32)
    ensures
        final(out)@ == old(out)@ + decimal(n as nat),
    decreases n,
{
    if n >= 10 {
        push_decimal(out, n / 10);
    }
    out.append(digit_str(n % 10));
    assert(out@ =~= old(out)@ + decimal(n as nat));
}

/// The text of an element of role `role` showing `value`.
pub fn hud_text(role: HudRole, value: u32) -> (r: String)
    ensures
        r@ == hud_line(role, value as nat),
{
    let mut out = String::from_str(label_str(role));
    proof {
        reveal_strlit("\n");
    }
    out.append("\n");
    push_decimal(&mut out, value);
    assert(out@ =~= hud_line(role, value as nat));
    out
}

impl HudText {
    /// A new element, showing its label and a value of zero.
    pub fn new(role: HudRole) -> (r: HudText)
        ensures
            r.role == role,
            r.text@ == hud_line(role, 0),
    {
        HudText { role, text: hud_text(role, 0) }
    }
}

/// Rewrites the element's text from the game state: its label, a line break,
/// and the score or the high score according to its role.
pub fn sync_hud(state: &GameState, element: &mut HudText)
    ensures
        final(element).role == old(element).role,
        final(element).text@ == hud_line(old(element).role, shown_value(old(element).role, *state)),
{
    let value = match element.role {
        HudRole::Score => state.score,
        HudRole::HighScore => state.high_score,
    };
    element.text = hud_text(element.role, value);
}

} // verus!
