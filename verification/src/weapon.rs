//! The three-way weapon relation.

use vstd::prelude::*;

verus! {

/// A weapon. `Unset` is the default and never beats anything.
#[derive(Clone, Copy, Debug, PartialEq, Eq, Structural)]
pub enum WeaponType {
    Unset,
    Rock,
    Paper,
    Scissor,
}

/// Outcome code of a comparison: both sides hold the same weapon.
pub const TIE: u8 = 0;

/// Outcome code of a comparison: the first weapon beats the second.
pub const FIRST_WINS: u8 = 1;

/// Outcome code of a comparison: the second weapon stands.
pub const SECOND_WINS: u8 = 2;

/// `a` beats `b`: rock blunts scissor, paper wraps rock, scissor cuts paper,
/// and any real weapon beats `Unset`.
pub open spec fn beats(a: WeaponType, b: WeaponType) -> bool {
    match (a, b) {
        (WeaponType::Unset, _) => false,
        (_, WeaponType::Unset) => true,
        (WeaponType::Rock, WeaponType::Scissor) => true,
        (WeaponType::Paper, WeaponType::Rock) => true,
        (WeaponType::Scissor, WeaponType::Paper) => true,
        _ => false,
    }
}

/// The outcome code of `a` against `b`.
pub open spec fn outcome(a: WeaponType, b: WeaponType) -> u8 {
    if a == b {
        TIE
    } else if beats(a, b) {
        FIRST_WINS
    } else {
        SECOND_WINS
    }
}

impl WeaponType {
    /// The numeric code of the weapon, as it is written into a commitment.
    pub open spec fn spec_code(self) -> u8 {
        match self {
            WeaponType::Unset => 0,
            WeaponType::Rock => 1,
            WeaponType::Paper => 2,
            WeaponType::Scissor => 3,
        }
    }

    /// The numeric code of the weapon, as it is written into a commitment.
    #[verifier::when_used_as_spec(spec_code)]
    pub fn code(self) -> (c: u8)
        ensures
            c == self.spec_code(),
    {
        match self {
            WeaponType::Unset => 0,
            WeaponType::Rock => 1,
            WeaponType::Paper => 2,
            WeaponType::Scissor => 3,
        }
    }
}

impl Default for WeaponType {
    fn default() -> (w: Self)
        ensures
            w == WeaponType::Unset,
    {
        WeaponType::Unset
    }
}

/// Compares weapon `a` with weapon `b`.
pub fn game_logic(a: &WeaponType, b: &WeaponType) -> (r: u8)
    ensures
        r == outcome(*a, *b),
{
    match a {
        WeaponType::Unset => {
            if *a == *b {
                TIE
            } else {
                SECOND_WINS
            }
        },
        WeaponType::Rock => {
            if *a == *b {
                TIE
            } else if let WeaponType::Paper = b {
                SECOND_WINS
            } else {
                FIRST_WINS
            }
        },
        WeaponType::Paper => {
            if *a == *b {
                TIE
            } else if let WeaponType::Scissor = b {
                SECOND_WINS
            } else {
                FIRST_WINS
            }
        },
        WeaponType::Scissor => {
            if *a == *b {
                TIE
            } else if let WeaponType::Rock = b {
                SECOND_WINS
            } else {
                FIRST_WINS
            }
        },
    }
}

} // verus!
