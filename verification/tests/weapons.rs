use rock_paper_scissor::weapon::{FIRST_WINS, SECOND_WINS, TIE};
use rock_paper_scissor::{game_logic, WeaponType};

const ALL: [WeaponType; 4] =
    [WeaponType::Unset, WeaponType::Rock, WeaponType::Paper, WeaponType::Scissor];

#[test]
fn outcome_codes_are_zero_one_two() {
    assert_eq!(TIE, 0);
    assert_eq!(FIRST_WINS, 1);
    assert_eq!(SECOND_WINS, 2);
}

#[test]
fn equal_weapons_tie() {
    for weapon in ALL {
        assert_eq!(game_logic(&weapon, &weapon), 0);
    }
}

#[test]
fn rock_beats_scissor() {
    assert_eq!(game_logic(&WeaponType::Rock, &WeaponType::Scissor), 1);
    assert_eq!(game_logic(&WeaponType::Scissor, &WeaponType::Rock), 2);
}

#[test]
fn paper_beats_rock() {
    assert_eq!(game_logic(&WeaponType::Paper, &WeaponType::Rock), 1);
    assert_eq!(game_logic(&WeaponType::Rock, &WeaponType::Paper), 2);
}

#[test]
fn scissor_beats_paper() {
    assert_eq!(game_logic(&WeaponType::Scissor, &WeaponType::Paper), 1);
    assert_eq!(game_logic(&WeaponType::Paper, &WeaponType::Scissor), 2);
}

#[test]
fn every_weapon_beats_unset_and_unset_beats_none() {
    for weapon in [WeaponType::Rock, WeaponType::Paper, WeaponType::Scissor] {
        assert_eq!(game_logic(&weapon, &WeaponType::Unset), 1);
        assert_eq!(game_logic(&WeaponType::Unset, &weapon), 2);
    }
}

#[test]
fn comparison_is_antisymmetric() {
    for a in ALL {
        for b in ALL {
            let forth = game_logic(&a, &b);
            let back = game_logic(&b, &a);
            match forth {
                0 => assert_eq!(back, 0),
                1 => assert_eq!(back, 2),
                _ => assert_eq!(back, 1),
            }
        }
    }
}

#[test]
fn weapon_codes() {
    assert_eq!(WeaponType::Unset.code(), 0);
    assert_eq!(WeaponType::Rock.code(), 1);
    assert_eq!(WeaponType::Paper.code(), 2);
    assert_eq!(WeaponType::Scissor.code(), 3);
}

#[test]
fn default_weapon_is_unset() {
    assert_eq!(WeaponType::default(), WeaponType::Unset);
}
