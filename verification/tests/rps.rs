use rock_paper_scissor::{Error, MatchState, Pallet, WeaponType};

const MATERIAL: [u8; 32] = [7u8; 32];

#[test]
fn test_game_creation() {
    let mut rps = Pallet::new();

    let player_1: u64 = 1;
    let player_2: u64 = 2;
    let player_3: u64 = 3;

    // Test player can not play against himself
    let before = rps.clone();
    assert_eq!(
        rps.new_game(player_1, player_1, false, false, &MATERIAL),
        Err(Error::NoFakePlay)
    );
    assert_eq!(rps, before);

    // Test game creation between to different players
    assert!(rps.new_game(player_1, player_2, false, false, &MATERIAL).is_ok());

    let game_id_1 = rps.player_game(player_1);
    let game_id_2 = rps.player_game(player_2);

    assert_eq!(game_id_1, game_id_2);

    let before = rps.clone();
    assert_eq!(
        rps.new_game(player_1, player_3, false, false, &MATERIAL),
        Err(Error::PlayerHasGame)
    );
    assert_eq!(rps, before);

    assert_eq!(
        rps.new_game(player_3, player_2, false, false, &MATERIAL),
        Err(Error::PlayerHasGame)
    );
    assert_eq!(rps, before);

    let _game = rps.games(&game_id_1);
}

#[test]
fn try_simple_rps_game_1() {
    let mut rps = Pallet::new();

    let player_1: u64 = 1;
    let salt_1: [u8; 32] = [1u8; 32];

    let player_2: u64 = 2;
    let salt_2: [u8; 32] = [2u8; 32];

    // Create game
    assert!(rps.new_game(player_1, player_2, false, false, &MATERIAL).is_ok());
    let game_id = rps.player_game(player_1);
    let game = rps.games(&game_id);
    assert!(matches!(game.match_state, MatchState::Initiate(_)));

    // Initiate phase
    assert_eq!(rps.initiate(player_1), Ok(()));
    let game = rps.games(&game_id);
    assert!(matches!(game.match_state, MatchState::Initiate(_)));

    assert_eq!(rps.initiate(player_2), Ok(()));
    let game = rps.games(&game_id);
    assert!(matches!(game.match_state, MatchState::Choose(_)));

    // Choose phase
    assert_eq!(rps.choose_weapon(player_2, WeaponType::Paper, salt_2), Ok(()));
    let game = rps.games(&game_id);
    assert!(matches!(game.match_state, MatchState::Choose(_)));

    assert_eq!(rps.choose_weapon(player_1, WeaponType::Scissor, salt_1), Ok(()));
    let game = rps.games(&game_id);
    assert!(matches!(game.match_state, MatchState::Reveal(_)));

    // Reveal phase
    assert_eq!(rps.reveal_weapon(player_1, WeaponType::Scissor, salt_1), Ok(()));
    let game = rps.games(&game_id);
    assert!(matches!(game.match_state, MatchState::Reveal(_)));

    // trying to cheat !!!
    let before = rps.clone();
    assert_eq!(
        rps.reveal_weapon(player_2, WeaponType::Rock, salt_2),
        Err(Error::BadBehaviour)
    );
    assert_eq!(rps, before);
    assert_eq!(
        rps.reveal_weapon(player_2, WeaponType::Paper, salt_1),
        Err(Error::BadBehaviour)
    );
    assert_eq!(rps, before);

    assert_eq!(rps.reveal_weapon(player_2, WeaponType::Paper, salt_2), Ok(()));
    let game = rps.games(&game_id);
    assert!(matches!(game.match_state, MatchState::Finished(_)));

    // finished phase
    if let MatchState::Finished(winner) = game.match_state {
        assert_eq!(winner, player_1);
    } else {
        assert!(false);
    }
}

#[test]
fn try_simple_rps_game_2() {
    let mut rps = Pallet::new();

    let player_1: u64 = 1;
    let salt_1: [u8; 32] = [1u8; 32];

    let player_2: u64 = 2;
    let salt_2: [u8; 32] = [2u8; 32];

    // Create game
    assert!(rps.new_game(player_1, player_2, false, false, &MATERIAL).is_ok());
    let game_id = rps.player_game(player_1);

    // Initiate phase
    assert_eq!(rps.initiate(player_1), Ok(()));
    assert_eq!(rps.initiate(player_2), Ok(()));

    // Choose phase
    assert_eq!(rps.choose_weapon(player_2, WeaponType::Scissor, salt_2), Ok(()));
    assert_eq!(rps.choose_weapon(player_1, WeaponType::Paper, salt_1), Ok(()));

    // Reveal phase
    assert_eq!(rps.reveal_weapon(player_1, WeaponType::Paper, salt_1), Ok(()));
    assert_eq!(rps.reveal_weapon(player_2, WeaponType::Scissor, salt_2), Ok(()));
    let game = rps.games(&game_id);
    assert!(matches!(game.match_state, MatchState::Finished(_)));

    // finished phase
    if let MatchState::Finished(winner) = game.match_state {
        assert_eq!(winner, player_2);
    } else {
        assert!(false);
    }
}

#[test]
fn try_simple_rps_game_3() {
    let mut rps = Pallet::new();

    let player_1: u64 = 1;
    let salt_1: [u8; 32] = [1u8; 32];

    let player_2: u64 = 2;
    let salt_2: [u8; 32] = [2u8; 32];

    // Create game
    assert!(rps.new_game(player_1, player_2, false, false, &MATERIAL).is_ok());
    let game_id = rps.player_game(player_1);

    // Initiate phase
    assert_eq!(rps.initiate(player_1), Ok(()));
    assert_eq!(rps.initiate(player_2), Ok(()));

    // Choose phase
    assert_eq!(rps.choose_weapon(player_2, WeaponType::Scissor, salt_2), Ok(()));
    assert_eq!(rps.choose_weapon(player_1, WeaponType::Scissor, salt_1), Ok(()));

    // Reveal phase
    assert_eq!(rps.reveal_weapon(player_1, WeaponType::Scissor, salt_1), Ok(()));
    assert_eq!(rps.reveal_weapon(player_2, WeaponType::Scissor, salt_2), Ok(()));
    let game = rps.games(&game_id);
    assert!(matches!(game.match_state, MatchState::Finished(_)));

    // finished phase
    if let MatchState::Finished(winner) = game.match_state {
        assert_eq!(winner, 0);
    } else {
        assert!(false);
    }
}
