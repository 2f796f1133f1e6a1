use rock_paper_scissor::{Event, Game, MatchIntake, MatchState, Pallet, MAX_GAMES_PER_BLOCK};

const SEED: [u8; 32] = [5u8; 32];

#[test]
fn a_block_starts_at_most_ten_games() {
    assert_eq!(MAX_GAMES_PER_BLOCK, 10);
    let mut rps = Pallet::new();
    let mut intake = MatchIntake::new();
    let mut pulled = 0u64;
    while intake.pulls() {
        let group = vec![2 * pulled + 1, 2 * pulled + 2];
        assert!(intake.register(&mut rps, group, &SEED).is_some());
        pulled += 1;
    }
    assert_eq!(pulled, 10);
    assert_eq!(intake.groups_taken(), 10);
    assert_eq!(rps.nonce(), 10);
    let before = rps.clone();
    assert_eq!(intake.register(&mut rps, vec![91, 92], &SEED), None);
    assert_eq!(rps, before);
    assert_eq!(intake.groups_taken(), 10);
}

#[test]
fn an_empty_group_ends_the_intake() {
    let mut rps = Pallet::new();
    let mut intake = MatchIntake::new();
    assert!(intake.pulls());
    assert!(intake.register(&mut rps, vec![1, 2], &SEED).is_some());
    assert!(intake.pulls());
    let before = rps.clone();
    assert_eq!(intake.register(&mut rps, vec![], &SEED), None);
    assert_eq!(rps, before);
    assert!(!intake.pulls());
    assert_eq!(intake.register(&mut rps, vec![3, 4], &SEED), None);
    assert_eq!(rps, before);
    assert_eq!(intake.groups_taken(), 1);
}

#[test]
fn a_matched_group_gets_a_game() {
    let mut rps = Pallet::new();
    let mut intake = MatchIntake::new();
    let id = match intake.register(&mut rps, vec![7, 8], &SEED) {
        Some(Event::NewGame(id)) => id,
        other => panic!("no game was started: {:?}", other),
    };
    assert_eq!(
        rps.games(&id),
        Game { id, players: vec![7, 8], match_state: MatchState::Initiate(vec![7, 8]) }
    );
    assert_eq!(rps.player_game(7), id);
    assert_eq!(rps.player_game(8), id);
    assert_eq!(intake.groups_taken(), 1);
}

#[test]
fn a_new_block_starts_a_new_intake() {
    let intake = MatchIntake::new();
    assert!(intake.pulls());
    assert_eq!(intake.groups_taken(), 0);
}

#[test]
fn a_group_that_names_a_player_twice_is_dropped() {
    let mut rps = Pallet::new();
    let mut intake = MatchIntake::new();
    assert_eq!(intake.register(&mut rps, vec![5, 5], &SEED), None);
    assert_eq!(intake.register(&mut rps, vec![1, 2, 1], &SEED), None);
    assert_eq!(rps, Pallet::new());
    assert_eq!(intake.groups_taken(), 2);
    assert!(intake.pulls());
    assert!(intake.register(&mut rps, vec![1, 2], &SEED).is_some());
    assert_eq!(intake.groups_taken(), 3);
}

#[test]
fn dropped_groups_count_towards_the_cap() {
    let mut rps = Pallet::new();
    let mut intake = MatchIntake::new();
    let mut pulled = 0;
    while intake.pulls() {
        assert_eq!(intake.register(&mut rps, vec![7, 7], &SEED), None);
        pulled += 1;
    }
    assert_eq!(pulled, 10);
    assert_eq!(rps, Pallet::new());
}
