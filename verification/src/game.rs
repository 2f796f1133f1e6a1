//! A game and its phases.
//!
//! Each phase waits for every player once. A player that acts leaves the
//! phase's pending list; when the list runs empty the game moves on, and the
//! next phase waits for all players again.

use vstd::prelude::*;
use crate::commitment::{zero_hash, H256};

verus! {

/// The identity of a player.
pub type AccountId = u64;

/// The account that stands for "no player": the winner of a game nobody won.
pub const NO_PLAYER: AccountId = 0;

/// The phase of a game. `Initiate`, `Choose` and `Reveal` hold the players
/// that the phase still waits for; `Finished` holds the winner, or
/// [`NO_PLAYER`].
#[derive(Debug, PartialEq, Eq)]
pub enum MatchState {
    Unset,
    Initiate(Vec<AccountId>),
    Choose(Vec<AccountId>),
    Reveal(Vec<AccountId>),
    Finished(AccountId),
}

/// A phase as a mathematical value.
pub ghost enum MatchStateView {
    Unset,
    Initiate(Seq<AccountId>),
    Choose(Seq<AccountId>),
    Reveal(Seq<AccountId>),
    Finished(AccountId),
}

impl MatchStateView {
    /// The players that the phase still waits for.
    pub open spec fn pending(self) -> Seq<AccountId> {
        match self {
            MatchStateView::Initiate(pending) => pending,
            MatchStateView::Choose(pending) => pending,
            MatchStateView::Reveal(pending) => pending,
            _ => Seq::empty(),
        }
    }

    /// Whether the phase is one that waits for players.
    pub open spec fn waits(self) -> bool {
        self is Initiate || self is Choose || self is Reveal
    }

    /// The place of the phase in the order of play.
    pub open spec fn rank(self) -> nat {
        match self {
            MatchStateView::Unset => 0,
            MatchStateView::Initiate(_) => 1,
            MatchStateView::Choose(_) => 2,
            MatchStateView::Reveal(_) => 3,
            MatchStateView::Finished(_) => 4,
        }
    }
}

impl View for MatchState {
    type V = MatchStateView;

    open spec fn view(&self) -> MatchStateView {
        match self {
            MatchState::Unset => MatchStateView::Unset,
            MatchState::Initiate(pending) => MatchStateView::Initiate(pending@),
            MatchState::Choose(pending) => MatchStateView::Choose(pending@),
            MatchState::Reveal(pending) => MatchStateView::Reveal(pending@),
            MatchState::Finished(winner) => MatchStateView::Finished(*winner),
        }
    }
}

impl Default for MatchState {
    fn default() -> (state: Self)
        ensures
            state@ == MatchStateView::Unset,
    {
        MatchState::Unset
    }
}

impl Clone for MatchState {
    fn clone(&self) -> (state: Self)
        ensures
            state@ == self@,
    {
        match self {
            MatchState::Unset => MatchState::Unset,
            MatchState::Initiate(pending) => MatchState::Initiate(pending.clone()),
            MatchState::Choose(pending) => MatchState::Choose(pending.clone()),
            MatchState::Reveal(pending) => MatchState::Reveal(pending.clone()),
            MatchState::Finished(winner) => MatchState::Finished(*winner),
        }
    }
}

/// A game: its identifier, its players in the order in which they joined,
/// and its phase.
#[derive(Debug, PartialEq, Eq)]
pub struct Game {
    pub id: H256,
    pub players: Vec<AccountId>,
    pub match_state: MatchState,
}

/// A game as a mathematical value.
pub ghost struct GameView {
    pub id: H256,
    pub players: Seq<AccountId>,
    pub match_state: MatchStateView,
}

/// Every one of `pending` is among `players`.
pub open spec fn all_among(pending: Seq<AccountId>, players: Seq<AccountId>) -> bool {
    forall|i: int| 0 <= i < pending.len() ==> players.contains(#[trigger] pending[i])
}

impl GameView {
    /// Every player that the phase waits for is a player of the game.
    pub open spec fn pending_are_players(self) -> bool {
        all_among(self.match_state.pending(), self.players)
    }

    /// The game has players, each of them once; it waits for none but
    /// them, for none of them twice, and for someone while it is in a phase
    /// that waits.
    pub open spec fn sound(self) -> bool {
        &&& self.players.len() > 0
        &&& self.players.no_duplicates()
        &&& self.match_state.pending().no_duplicates()
        &&& self.pending_are_players()
        &&& self.match_state.waits() ==> self.match_state.pending().len() > 0
    }
}

impl View for Game {
    type V = GameView;

    open spec fn view(&self) -> GameView {
        GameView { id: self.id, players: self.players@, match_state: self.match_state@ }
    }
}

impl Default for Game {
    fn default() -> (game: Self)
        ensures
            game@ == Game::spec_default(),
    {
        Game { id: [0u8; 32], players: Vec::new(), match_state: MatchState::Unset }
    }
}

impl Clone for Game {
    fn clone(&self) -> (game: Self)
        ensures
            game@ == self@,
    {
        Game {
            id: self.id,
            players: self.players.clone(),
            match_state: self.match_state.clone(),
        }
    }
}

impl Game {
    /// The game that stands for "no game": all zeroes, no players, no phase.
    pub open spec fn spec_default() -> GameView {
        GameView { id: zero_hash(), players: Seq::empty(), match_state: MatchStateView::Unset }
    }

    /// Whether the game has players, each of them once, and waits for none
    /// but them, for none of them twice, and for someone while it is in a
    /// phase that waits.
    pub fn is_sound(&self) -> (sound: bool)
        ensures
            sound == self@.sound(),
    {
        if self.players.len() == 0 || !distinct(&self.players) {
            return false;
        }
        match &self.match_state {
            MatchState::Initiate(pending) => waits_well(pending, &self.players),
            MatchState::Choose(pending) => waits_well(pending, &self.players),
            MatchState::Reveal(pending) => waits_well(pending, &self.players),
            _ => {
                assert(self@.match_state.pending() =~= Seq::<AccountId>::empty());
                true
            },
        }
    }

    /// Whether the game's phase waits for `player`.
    pub fn awaits(&self, player: AccountId) -> (waiting: bool)
        ensures
            waiting == self@.match_state.pending().contains(player),
    {
        match &self.match_state {
            MatchState::Initiate(pending) => contains(pending, player),
            MatchState::Choose(pending) => contains(pending, player),
            MatchState::Reveal(pending) => contains(pending, player),
            _ => false,
        }
    }
}

/// Whether a phase that waits for `pending` in a game of `players` waits
/// for someone, for nobody twice, and for players only.
fn waits_well(pending: &Vec<AccountId>, players: &Vec<AccountId>) -> (well: bool)
    ensures
        well == (pending@.len() > 0 && pending@.no_duplicates() && all_among(pending@, players@)),
{
    pending.len() > 0 && distinct(pending) && within(pending, players)
}

/// Whether no player occurs twice in `players`.
pub fn distinct(players: &Vec<AccountId>) -> (no_repeats: bool)
    ensures
        no_repeats == players@.no_duplicates(),
{
    let mut i: usize = 0;
    while i < players.len()
        invariant
            i <= players@.len(),
            forall|a: int, b: int| 0 <= a < b < i ==> players@[a] != players@[b],
        decreases players@.len() - i,
    {
        let mut j: usize = 0;
        while j < i
            invariant
                j <= i < players@.len(),
                forall|a: int| 0 <= a < j ==> players@[a] != players@[i as int],
            decreases i - j,
        {
            if players[j] == players[i] {
                return false;
            }
            j += 1;
        }
        i += 1;
    }
    true
}

/// Whether every one of `pending` is among `players`.
fn within(pending: &Vec<AccountId>, players: &Vec<AccountId>) -> (all: bool)
    ensures
        all == all_among(pending@, players@),
{
    let mut i: usize = 0;
    while i < pending.len()
        invariant
            i <= pending@.len(),
            forall|j: int| 0 <= j < i ==> players@.contains(#[trigger] pending@[j]),
        decreases pending@.len() - i,
    {
        if !contains(players, pending[i]) {
            return false;
        }
        i += 1;
    }
    true
}

/// Whether `player` is among `players`.
fn contains(players: &Vec<AccountId>, player: AccountId) -> (found: bool)
    ensures
        found == players@.contains(player),
{
    let mut i: usize = 0;
    while i < players.len()
        invariant
            i <= players@.len(),
            forall|j: int| 0 <= j < i ==> players@[j] != player,
        decreases players@.len() - i,
    {
        if players[i] == player {
            return true;
        }
        i += 1;
    }
    false
}

/// `pending` after the first occurrence of `player` has left it: the last
/// entry takes the freed place.
pub open spec fn swap_removed(pending: Seq<AccountId>, player: AccountId) -> Seq<AccountId> {
    match pending.index_of_first(player) {
        Some(i) => pending.update(i, pending.last()).drop_last(),
        None => pending,
    }
}

/// Takes the first occurrence of `player` out of `players`, if there is one,
/// and says whether there was.
pub fn try_remove(player: AccountId, players: &mut Vec<AccountId>) -> (removed: bool)
    ensures
        removed == old(players)@.contains(player),
        final(players)@ == swap_removed(old(players)@, player),
{
    let mut i: usize = 0;
    while i < players.len()
        invariant
            i <= players@.len(),
            players@ == old(players)@,
            forall|j: int| 0 <= j < i ==> players@[j] != player,
        decreases players@.len() - i,
    {
        if players[i] == player {
            proof {
                players@.index_of_first_ensures(player);
            }
            players.swap_remove(i);
            return true;
        }
        i += 1;
    }
    proof {
        players@.index_of_first_ensures(player);
    }
    false
}

/// The phase that follows when `player` acts in `state`, or `None` where the
/// phase does not wait for that player. `players` are the players of the
/// game, and `winner` is whoever wins if this act ends the game.
pub open spec fn next_state(
    state: MatchStateView,
    players: Seq<AccountId>,
    player: AccountId,
    winner: AccountId,
) -> Option<MatchStateView> {
    let rest = swap_removed(state.pending(), player);
    if !state.pending().contains(player) {
        None
    } else {
        match state {
            MatchStateView::Initiate(_) => Some(
                if rest.len() == 0 {
                    MatchStateView::Choose(players)
                } else {
                    MatchStateView::Initiate(rest)
                },
            ),
            MatchStateView::Choose(_) => Some(
                if rest.len() == 0 {
                    MatchStateView::Reveal(players)
                } else {
                    MatchStateView::Choose(rest)
                },
            ),
            MatchStateView::Reveal(_) => Some(
                if rest.len() == 0 {
                    MatchStateView::Finished(winner)
                } else {
                    MatchStateView::Reveal(rest)
                },
            ),
            _ => None,
        }
    }
}

/// Whoever is left after a player has gone was there before.
pub proof fn lemma_swap_removed_within(pending: Seq<AccountId>, player: AccountId)
    ensures
        all_among(swap_removed(pending, player), pending),
        pending.contains(player) ==> swap_removed(pending, player).len() + 1 == pending.len(),
{
    pending.index_of_first_ensures(player);
}

/// Where nobody is awaited twice, a player that has gone is gone: the rest
/// holds nobody twice, and not that player.
pub proof fn lemma_swap_removed_is_gone(pending: Seq<AccountId>, player: AccountId)
    requires
        pending.no_duplicates(),
    ensures
        swap_removed(pending, player).no_duplicates(),
        pending.contains(player) ==> !swap_removed(pending, player).contains(player),
        forall|other: AccountId|
            other != player && pending.contains(other) ==> #[trigger] swap_removed(
                pending,
                player,
            ).contains(other),
{
    pending.index_of_first_ensures(player);
    let rest = swap_removed(pending, player);
    if pending.contains(player) {
        let gone = pending.index_of_first(player).unwrap();
        assert forall|other: AccountId| other != player && pending.contains(other) implies rest.contains(
            other,
        ) by {
            let k = choose|k: int| 0 <= k < pending.len() && pending[k] == other;
            if k == pending.len() - 1 {
                assert(rest[gone] == other);
            } else {
                assert(rest[k] == other);
            }
        }
        let at = pending.index_of_first(player).unwrap();
        assert forall|k: int| 0 <= k < rest.len() implies rest[k] == pending[if k == at {
            pending.len() - 1
        } else {
            k
        }] by {}
        assert forall|k: int| 0 <= k < rest.len() implies rest[k] != player by {
            let from = if k == at {
                pending.len() - 1
            } else {
                k
            };
            assert(rest[k] == pending[from]);
            assert(from != at);
        }
    }
}

/// A sound game stays sound when a player acts: it still waits for none but
/// its own players, and for someone unless it is finished.
pub proof fn lemma_sound_games_stay_sound(game: GameView, player: AccountId, winner: AccountId)
    requires
        game.sound(),
        next_state(game.match_state, game.players, player, winner) is Some,
    ensures
        (GameView {
            match_state: next_state(game.match_state, game.players, player, winner).unwrap(),
            ..game
        }).sound(),
{
    lemma_swap_removed_within(game.match_state.pending(), player);
    lemma_swap_removed_is_gone(game.match_state.pending(), player);
}

/// A player that has acted is no longer awaited in the phase in which it
/// acted: if the game stays in its phase, its pending list has lost the
/// player.
pub proof fn lemma_player_that_acted_is_not_awaited(
    game: GameView,
    player: AccountId,
    winner: AccountId,
)
    requires
        game.sound(),
        next_state(game.match_state, game.players, player, winner) is Some,
    ensures
        ({
            let next = next_state(game.match_state, game.players, player, winner).unwrap();
            next.rank() == game.match_state.rank() ==> !next.pending().contains(player)
        }),
{
    lemma_swap_removed_is_gone(game.match_state.pending(), player);
}

/// A game changes its phase only when the last pending player has acted,
/// and then it moves to the phase that follows in the order of play.
pub proof fn lemma_phase_advances_when_pending_is_empty(
    state: MatchStateView,
    players: Seq<AccountId>,
    player: AccountId,
    winner: AccountId,
)
    requires
        next_state(state, players, player, winner) is Some,
    ensures
        ({
            let next = next_state(state, players, player, winner).unwrap();
            let rest = swap_removed(state.pending(), player);
            &&& rest.len() == 0 ==> next.rank() == state.rank() + 1
            &&& rest.len() != 0 ==> next.rank() == state.rank() && next.pending() == rest
        }),
{
}

} // verus!
