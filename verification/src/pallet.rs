//! The registry of games and the actions that players take on it.
//!
//! The registry holds every game under its identifier, for each player the
//! identifier of its game, and what each player has on record in each game.
//! An action that is refused leaves the registry as it was.

use vstd::prelude::*;
use vstd::bytes::spec_u64_to_le_bytes;
use crate::commitment::{
    commitment, decode_seed, game_id, hash_choice, mismatched, open_commitment, opened,
    runtime_hash, same_hash,
    scale_encode_seed_material, scale_encode_u64, zero_hash, Choice, H256,
};
use crate::error::Error;
use crate::game::{
    lemma_player_that_acted_is_not_awaited, lemma_sound_games_stay_sound,
    lemma_swap_removed_is_gone, lemma_swap_removed_within, next_state, swap_removed, try_remove,
    AccountId, Game, GameView, MatchState, MatchStateView, NO_PLAYER,
};
use crate::resolver::{
    champion_after, lemma_submission_order_is_irrelevant, one_reveal_each, submitted, winner,
    Champion, Choices,
};
use crate::table::Table;
use crate::weapon::{game_logic, WeaponType, FIRST_WINS, SECOND_WINS};

verus! {

/// What the registry reports to the outside.
#[derive(Debug, PartialEq, Eq)]
pub enum Event {
    /// A new game got created.
    NewGame(H256),
    /// A game's phase changed.
    MatchStateChange(H256, MatchState),
}

/// The nonce of a registry that has not made an identifier yet.
#[allow(non_snake_case)]
pub fn NonceDefault() -> (nonce: u64)
    ensures
        nonce == 0,
{
    0
}

/// The matchmaking bracket that players queue in.
pub const BRACKET: u8 = 0;

/// The registry.
#[derive(Clone, Debug, PartialEq, Eq)]
pub struct Pallet {
    nonce: u64,
    games: Table<H256, Game>,
    player_game: Table<AccountId, H256>,
    player_choice: Table<(H256, AccountId), Choice>,
}

/// The registry as a mathematical value.
pub ghost struct PalletView {
    /// The nonce that the next identifier takes.
    pub nonce: u64,
    /// Every game, under its identifier.
    pub games: Map<H256, GameView>,
    /// For each player that has one, the identifier of its game.
    pub player_game: Map<AccountId, H256>,
    /// What each player has on record in each game.
    pub player_choice: Choices,
}

/// The games of a table as mathematical values.
spec fn game_views(games: Map<H256, Game>) -> Map<H256, GameView> {
    Map::new(|id: H256| games.contains_key(id), |id: H256| games[id]@)
}

/// `pointers` after each of `players` has been pointed to game `id`.
pub open spec fn registered(pointers: Map<AccountId, H256>, players: Seq<AccountId>, id: H256)
    -> Map<AccountId, H256> {
    Map::new(
        |player: AccountId| pointers.contains_key(player) || players.contains(player),
        |player: AccountId|
            if players.contains(player) {
                id
            } else {
                pointers[player]
            },
    )
}

/// Pointing one more player to a game is one more entry.
proof fn lemma_registered_push(
    pointers: Map<AccountId, H256>,
    done: Seq<AccountId>,
    player: AccountId,
    id: H256,
)
    ensures
        registered(pointers, done.push(player), id) == registered(pointers, done, id).insert(
            player,
            id,
        ),
{
    let more = done.push(player);
    assert forall|p: AccountId| more.contains(p) == (done.contains(p) || p == player) by {
        if done.contains(p) {
            let j = choose|j: int| 0 <= j < done.len() && done[j] == p;
            assert(more[j] == p);
        }
        if p == player {
            assert(more[done.len() as int] == p);
        }
    }
    assert(registered(pointers, more, id) =~= registered(pointers, done, id).insert(player, id));
}

impl PalletView {
    /// The registry before anything has happened.
    pub open spec fn empty() -> PalletView {
        PalletView {
            nonce: 0,
            games: Map::empty(),
            player_game: Map::empty(),
            player_choice: Map::empty(),
        }
    }

    /// Every game is on record under its own identifier and is sound: it
    /// has players, each of them once, waits for none but them and for none
    /// of them twice, and waits for someone unless it is finished.
    pub open spec fn inv(self) -> bool {
        forall|id: H256| #[trigger]
            self.games.contains_key(id) ==> {
                &&& self.games[id].id == id
                &&& self.games[id].sound()
            }
    }

    /// The game that `who` is in, where the registry holds both the player's
    /// pointer and the game.
    pub open spec fn game_of(self, who: AccountId) -> Option<GameView> {
        if self.player_game.contains_key(who) && self.games.contains_key(self.player_game[who]) {
            Some(self.games[self.player_game[who]])
        } else {
            None
        }
    }

    /// The registry after a game for `players` has gone on record under
    /// `id`: the game waits for all of them to initiate, and each of them
    /// points to it.
    pub open spec fn filed(self, id: H256, players: Seq<AccountId>) -> PalletView {
        PalletView {
            games: self.games.insert(
                id,
                GameView { id, players, match_state: MatchStateView::Initiate(players) },
            ),
            player_game: registered(self.player_game, players, id),
            ..self
        }
    }

    /// The registry after a game `id` has been created for `players`: the
    /// game is on record, and the nonce has moved on.
    pub open spec fn created(self, id: H256, players: Seq<AccountId>) -> PalletView {
        PalletView {
            nonce: if self.nonce == u64::MAX {
                0
            } else {
                (self.nonce + 1) as u64
            },
            ..self.filed(id, players)
        }
    }

    /// The registry after `record` has been put on record for `who` in game
    /// `id`.
    pub open spec fn recorded(self, id: H256, who: AccountId, record: Choice) -> PalletView {
        PalletView { player_choice: self.player_choice.insert((id, who), record), ..self }
    }

    /// The registry after `who` has acted in game `id`: the game has moved
    /// as [`next_state`] says, and found its winner in the records if that
    /// ended it. Where the game does not wait for `who`, nothing changes.
    pub open spec fn advanced(self, id: H256, who: AccountId) -> PalletView
        recommends
            self.games.contains_key(id),
    {
        let game = self.games[id];
        let won = winner(game.players, id, self.player_choice);
        match next_state(game.match_state, game.players, who, won) {
            Some(next) => PalletView {
                games: self.games.insert(id, GameView { match_state: next, ..game }),
                ..self
            },
            None => self,
        }
    }
}

/// Why `new_game` refuses, if it does: a player against itself, then a
/// player that has a game, then a player that waits in the queue.
pub open spec fn new_game_refusal(
    state: PalletView,
    sender: AccountId,
    opponent: AccountId,
    sender_queued: bool,
    opponent_queued: bool,
) -> Option<Error> {
    if sender == opponent {
        Some(Error::NoFakePlay)
    } else if state.player_game.contains_key(sender) || state.player_game.contains_key(opponent) {
        Some(Error::PlayerHasGame)
    } else if sender_queued || opponent_queued {
        Some(Error::AlreadyQueued)
    } else {
        None
    }
}

/// Why `initiate` refuses, if it does: the sender has no game, or the game
/// is in another phase or does not wait for the sender.
pub open spec fn initiate_refusal(state: PalletView, sender: AccountId) -> Option<Error> {
    match state.game_of(sender) {
        None => Some(Error::GameDoesntExist),
        Some(game) => if !(game.match_state is Initiate) || !game.match_state.pending().contains(
            sender,
        ) {
            Some(Error::WrongPhase)
        } else {
            None
        },
    }
}

/// Why `submit_commitment` and `choose_weapon` refuse, if they do: the
/// sender has no game; the game is in another phase; the sender has a record
/// in it already; the game does not wait for the sender.
pub open spec fn choose_refusal(state: PalletView, sender: AccountId) -> Option<Error> {
    match state.game_of(sender) {
        None => Some(Error::GameDoesntExist),
        Some(game) => if !(game.match_state is Choose) {
            Some(Error::WrongPhase)
        } else if state.player_choice.contains_key((state.player_game[sender], sender)) {
            Some(Error::PlayerChoiceExist)
        } else if !game.match_state.pending().contains(sender) {
            Some(Error::WrongPhase)
        } else {
            None
        },
    }
}

/// Why `submit_reveal` and `reveal_weapon` refuse, if they do, when the salt
/// and weapon offered hash to `recomputed`: the sender has no game; the
/// sender has a commitment on record that the offer does not open; the game
/// is in another phase; the sender has no record in it; the game does not
/// wait for the sender; the record is no commitment.
pub open spec fn reveal_refusal(
    state: PalletView,
    sender: AccountId,
    recomputed: H256,
    weapon: WeaponType,
) -> Option<Error> {
    let key = (state.player_game[sender], sender);
    match state.game_of(sender) {
        None => Some(Error::GameDoesntExist),
        Some(game) => if state.player_choice.contains_key(key) && mismatched(
            state.player_choice[key],
            recomputed,
        ) {
            Some(Error::BadBehaviour)
        } else if !(game.match_state is Reveal) {
            Some(Error::WrongPhase)
        } else if !state.player_choice.contains_key(key) {
            Some(Error::PlayerChoiceDoesntExist)
        } else if !game.match_state.pending().contains(sender) {
            Some(Error::WrongPhase)
        } else if opened(state.player_choice[key], recomputed, weapon) is Err {
            Some(Error::BadBehaviour)
        } else {
            None
        },
    }
}

/// Whatever happens, every game stays sound: creating a game, putting a
/// record down and acting in a game all keep the registry in order.
pub proof fn lemma_games_stay_sound(
    state: PalletView,
    id: H256,
    players: Seq<AccountId>,
    who: AccountId,
    record: Choice,
)
    requires
        state.inv(),
    ensures
        players.len() > 0 && players.no_duplicates() ==> state.filed(id, players).inv(),
        players.len() > 0 && players.no_duplicates() ==> state.created(id, players).inv(),
        state.recorded(id, who, record).inv(),
        state.games.contains_key(id) ==> state.advanced(id, who).inv(),
        state.games.contains_key(id) ==> state.recorded(id, who, record).advanced(id, who).inv(),
{
    if state.games.contains_key(id) {
        let game = state.games[id];
        let won = winner(game.players, id, state.player_choice);
        if next_state(game.match_state, game.players, who, won) is Some {
            lemma_sound_games_stay_sound(game, who, won);
        }
        let recorded = state.recorded(id, who, record);
        let won = winner(game.players, id, recorded.player_choice);
        if next_state(game.match_state, game.players, who, won) is Some {
            lemma_sound_games_stay_sound(game, who, won);
        }
    }
}

/// A reveal that does not open the commitment on record is always refused
/// as bad behaviour, whatever the phase of the game and whether or not the
/// game waits for the player.
pub proof fn lemma_mismatched_reveal_is_refused(
    state: PalletView,
    sender: AccountId,
    stored: H256,
    salt: H256,
    weapon: WeaponType,
)
    requires
        state.game_of(sender) is Some,
        state.player_choice.contains_key((state.player_game[sender], sender)),
        state.player_choice[(state.player_game[sender], sender)] == Choice::Choose(stored),
        stored != commitment(salt, weapon.spec_code()),
    ensures
        reveal_refusal(state, sender, commitment(salt, weapon.spec_code()), weapon) == Some(
            Error::BadBehaviour,
        ),
{
}

/// A reveal of the salt and weapon that made the commitment on record, in
/// a game that waits for the sender to reveal, is accepted: the record then
/// shows that weapon, and the game no longer waits for the sender.
pub proof fn lemma_matching_reveal_is_accepted(
    state: PalletView,
    sender: AccountId,
    salt: H256,
    weapon: WeaponType,
)
    requires
        state.inv(),
        state.game_of(sender) matches Some(game) && game.match_state is Reveal
            && game.match_state.pending().contains(sender),
        state.player_choice.contains_key((state.player_game[sender], sender)),
        state.player_choice[(state.player_game[sender], sender)] == Choice::Choose(
            commitment(salt, weapon.spec_code()),
        ),
    ensures
        reveal_refusal(state, sender, commitment(salt, weapon.spec_code()), weapon) is None,
        ({
            let id = state.player_game[sender];
            let after = state.recorded(id, sender, Choice::Reveal(weapon)).advanced(id, sender);
            &&& after.player_choice[(id, sender)] == Choice::Reveal(weapon)
            &&& after.games.contains_key(id)
            &&& after.games[id].match_state is Reveal || after.games[id].match_state is Finished
            &&& !after.games[id].match_state.pending().contains(sender)
        }),
{
    let id = state.player_game[sender];
    let game = state.games[id];
    let recorded = state.recorded(id, sender, Choice::Reveal(weapon));
    let won = winner(game.players, id, recorded.player_choice);
    lemma_player_that_acted_is_not_awaited(game, sender, won);
}

/// The registry after each of `reveals`, a player and its weapon, has been
/// accepted in game `id`, one after the other.
pub open spec fn revealed_in_turn(
    state: PalletView,
    id: H256,
    reveals: Seq<(AccountId, WeaponType)>,
) -> PalletView
    decreases reveals.len(),
{
    if reveals.len() == 0 {
        state
    } else {
        revealed_in_turn(state, id, reveals.drop_last()).recorded(
            id,
            reveals.last().0,
            Choice::Reveal(reveals.last().1),
        ).advanced(id, reveals.last().0)
    }
}

/// Where a game in its reveal phase has taken the first `done` of
/// `reveals`, which come from players that it waits for, one from each: it
/// has their weapons on record, it waits for the others, and it is finished
/// with the winner that the records give once nobody is left.
proof fn lemma_revealed_in_turn(
    state: PalletView,
    id: H256,
    reveals: Seq<(AccountId, WeaponType)>,
    done: nat,
)
    requires
        state.inv(),
        state.games.contains_key(id),
        state.games[id].match_state is Reveal,
        one_reveal_each(reveals),
        reveals.len() == state.games[id].match_state.pending().len(),
        forall|i: int|
            0 <= i < reveals.len() ==> state.games[id].match_state.pending().contains(
                (#[trigger] reveals[i]).0,
            ),
        done <= reveals.len(),
    ensures
        ({
            let game = state.games[id];
            let taken = reveals.take(done as int);
            let now = revealed_in_turn(state, id, taken);
            &&& now.inv()
            &&& now.player_choice == submitted(state.player_choice, id, taken)
            &&& now.games.contains_key(id)
            &&& now.games[id].players == game.players
            &&& done < reveals.len() ==> {
                &&& now.games[id].match_state is Reveal
                &&& now.games[id].match_state.pending().len() == reveals.len() - done
                &&& forall|i: int|
                    done <= i < reveals.len() ==> now.games[id].match_state.pending().contains(
                        (#[trigger] reveals[i]).0,
                    )
            }
            &&& done == reveals.len() ==> now.games[id].match_state == MatchStateView::Finished(
                winner(game.players, id, now.player_choice),
            )
        }),
    decreases done,
{
    let game = state.games[id];
    if done == 0 {
        assert(reveals.take(0) =~= Seq::<(AccountId, WeaponType)>::empty());
        assert(game.match_state.pending().len() > 0);
    } else {
        let before = (done - 1) as nat;
        lemma_revealed_in_turn(state, id, reveals, before);
        let earlier = reveals.take(before as int);
        let taken = reveals.take(done as int);
        assert(taken.drop_last() =~= earlier);
        assert(taken.last() == reveals[before as int]);
        let (who, weapon) = reveals[before as int];
        let was = revealed_in_turn(state, id, earlier);
        let recorded = was.recorded(id, who, Choice::Reveal(weapon));
        let playing = was.games[id];
        let won = winner(playing.players, id, recorded.player_choice);
        let pending = playing.match_state.pending();
        assert(pending.contains(who));
        lemma_games_stay_sound(was, id, playing.players, who, Choice::Reveal(weapon));
        lemma_swap_removed_within(pending, who);
        lemma_swap_removed_is_gone(pending, who);
        assert forall|i: int| done <= i < reveals.len() implies swap_removed(pending, who).contains(
            (#[trigger] reveals[i]).0,
        ) by {
            assert(reveals[i].0 != who);
            assert(pending.contains(reveals[i].0));
        }
    }
}

/// A game in its reveal phase that takes one reveal from each player that
/// it waits for ends finished, with the winner that the records then give;
/// and it ends the same whatever the order in which the reveals come in.
pub proof fn lemma_reveals_finish_the_game_in_any_order(
    state: PalletView,
    id: H256,
    reveals: Seq<(AccountId, WeaponType)>,
    permuted: Seq<(AccountId, WeaponType)>,
)
    requires
        state.inv(),
        state.games.contains_key(id),
        state.games[id].match_state is Reveal,
        one_reveal_each(reveals),
        one_reveal_each(permuted),
        reveals.to_multiset() == permuted.to_multiset(),
        reveals.len() == state.games[id].match_state.pending().len(),
        forall|i: int|
            0 <= i < reveals.len() ==> state.games[id].match_state.pending().contains(
                (#[trigger] reveals[i]).0,
            ),
    ensures
        revealed_in_turn(state, id, reveals).games[id].match_state == MatchStateView::Finished(
            winner(state.games[id].players, id, submitted(state.player_choice, id, reveals)),
        ),
        revealed_in_turn(state, id, permuted).games[id].match_state == revealed_in_turn(
            state,
            id,
            reveals,
        ).games[id].match_state,
        revealed_in_turn(state, id, permuted).player_choice == revealed_in_turn(
            state,
            id,
            reveals,
        ).player_choice,
{
    reveals.to_multiset_ensures();
    permuted.to_multiset_ensures();
    assert forall|i: int| 0 <= i < permuted.len() implies state.games[id].match_state.pending().contains(
        (#[trigger] permuted[i]).0,
    ) by {
        assert(permuted.contains(permuted[i]));
        assert(reveals.to_multiset().count(permuted[i]) > 0);
        assert(reveals.contains(permuted[i]));
        let j = choose|j: int| 0 <= j < reveals.len() && reveals[j] == permuted[i];
        assert(reveals[j].0 == permuted[i].0);
    }
    lemma_revealed_in_turn(state, id, reveals, reveals.len());
    lemma_revealed_in_turn(state, id, permuted, permuted.len());
    assert(reveals.take(reveals.len() as int) =~= reveals);
    assert(permuted.take(permuted.len() as int) =~= permuted);
    lemma_submission_order_is_irrelevant(
        state.games[id].players,
        id,
        state.player_choice,
        reveals,
        permuted,
    );
}

/// An action in a game that is in another phase, or that does not wait
/// for the sender, is refused as out of phase, and so can be told from a
/// reveal that does not open a commitment. Two refusals come before it: a
/// commitment in the phase that takes commitments, by a player that has a
/// record already, and a reveal against a commitment that it does not open.
pub proof fn lemma_out_of_phase_is_refused(
    state: PalletView,
    sender: AccountId,
    recomputed: H256,
    weapon: WeaponType,
)
    requires
        state.game_of(sender) is Some,
    ensures
        ({
            let game = state.game_of(sender).unwrap();
            let key = (state.player_game[sender], sender);
            let awaited = game.match_state.pending().contains(sender);
            let on_record = state.player_choice.contains_key(key);
            &&& !(game.match_state is Initiate) || !awaited ==> initiate_refusal(state, sender)
                == Some(Error::WrongPhase)
            &&& !(game.match_state is Choose) ==> choose_refusal(state, sender) == Some(
                Error::WrongPhase,
            )
            &&& game.match_state is Choose && !awaited && !on_record ==> choose_refusal(
                state,
                sender,
            ) == Some(Error::WrongPhase)
            &&& !(game.match_state is Reveal) && !(on_record && mismatched(
                state.player_choice[key],
                recomputed,
            )) ==> reveal_refusal(state, sender, recomputed, weapon) == Some(Error::WrongPhase)
            &&& game.match_state is Reveal && !awaited && on_record && !mismatched(
                state.player_choice[key],
                recomputed,
            ) ==> reveal_refusal(state, sender, recomputed, weapon) == Some(Error::WrongPhase)
        }),
{
}

/// A finished game is final: whatever its players try is refused as out of
/// phase, but for the reveal against a commitment that it does not open.
pub proof fn lemma_finished_is_final(
    state: PalletView,
    sender: AccountId,
    recomputed: H256,
    weapon: WeaponType,
)
    requires
        state.game_of(sender) matches Some(game) && game.match_state is Finished,
    ensures
        initiate_refusal(state, sender) == Some(Error::WrongPhase),
        choose_refusal(state, sender) == Some(Error::WrongPhase),
        reveal_refusal(state, sender, recomputed, weapon) == Some(
            if state.player_choice.contains_key((state.player_game[sender], sender)) && mismatched(
                state.player_choice[(state.player_game[sender], sender)],
                recomputed,
            ) {
                Error::BadBehaviour
            } else {
                Error::WrongPhase
            },
        ),
{
}

/// A player that is pointed to a game cannot start another, nor be drawn
/// into one.
pub proof fn lemma_player_with_game_cannot_start_another(
    state: PalletView,
    sender: AccountId,
    opponent: AccountId,
    sender_queued: bool,
    opponent_queued: bool,
)
    requires
        state.player_game.contains_key(sender) || state.player_game.contains_key(opponent),
    ensures
        new_game_refusal(state, sender, opponent, sender_queued, opponent_queued) == Some(
            if sender == opponent {
                Error::NoFakePlay
            } else {
                Error::PlayerHasGame
            },
        ),
{
}

/// Playing a game never takes a player's pointer away, not even when the
/// game is finished: whoever has been in a game stays bound to it.
pub proof fn lemma_players_stay_bound(
    state: PalletView,
    id: H256,
    who: AccountId,
    record: Choice,
    player: AccountId,
)
    requires
        state.player_game.contains_key(player),
    ensures
        state.advanced(id, who).player_game.contains_key(player),
        state.recorded(id, who, record).player_game.contains_key(player),
        state.recorded(id, who, record).advanced(id, who).player_game.contains_key(player),
{
}

impl View for Pallet {
    type V = PalletView;

    closed spec fn view(&self) -> PalletView {
        PalletView {
            nonce: self.nonce,
            games: game_views(self.games@),
            player_game: self.player_game@,
            player_choice: self.player_choice@,
        }
    }
}

impl Pallet {
    /// No table of the registry holds a key twice.
    pub closed spec fn tables_wf(&self) -> bool {
        &&& self.games.wf()
        &&& self.player_game.wf()
        &&& self.player_choice.wf()
    }

    /// The registry is in order: its tables are, every game is on record
    /// under its own identifier and has players, each of them once, and no
    /// game waits for anyone but its own players, nor for any of them twice.
    pub open spec fn wf(&self) -> bool {
        self.tables_wf() && self@.inv()
    }

    /// A registry without games.
    pub fn new() -> (pallet: Self)
        ensures
            pallet.wf(),
            pallet@ == PalletView::empty(),
    {
        Pallet::starting_at(NonceDefault())
    }

    /// A registry without games whose next identifier takes `nonce`.
    pub fn starting_at(nonce: u64) -> (pallet: Self)
        ensures
            pallet.wf(),
            pallet@ == (PalletView { nonce, ..PalletView::empty() }),
    {
        let pallet = Pallet {
            nonce,
            games: Table::new(),
            player_game: Table::new(),
            player_choice: Table::new(),
        };
        assert(pallet@.games =~= Map::empty());
        pallet
    }

    /// Puts `game` on record under its identifier as it is, if it is sound;
    /// says whether it was.
    pub fn restore_game(&mut self, game: Game) -> (restored: bool)
        requires
            old(self).wf(),
        ensures
            final(self).wf(),
            restored == game@.sound(),
            final(self)@ == if restored {
                PalletView { games: old(self)@.games.insert(game.id, game@), ..old(self)@ }
            } else {
                old(self)@
            },
    {
        if !game.is_sound() {
            return false;
        }
        let ghost before = *self;
        let ghost restored = game@;
        self.games.insert(game.id, game);
        assert(game_views(self.games@) =~= game_views(before.games@).insert(restored.id, restored));
        true
    }

    /// Points `who` to game `id`.
    pub fn restore_player_game(&mut self, who: AccountId, id: H256)
        requires
            old(self).wf(),
        ensures
            final(self).wf(),
            final(self)@ == (PalletView {
                player_game: old(self)@.player_game.insert(who, id),
                ..old(self)@
            }),
    {
        self.player_game.insert(who, id);
    }

    /// Puts `record` on record for `who` in game `id`.
    pub fn restore_player_choice(&mut self, id: H256, who: AccountId, record: Choice)
        requires
            old(self).wf(),
        ensures
            final(self).wf(),
            final(self)@ == old(self)@.recorded(id, who, record),
    {
        self.player_choice.insert((id, who), record);
    }

    /// Hands out the nonce in its SCALE encoding and moves it on.
    fn encode_and_update_nonce(&mut self) -> (bytes: Vec<u8>)
        ensures
            bytes@ == spec_u64_to_le_bytes(old(self).nonce),
            final(self).nonce == if old(self).nonce == u64::MAX {
                0
            } else {
                (old(self).nonce + 1) as u64
            },
            final(self).games == old(self).games,
            final(self).player_game == old(self).player_game,
            final(self).player_choice == old(self).player_choice,
    {
        let nonce = self.nonce;
        self.nonce = nonce.wrapping_add(1);
        scale_encode_u64(nonce)
    }

    /// Makes a fresh identifier from the randomness `material` and the
    /// account that asks.
    fn generate_random_hash(&mut self, material: &[u8], sender: AccountId) -> (id: H256)
        ensures
            id == game_id(material@, sender, old(self).nonce),
            final(self).nonce == if old(self).nonce == u64::MAX {
                0
            } else {
                (old(self).nonce + 1) as u64
            },
            final(self).games == old(self).games,
            final(self).player_game == old(self).player_game,
            final(self).player_choice == old(self).player_choice,
    {
        let seed = decode_seed(material);
        let nonce = self.encode_and_update_nonce();
        proof {
            vstd::bytes::lemma_auto_spec_u64_to_from_le_bytes();
        }
        let encoded = scale_encode_seed_material(&seed, sender, &nonce);
        runtime_hash(encoded.as_slice())
    }

    /// Puts a game for `players`, who are all different, on record under
    /// `id`: the players wait to initiate it, and each of them is pointed
    /// to it. A game or a pointer that was there before gives way.
    pub fn register_game(&mut self, id: H256, players: Vec<AccountId>)
        requires
            old(self).wf(),
            players@.len() > 0,
            players@.no_duplicates(),
        ensures
            final(self).wf(),
            final(self)@ == old(self)@.filed(id, players@),
    {
        let ghost before = *self;
        let game = Game {
            id,
            players: players.clone(),
            match_state: MatchState::Initiate(players.clone()),
        };
        let ghost game_view = game@;
        self.games.insert(id, game);
        assert(game_views(self.games@) =~= game_views(before.games@).insert(id, game_view));
        let ghost filed = *self;
        let mut i: usize = 0;
        while i < players.len()
            invariant
                i <= players@.len(),
                self.games == filed.games,
                self.nonce == filed.nonce,
                self.player_choice == filed.player_choice,
                self.player_game.wf(),
                self.player_game@ == registered(before.player_game@, players@.take(i as int), id),
            decreases players@.len() - i,
        {
            let ghost done = players@.take(i as int);
            self.player_game.insert(players[i], id);
            i += 1;
            proof {
                assert(players@.take(i as int) == done.push(players@[i - 1]));
                lemma_registered_push(before.player_game@, done, players@[i - 1], id);
            }
        }
        assert(players@.take(players@.len() as int) == players@);
    }

    /// Creates a game for `players`, who are all different and wait to
    /// initiate it, and points each of them to it. The identifier comes
    /// from the randomness `material`, the first player and the nonce.
    pub fn create_game(&mut self, players: Vec<AccountId>, material: &[u8]) -> (id: H256)
        requires
            old(self).wf(),
            players@.len() > 0,
            players@.no_duplicates(),
        ensures
            final(self).wf(),
            id == game_id(material@, players@[0], old(self)@.nonce),
            final(self)@ == old(self)@.created(id, players@),
    {
        let game_id = self.generate_random_hash(material, players[0]);
        self.register_game(game_id, players);
        game_id
    }

    /// Finds the winner of `game` in what its players have on record: the
    /// running champion over the players in join order.
    pub fn evaluate(&self, game: &Game) -> (won: AccountId)
        requires
            self.wf(),
        ensures
            won == winner(game@.players, game.id, self@.player_choice),
    {
        let mut last_choice = WeaponType::Unset;
        let mut last_player = NO_PLAYER;
        let mut i: usize = 0;
        while i < game.players.len()
            invariant
                i <= game.players@.len(),
                self.player_choice.wf(),
                champion_after(game.players@, game.id, self.player_choice@, i as nat) == (Champion {
                    weapon: last_choice,
                    player: last_player,
                }),
            decreases game.players@.len() - i,
        {
            let player = game.players[i];
            if let Some(Choice::Reveal(choice)) = self.player_choice.get(&(game.id, player)) {
                let outcome = game_logic(choice, &last_choice);
                if outcome == FIRST_WINS {
                    last_choice = *choice;
                    last_player = player;
                } else if outcome != SECOND_WINS {
                    last_player = NO_PLAYER;
                }
            }
            i += 1;
        }
        last_player
    }

    /// Lets `player` act in `game`, a copy of the game on record: the player
    /// leaves the phase's pending list, the game moves on when the list runs
    /// empty, and the new state goes on record. Says whether the phase
    /// waited for the player; if not, nothing changes.
    fn match_state_change(&mut self, player: AccountId, game: Game) -> (changed: bool)
        requires
            old(self).wf(),
            old(self)@.games.contains_key(game.id),
            old(self)@.games[game.id] == game@,
        ensures
            final(self).wf(),
            changed == game@.match_state.pending().contains(player),
            final(self)@ == old(self)@.advanced(game.id, player),
    {
        let ghost before = *self;
        let ghost won = winner(game@.players, game.id, self@.player_choice);
        let mut game = game;
        let ghost start = game@;
        match game.match_state.clone() {
            MatchState::Initiate(mut players) => {
                if !try_remove(player, &mut players) {
                    return false;
                }
                if players.is_empty() {
                    game.match_state = MatchState::Choose(game.players.clone());
                } else {
                    game.match_state = MatchState::Initiate(players);
                }
            },
            MatchState::Choose(mut players) => {
                if !try_remove(player, &mut players) {
                    return false;
                }
                if players.is_empty() {
                    game.match_state = MatchState::Reveal(game.players.clone());
                } else {
                    game.match_state = MatchState::Choose(players);
                }
            },
            MatchState::Reveal(mut players) => {
                if !try_remove(player, &mut players) {
                    return false;
                }
                if players.is_empty() {
                    game.match_state = MatchState::Finished(self.evaluate(&game));
                } else {
                    game.match_state = MatchState::Reveal(players);
                }
            },
            _ => {
                return false;
            },
        }
        proof {
            assert(game@ == (GameView {
                match_state: next_state(start.match_state, start.players, player, won).unwrap(),
                ..start
            }));
            lemma_sound_games_stay_sound(start, player, won);
        }
        let ghost moved = game@;
        self.games.insert(game.id, game);
        assert(game_views(self.games@) =~= game_views(before.games@).insert(moved.id, moved));
        true
    }

    /// Starts a game between `sender` and `opponent`, identified from the
    /// randomness `material`. The two flags say whether each of them waits
    /// in the matchmaking queue.
    pub fn new_game(
        &mut self,
        sender: AccountId,
        opponent: AccountId,
        sender_queued: bool,
        opponent_queued: bool,
        material: &[u8],
    ) -> (result: Result<Event, Error>)
        requires
            old(self).wf(),
        ensures
            final(self).wf(),
            match new_game_refusal(old(self)@, sender, opponent, sender_queued, opponent_queued) {
                Some(error) => result == Err::<Event, Error>(error) && final(self)@ == old(self)@,
                None => result == Ok::<Event, Error>(
                    Event::NewGame(game_id(material@, sender, old(self)@.nonce)),
                ) && final(self)@ == old(self)@.created(
                    game_id(material@, sender, old(self)@.nonce),
                    seq![sender, opponent],
                ),
            },
    {
        if sender == opponent {
            return Err(Error::NoFakePlay);
        }
        if self.player_game.contains_key(&sender) {
            return Err(Error::PlayerHasGame);
        }
        if self.player_game.contains_key(&opponent) {
            return Err(Error::PlayerHasGame);
        }
        if sender_queued || opponent_queued {
            return Err(Error::AlreadyQueued);
        }
        let mut players = Vec::new();
        players.push(sender);
        players.push(opponent);
        assert(players@ == seq![sender, opponent]);
        let game_id = self.create_game(players, material);
        Ok(Event::NewGame(game_id))
    }

    /// The game that `sender` is in.
    fn active_game(&self, sender: AccountId) -> (found: Option<(H256, Game)>)
        requires
            self.wf(),
        ensures
            match found {
                Some((id, game)) => self@.game_of(sender) == Some(game@) && id
                    == self@.player_game[sender] && game.id == id,
                None => self@.game_of(sender) is None,
            },
    {
        let game_id = match self.player_game.get(&sender) {
            Some(id) => *id,
            None => {
                return None;
            },
        };
        match self.games.get(&game_id) {
            Some(game) => Some((game_id, game.clone())),
            None => None,
        }
    }

    /// `sender` acknowledges its game, which must be waiting for its players
    /// to initiate.
    pub fn initiate(&mut self, sender: AccountId) -> (result: Result<(), Error>)
        requires
            old(self).wf(),
        ensures
            final(self).wf(),
            match initiate_refusal(old(self)@, sender) {
                Some(error) => result == Err::<(), Error>(error) && final(self)@ == old(self)@,
                None => result == Ok::<(), Error>(()) && final(self)@ == old(self)@.advanced(
                    old(self)@.player_game[sender],
                    sender,
                ),
            },
    {
        let (_game_id, game) = match self.active_game(sender) {
            Some(found) => found,
            None => {
                return Err(Error::GameDoesntExist);
            },
        };
        if let MatchState::Initiate(_) = game.match_state {
        } else {
            return Err(Error::WrongPhase);
        }
        if !self.match_state_change(sender, game) {
            return Err(Error::WrongPhase);
        }
        Ok(())
    }

    /// Puts the commitment `hashed` on record for `sender` in its game,
    /// which must be waiting for its players to choose, and lets the game
    /// move on.
    pub fn submit_commitment(&mut self, sender: AccountId, hashed: H256) -> (result: Result<
        (),
        Error,
    >)
        requires
            old(self).wf(),
        ensures
            final(self).wf(),
            match choose_refusal(old(self)@, sender) {
                Some(error) => result == Err::<(), Error>(error) && final(self)@ == old(self)@,
                None => result == Ok::<(), Error>(()) && final(self)@ == old(self)@.recorded(
                    old(self)@.player_game[sender],
                    sender,
                    Choice::Choose(hashed),
                ).advanced(old(self)@.player_game[sender], sender),
            },
    {
        let (game_id, game) = match self.active_game(sender) {
            Some(found) => found,
            None => {
                return Err(Error::GameDoesntExist);
            },
        };
        if let MatchState::Choose(_) = game.match_state {
        } else {
            return Err(Error::WrongPhase);
        }
        if self.player_choice.contains_key(&(game_id, sender)) {
            return Err(Error::PlayerChoiceExist);
        }
        if !game.awaits(sender) {
            return Err(Error::WrongPhase);
        }
        self.player_choice.insert((game_id, sender), Choice::Choose(hashed));
        if !self.match_state_change(sender, game) {
            return Err(Error::WrongPhase);
        }
        Ok(())
    }

    /// `sender` commits to the weapon `choice` under `salt` in its game,
    /// which must be waiting for its players to choose.
    pub fn choose_weapon(&mut self, sender: AccountId, choice: WeaponType, salt: H256) -> (result: Result<
        (),
        Error,
    >)
        requires
            old(self).wf(),
        ensures
            final(self).wf(),
            match choose_refusal(old(self)@, sender) {
                Some(error) => result == Err::<(), Error>(error) && final(self)@ == old(self)@,
                None => result == Ok::<(), Error>(()) && final(self)@ == old(self)@.recorded(
                    old(self)@.player_game[sender],
                    sender,
                    Choice::Choose(commitment(salt, choice.spec_code())),
                ).advanced(old(self)@.player_game[sender], sender),
            },
    {
        self.submit_commitment(sender, hash_choice(salt, choice.code()))
    }

    /// Opens the commitment of `sender` with `weapon`, given the digest
    /// `recomputed` of the salt and weapon that the player offers. The game
    /// must be waiting for its players to reveal; it moves on if the digest
    /// is the commitment on record.
    pub fn submit_reveal(&mut self, sender: AccountId, recomputed: H256, weapon: WeaponType) -> (result:
        Result<(), Error>)
        requires
            old(self).wf(),
        ensures
            final(self).wf(),
            match reveal_refusal(old(self)@, sender, recomputed, weapon) {
                Some(error) => result == Err::<(), Error>(error) && final(self)@ == old(self)@,
                None => result == Ok::<(), Error>(()) && final(self)@ == old(self)@.recorded(
                    old(self)@.player_game[sender],
                    sender,
                    Choice::Reveal(weapon),
                ).advanced(old(self)@.player_game[sender], sender),
            },
    {
        let (game_id, game) = match self.active_game(sender) {
            Some(found) => found,
            None => {
                return Err(Error::GameDoesntExist);
            },
        };
        let on_record = match self.player_choice.get(&(game_id, sender)) {
            Some(record) => Some(*record),
            None => None,
        };
        if let Some(Choice::Choose(hashed)) = on_record {
            if !same_hash(&hashed, &recomputed) {
                return Err(Error::BadBehaviour);
            }
        }
        if let MatchState::Reveal(_) = game.match_state {
        } else {
            return Err(Error::WrongPhase);
        }
        let player_choice = match on_record {
            Some(record) => record,
            None => {
                return Err(Error::PlayerChoiceDoesntExist);
            },
        };
        if !game.awaits(sender) {
            return Err(Error::WrongPhase);
        }
        let record = match open_commitment(&player_choice, &recomputed, weapon) {
            Ok(record) => record,
            Err(error) => {
                return Err(error);
            },
        };
        self.player_choice.insert((game_id, sender), record);
        if !self.match_state_change(sender, game) {
            return Err(Error::WrongPhase);
        }
        Ok(())
    }

    /// `sender` reveals the weapon `choice` and the `salt` of its commitment
    /// in its game, which must be waiting for its players to reveal.
    pub fn reveal_weapon(&mut self, sender: AccountId, choice: WeaponType, salt: H256) -> (result: Result<
        (),
        Error,
    >)
        requires
            old(self).wf(),
        ensures
            final(self).wf(),
            match reveal_refusal(
                old(self)@,
                sender,
                commitment(salt, choice.spec_code()),
                choice,
            ) {
                Some(error) => result == Err::<(), Error>(error) && final(self)@ == old(self)@,
                None => result == Ok::<(), Error>(()) && final(self)@ == old(self)@.recorded(
                    old(self)@.player_game[sender],
                    sender,
                    Choice::Reveal(choice),
                ).advanced(old(self)@.player_game[sender], sender),
            },
    {
        self.submit_reveal(sender, hash_choice(salt, choice.code()), choice)
    }

    /// Tells whether `sender` may join the matchmaking queue, and which
    /// bracket it joins. `queued` says whether it waits there already.
    pub fn queue(&self, sender: AccountId, queued: bool) -> (result: Result<u8, Error>)
        requires
            self.wf(),
        ensures
            result == if self@.player_game.contains_key(sender) {
                Err::<u8, Error>(Error::PlayerHasGame)
            } else if queued {
                Err::<u8, Error>(Error::AlreadyQueued)
            } else {
                Ok::<u8, Error>(BRACKET)
            },
    {
        if self.player_game.contains_key(&sender) {
            return Err(Error::PlayerHasGame);
        }
        if queued {
            return Err(Error::AlreadyQueued);
        }
        Ok(BRACKET)
    }

    /// The nonce of the next identifier.
    pub fn nonce(&self) -> (nonce: u64)
        ensures
            nonce == self@.nonce,
    {
        self.nonce
    }

    /// The game on record under `id`, or the default game.
    pub fn games(&self, id: &H256) -> (game: Game)
        requires
            self.wf(),
        ensures
            game@ == if self@.games.contains_key(*id) {
                self@.games[*id]
            } else {
                Game::spec_default()
            },
    {
        match self.games.get(id) {
            Some(game) => game.clone(),
            None => Game::default(),
        }
    }

    /// The identifier of the game that `who` is in, or all zeroes.
    pub fn player_game(&self, who: AccountId) -> (id: H256)
        requires
            self.wf(),
        ensures
            id == if self@.player_game.contains_key(who) {
                self@.player_game[who]
            } else {
                zero_hash()
            },
    {
        match self.player_game.get(&who) {
            Some(id) => *id,
            None => [0u8; 32],
        }
    }

    /// What `who` has on record in game `id`, or `Unset`.
    pub fn player_choice(&self, id: &H256, who: AccountId) -> (record: Choice)
        requires
            self.wf(),
        ensures
            record == if self@.player_choice.contains_key((*id, who)) {
                self@.player_choice[(*id, who)]
            } else {
                Choice::Unset
            },
    {
        match self.player_choice.get(&(*id, who)) {
            Some(record) => *record,
            None => Choice::default(),
        }
    }
}

} // verus!
