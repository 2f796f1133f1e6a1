//! Who wins: the running champion over the players in join order.
//!
//! The first player to show a weapon takes the table. Each later player
//! that has revealed challenges the weapon on the table: a weapon that
//! beats it takes the table for its player, a weaker one changes nothing,
//! and an equal one leaves the weapon on the table with nobody behind it.
//! Players that have not revealed are passed over.

use vstd::prelude::*;
use crate::commitment::{Choice, H256};
use crate::game::{AccountId, NO_PLAYER};
use crate::weapon::{beats, outcome, WeaponType, FIRST_WINS, SECOND_WINS};

verus! {

/// The records of all games: what each player has on record in each game.
pub type Choices = Map<(H256, AccountId), Choice>;

/// The weapon on the table and the player behind it.
pub ghost struct Champion {
    pub weapon: WeaponType,
    pub player: AccountId,
}

/// The weapon that `player` has revealed in game `id`, if any.
pub open spec fn revealed(choices: Choices, id: H256, player: AccountId) -> Option<WeaponType> {
    if choices.contains_key((id, player)) {
        match choices[(id, player)] {
            Choice::Reveal(weapon) => Some(weapon),
            _ => None,
        }
    } else {
        None
    }
}

/// The champion after `player` has come to the table with `weapon`.
pub open spec fn challenged(champion: Champion, player: AccountId, weapon: Option<WeaponType>)
    -> Champion {
    match weapon {
        None => champion,
        Some(weapon) => if outcome(weapon, champion.weapon) == FIRST_WINS {
            Champion { weapon, player }
        } else if outcome(weapon, champion.weapon) == SECOND_WINS {
            champion
        } else {
            Champion { weapon: champion.weapon, player: NO_PLAYER }
        },
    }
}

/// The champion after the first `n` of `players` have come to the table.
pub open spec fn champion_after(players: Seq<AccountId>, id: H256, choices: Choices, n: nat)
    -> Champion
    decreases n,
{
    if n == 0 || n > players.len() {
        Champion { weapon: WeaponType::Unset, player: NO_PLAYER }
    } else {
        challenged(
            champion_after(players, id, choices, (n - 1) as nat),
            players[n - 1],
            revealed(choices, id, players[n - 1]),
        )
    }
}

/// The winner of game `id` among `players`, or [`NO_PLAYER`].
pub open spec fn winner(players: Seq<AccountId>, id: H256, choices: Choices) -> AccountId {
    champion_after(players, id, choices, players.len()).player
}

/// Rock beats scissor, paper beats rock and scissor beats paper; no weapon
/// beats itself, and of two weapons at most one beats the other.
pub proof fn lemma_weapons_form_a_cycle()
    ensures
        beats(WeaponType::Rock, WeaponType::Scissor),
        beats(WeaponType::Paper, WeaponType::Rock),
        beats(WeaponType::Scissor, WeaponType::Paper),
        forall|a: WeaponType| !beats(a, a),
        forall|a: WeaponType, b: WeaponType| !(beats(a, b) && beats(b, a)),
        forall|a: WeaponType, b: WeaponType|
            a != WeaponType::Unset && b != WeaponType::Unset && a != b ==> beats(a, b) || beats(
                b,
                a,
            ),
{
}

/// Two players that have both revealed: the one whose weapon beats the
/// other's wins, and equal weapons leave no winner.
pub proof fn lemma_two_player_game(
    first: AccountId,
    second: AccountId,
    id: H256,
    choices: Choices,
)
    requires
        revealed(choices, id, first) is Some,
        revealed(choices, id, second) is Some,
    ensures
        ({
            let a = revealed(choices, id, first).unwrap();
            let b = revealed(choices, id, second).unwrap();
            let won = winner(seq![first, second], id, choices);
            &&& a == b ==> won == NO_PLAYER
            &&& beats(a, b) ==> won == first
            &&& beats(b, a) ==> won == second
        }),
{
    let players = seq![first, second];
    reveal_with_fuel(champion_after, 3);
    assert(players[0] == first && players[1] == second);
}

/// The records after each of `reveals`, a player and its weapon, has been
/// put on record in game `id`, one after the other.
pub open spec fn submitted(choices: Choices, id: H256, reveals: Seq<(AccountId, WeaponType)>)
    -> Choices
    decreases reveals.len(),
{
    if reveals.len() == 0 {
        choices
    } else {
        submitted(choices, id, reveals.drop_last()).insert(
            (id, reveals.last().0),
            Choice::Reveal(reveals.last().1),
        )
    }
}

/// No player reveals twice.
pub open spec fn one_reveal_each(reveals: Seq<(AccountId, WeaponType)>) -> bool {
    forall|i: int, j: int| 0 <= i < j < reveals.len() ==> reveals[i].0 != reveals[j].0
}

/// Whether `player` is one of those who reveal.
spec fn reveals_for(reveals: Seq<(AccountId, WeaponType)>, player: AccountId) -> bool {
    exists|i: int| 0 <= i < reveals.len() && (#[trigger] reveals[i]).0 == player
}

/// What is on record after a run of reveals: each revealing player's own
/// weapon, and for everyone else what was there before.
proof fn lemma_submitted(choices: Choices, id: H256, reveals: Seq<(AccountId, WeaponType)>)
    requires
        one_reveal_each(reveals),
    ensures
        forall|other: H256, player: AccountId|
            #![trigger submitted(choices, id, reveals).contains_key((other, player))]
            submitted(choices, id, reveals).contains_key((other, player)) <==> choices.contains_key(
                (other, player),
            ) || (other == id && reveals_for(reveals, player)),
        forall|i: int|
            0 <= i < reveals.len() ==> submitted(choices, id, reveals)[(
                id,
                (#[trigger] reveals[i]).0,
            )] == Choice::Reveal(reveals[i].1),
        forall|other: H256, player: AccountId|
            #![trigger submitted(choices, id, reveals)[(other, player)]]
            !(other == id && reveals_for(reveals, player)) ==> submitted(choices, id, reveals)[(
                other,
                player,
            )] == choices[(other, player)],
    decreases reveals.len(),
{
    if reveals.len() != 0 {
        let earlier = reveals.drop_last();
        let last = reveals.last();
        lemma_submitted(choices, id, earlier);
        assert forall|player: AccountId| reveals_for(reveals, player) == (reveals_for(
            earlier,
            player,
        ) || player == last.0) by {
            if reveals_for(earlier, player) {
                let i = choose|i: int| 0 <= i < earlier.len() && (#[trigger] earlier[i]).0 == player;
                assert(reveals[i].0 == player);
            }
            if player == last.0 {
                assert(reveals[reveals.len() - 1].0 == player);
            }
            if reveals_for(reveals, player) && player != last.0 {
                let i = choose|i: int| 0 <= i < reveals.len() && (#[trigger] reveals[i]).0 == player;
                assert(earlier[i].0 == player);
            }
        }
        assert forall|i: int| 0 <= i < reveals.len() implies submitted(choices, id, reveals)[(
            id,
            (#[trigger] reveals[i]).0,
        )] == Choice::Reveal(reveals[i].1) by {
            if i < reveals.len() - 1 {
                assert(earlier[i] == reveals[i]);
                assert(reveals[i].0 != last.0);
            }
        }
    }
}

/// The winner depends on what the players reveal, not on who reveals first:
/// the same reveals, one for each player, give the same winner in whatever
/// order they come in.
pub proof fn lemma_submission_order_is_irrelevant(
    players: Seq<AccountId>,
    id: H256,
    choices: Choices,
    reveals: Seq<(AccountId, WeaponType)>,
    permuted: Seq<(AccountId, WeaponType)>,
)
    requires
        one_reveal_each(reveals),
        one_reveal_each(permuted),
        reveals.to_multiset() == permuted.to_multiset(),
    ensures
        submitted(choices, id, reveals) == submitted(choices, id, permuted),
        winner(players, id, submitted(choices, id, reveals)) == winner(
            players,
            id,
            submitted(choices, id, permuted),
        ),
{
    let one = submitted(choices, id, reveals);
    let two = submitted(choices, id, permuted);
    lemma_submitted(choices, id, reveals);
    lemma_submitted(choices, id, permuted);
    reveals.to_multiset_ensures();
    permuted.to_multiset_ensures();
    assert forall|player: AccountId| reveals_for(reveals, player) implies reveals_for(
        permuted,
        player,
    ) && one[(id, player)] == two[(id, player)] by {
        let i = choose|i: int| 0 <= i < reveals.len() && (#[trigger] reveals[i]).0 == player;
        assert(reveals.contains(reveals[i]));
        assert(permuted.to_multiset().count(reveals[i]) > 0);
        assert(permuted.contains(reveals[i]));
        let j = choose|j: int| 0 <= j < permuted.len() && permuted[j] == reveals[i];
        assert(permuted[j].0 == player);
    }
    assert forall|player: AccountId| reveals_for(permuted, player) implies reveals_for(
        reveals,
        player,
    ) by {
        let j = choose|j: int| 0 <= j < permuted.len() && (#[trigger] permuted[j]).0 == player;
        assert(permuted.contains(permuted[j]));
        assert(reveals.to_multiset().count(permuted[j]) > 0);
        assert(reveals.contains(permuted[j]));
        let i = choose|i: int| 0 <= i < reveals.len() && reveals[i] == permuted[j];
        assert(reveals[i].0 == player);
    }
    assert forall|key: (H256, AccountId)|
        #![trigger one.dom().contains(key)]
        #![trigger two.dom().contains(key)]
        one.dom().contains(key) == two.dom().contains(key) && (one.dom().contains(key) ==> one[key]
            == two[key]) by {
        let (other, player) = key;
        assert(key == (other, player));
        assert(one.contains_key((other, player)) == two.contains_key((other, player)));
        if other == id && reveals_for(reveals, player) {
            assert(one[(id, player)] == two[(id, player)]);
        } else if one.contains_key(key) {
            assert(one[(other, player)] == choices[(other, player)]);
            assert(two[(other, player)] == choices[(other, player)]);
        }
    }
    assert(one =~= two);
}

/// Records that show the same weapons for the players of a game give the
/// same champion after every step.
proof fn lemma_champion_is_determined_by_reveals(
    players: Seq<AccountId>,
    id: H256,
    choices: Choices,
    others: Choices,
    n: nat,
)
    requires
        forall|i: int|
            0 <= i < players.len() ==> revealed(choices, id, #[trigger] players[i]) == revealed(
                others,
                id,
                players[i],
            ),
    ensures
        champion_after(players, id, choices, n) == champion_after(players, id, others, n),
    decreases n,
{
    if n != 0 && n <= players.len() {
        lemma_champion_is_determined_by_reveals(players, id, choices, others, (n - 1) as nat);
    }
}

/// The winner is a function of what the players of the game have revealed
/// in it, taken in join order: records that show the same weapons for those
/// players give the same winner.
pub proof fn lemma_winner_is_determined_by_reveals(
    players: Seq<AccountId>,
    id: H256,
    choices: Choices,
    others: Choices,
)
    requires
        forall|i: int|
            0 <= i < players.len() ==> revealed(choices, id, #[trigger] players[i]) == revealed(
                others,
                id,
                players[i],
            ),
    ensures
        winner(players, id, choices) == winner(players, id, others),
{
    lemma_champion_is_determined_by_reveals(players, id, choices, others, players.len());
}

} // verus!
