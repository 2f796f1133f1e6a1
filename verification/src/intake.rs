//! Taking matched players in: once per block the registry starts a game for
//! each group that the matchmaker hands over, up to a fixed number of
//! groups, and stops at the first empty hand. A group that names a player
//! twice counts as taken and starts no game.

use vstd::prelude::*;
use crate::commitment::game_id;
use crate::game::{distinct, AccountId};
use crate::pallet::{Event, Pallet};

verus! {

/// How many groups one block may take from the matchmaking queue, and so
/// how many games it may start from it.
pub const MAX_GAMES_PER_BLOCK: u8 = 10;

/// The intake of one block: how many groups it has taken, and whether the
/// matchmaker may still have groups.
#[derive(Clone, Copy, Debug, PartialEq, Eq)]
pub struct MatchIntake {
    taken: u8,
    open: bool,
}

impl MatchIntake {
    /// How many groups this block's intake has taken.
    pub closed spec fn taken(&self) -> nat {
        self.taken as nat
    }

    /// Whether the matchmaker has not yet come back empty-handed.
    pub closed spec fn open(&self) -> bool {
        self.open
    }

    /// The intake has taken no more groups than a block may.
    pub open spec fn wf(&self) -> bool {
        self.taken() <= MAX_GAMES_PER_BLOCK
    }

    /// Whether the intake asks the matchmaker for another group.
    pub open spec fn wants_group(&self) -> bool {
        self.open() && self.taken() < MAX_GAMES_PER_BLOCK
    }

    /// The intake at the start of a block.
    pub fn new() -> (intake: Self)
        ensures
            intake.wf(),
            intake.taken() == 0,
            intake.open(),
    {
        MatchIntake { taken: 0, open: true }
    }

    /// Whether to ask the matchmaker for another group.
    pub fn pulls(&self) -> (again: bool)
        ensures
            again == self.wants_group(),
    {
        self.open && self.taken < MAX_GAMES_PER_BLOCK
    }

    /// How many groups this block's intake has taken.
    pub fn groups_taken(&self) -> (taken: u8)
        ensures
            taken == self.taken(),
    {
        self.taken
    }

    /// Takes in what the matchmaker handed over: an empty `group` closes the
    /// intake; a group of different players starts a game for them in
    /// `pallet`, identified from the randomness `material`; a group that
    /// names a player twice is dropped. An intake that asks for no group
    /// takes none.
    pub fn register(&mut self, pallet: &mut Pallet, group: Vec<AccountId>, material: &[u8]) -> (event:
        Option<Event>)
        requires
            old(self).wf(),
            old(pallet).wf(),
        ensures
            final(self).wf(),
            final(pallet).wf(),
            if !old(self).wants_group() {
                &&& event is None
                &&& final(pallet)@ == old(pallet)@
                &&& final(self).taken() == old(self).taken()
                &&& final(self).open() == old(self).open()
            } else if group@.len() == 0 {
                &&& event is None
                &&& final(pallet)@ == old(pallet)@
                &&& final(self).taken() == old(self).taken()
                &&& !final(self).open()
            } else if !group@.no_duplicates() {
                &&& event is None
                &&& final(pallet)@ == old(pallet)@
                &&& final(self).taken() == old(self).taken() + 1
                &&& final(self).open()
            } else {
                &&& event == Some(
                    Event::NewGame(game_id(material@, group@[0], old(pallet)@.nonce)),
                )
                &&& final(pallet)@ == old(pallet)@.created(
                    game_id(material@, group@[0], old(pallet)@.nonce),
                    group@,
                )
                &&& final(self).taken() == old(self).taken() + 1
                &&& final(self).open()
            },
    {
        if !self.pulls() {
            return None;
        }
        if group.len() == 0 {
            self.open = false;
            return None;
        }
        self.taken = self.taken + 1;
        if !distinct(&group) {
            return None;
        }
        let id = pallet.create_game(group, material);
        Some(Event::NewGame(id))
    }
}

} // verus!
