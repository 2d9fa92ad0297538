//! The strike bonus tracker: two counters, one for each strike that can still
//! be owed bonus rolls at the same time.
//!
//! A counter `k > 0` says that each of the next `k` rolls adds its pins to the
//! score once more on behalf of one strike. A counter of `0` is free.

use vstd::prelude::*;

verus! {

/// Rolls after a strike that are added to the score a second time.
pub const TOTAL_STRIKE_ROLLS: u8 = 2;

/// The tracker with no bonus owed.
pub open spec fn no_bonus() -> Seq<u8> {
    seq![0u8, 0u8]
}

/// No counter is positive.
pub open spec fn all_over(slots: Seq<u8>) -> bool {
    slots[0] == 0 && slots[1] == 0
}

/// How many counters are positive: the number of extra copies of its pins that
/// the next roll adds to the score.
pub open spec fn active_count(slots: Seq<u8>) -> int {
    (if slots[0] > 0 { 1int } else { 0int }) + (if slots[1] > 0 { 1int } else { 0int })
}

/// One counter after a roll: a positive one loses 1, a free one stays free.
pub open spec fn decremented_slot(slot: u8) -> u8 {
    if slot > 0 { (slot - 1) as u8 } else { 0u8 }
}

/// The tracker after a roll has taken its bonus.
pub open spec fn decremented(slots: Seq<u8>) -> Seq<u8> {
    seq![decremented_slot(slots[0]), decremented_slot(slots[1])]
}

/// The tracker after a strike: the first free counter is set to
/// `TOTAL_STRIKE_ROLLS`; with no free counter nothing changes.
pub open spec fn incremented(slots: Seq<u8>) -> Seq<u8> {
    if slots[0] == 0 {
        seq![TOTAL_STRIKE_ROLLS, slots[1]]
    } else if slots[1] == 0 {
        seq![slots[0], TOTAL_STRIKE_ROLLS]
    } else {
        slots
    }
}

#[derive(Debug)]
pub struct StrikingBonus {
    rolls: [u8; 2],
}

impl View for StrikingBonus {
    type V = Seq<u8>;

    closed spec fn view(&self) -> Seq<u8> {
        self.rolls@
    }
}

impl StrikingBonus {
    /// The tracker always has its two counters.
    pub proof fn lemma_two_slots(&self)
        ensures
            self@.len() == 2,
    {
    }

    pub fn new() -> (r: StrikingBonus)
        ensures
            r@ == no_bonus(),
    {
        let r = StrikingBonus { rolls: [0, 0] };
        assert(r@ =~= no_bonus());
        r
    }

    pub fn striking_rolls_are_over(&self) -> (r: bool)
        ensures
            r == all_over(self@),
    {
        self.rolls[0] == 0 && self.rolls[1] == 0
    }

    pub fn has_striking_rolls(&self) -> (r: bool)
        ensures
            r == !all_over(self@),
    {
        self.rolls[0] != 0 || self.rolls[1] != 0
    }

    pub fn get_striking_rolls_bonus(&self) -> (r: usize)
        ensures
            r == active_count(self@),
            r <= 2,
    {
        let mut count: usize = 0;
        if self.rolls[0] > 0 {
            count += 1;
        }
        if self.rolls[1] > 0 {
            count += 1;
        }
        count
    }

    pub fn decrement_striking_rolls_bonus(&mut self)
        ensures
            final(self)@ == decremented(old(self)@),
    {
        if self.rolls[0] > 0 {
            self.rolls[0] = self.rolls[0] - 1;
        }
        if self.rolls[1] > 0 {
            self.rolls[1] = self.rolls[1] - 1;
        }
        assert(self@ =~= decremented(old(self)@));
    }

    pub fn increment_striking_rolls_bonus(&mut self)
        ensures
            final(self)@ == incremented(old(self)@),
    {
        if self.rolls[0] == 0 {
            self.rolls[0] = TOTAL_STRIKE_ROLLS;
        } else if self.rolls[1] == 0 {
            self.rolls[1] = TOTAL_STRIKE_ROLLS;
        }
        assert(self@ =~= incremented(old(self)@));
    }
}

/// The first counter of the tracker.
pub fn first_slot(striking_rolls: &StrikingBonus) -> (r: u8)
    ensures
        r == striking_rolls@[0],
{
    striking_rolls.rolls[0]
}

} // verus!
