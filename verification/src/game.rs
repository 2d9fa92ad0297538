//! The game engine: it takes the rolls one by one, keeps the score and says
//! when the game is over.

pub mod laws;
pub mod rules;
pub mod state;
pub mod striking_bonuses;

use vstd::prelude::*;
use crate::game::laws::{
    lemma_after_roll_wf,
    lemma_frame_within_pins,
    lemma_gain_parts,
    lemma_initial_wf,
    lemma_next_frame_pins,
    lemma_score_within_max,
    lemma_total_pins_not_negative,
    lemma_total_pins_prefix,
    lemma_total_pins_push,
    lemma_total_rolls_bound,
};
use crate::game::rules::Rules;
use crate::game::state::{total_pins, GameState};
use crate::game::striking_bonuses::{
    active_count,
    decremented,
    incremented,
    StrikingBonus,
};

verus! {

#[derive(Debug)]
pub struct Game {
    score: u16,
    pins: u8,
    total_rolls: u32,
    current_frame: u8,
    remaining_rolls_in_frame: u8,
    frame_scores: Vec<u8>,
    sparing: u8,
    striking_rolls: StrikingBonus,
    rules: Rules,
}

impl View for Game {
    type V = GameState;

    closed spec fn view(&self) -> GameState {
        GameState {
            rules: self.rules,
            score: self.score as int,
            pins: self.pins as int,
            total_rolls: self.total_rolls as int,
            current_frame: self.current_frame as int,
            remaining_rolls_in_frame: self.remaining_rolls_in_frame as int,
            frame_scores: self.frame_scores@,
            sparing: self.sparing as int,
            striking_rolls: self.striking_rolls@,
        }
    }
}

impl Game {
    /// The game is in a state that a game started with valid rules can reach.
    pub open spec fn wf(&self) -> bool {
        self@.wf()
    }

    /// A game before its first roll.
    pub fn new(rules: Rules) -> (game: Game)
        requires
            rules.valid(),
        ensures
            game@ == GameState::initial(rules),
            game.wf(),
            !game@.closed(),
    {
        proof {
            lemma_initial_wf(rules);
        }
        Game {
            score: 0,
            pins: rules.initial_pins,
            total_rolls: 0,
            current_frame: 1,
            remaining_rolls_in_frame: rules.rolls_per_frame,
            frame_scores: Vec::new(),
            sparing: 0,
            striking_rolls: StrikingBonus::new(),
            rules,
        }
    }

    /// Says whether the game is over. A game that is over is in its last frame,
    /// and owes no bonus for a spare or a strike.
    pub fn closed(&self) -> (r: bool)
        ensures
            r == self@.closed(),
            r ==> self@.current_frame == self@.rules.max_frames,
            r ==> self@.sparing == 0,
            r ==> active_count(self@.striking_rolls) == 0,
    {
        self.last_frame() && self.rolls_in_frame_are_over() && self.sparing_is_over()
            && self.striking_rolls.striking_rolls_are_over()
    }

    /// The points so far.
    pub fn score(&self) -> (r: u16)
        ensures
            r == self@.score,
    {
        self.score
    }

    /// Takes a roll of `pins`, or refuses it because its frame has fewer pins
    /// left. A roll that is taken adds its pins and the bonuses owed for it to
    /// the score, and ends the frame when it is a strike or the last roll of
    /// the frame. A roll that is refused changes nothing.
    pub fn roll(&mut self, pins: u8) -> (accepted: bool)
        requires
            old(self).wf(),
            !old(self)@.closed(),
            pins <= old(self)@.pins,
        ensures
            final(self).wf(),
            accepted == !old(self)@.overflows(pins),
            accepted ==> final(self)@ == old(self)@.after_roll(pins),
            !accepted ==> final(self)@ == old(self)@,
            final(self)@ == old(self)@.step(pins),
            final(self)@.score >= old(self)@.score,
            1 <= final(self)@.current_frame <= final(self)@.rules.max_frames,
            0 <= final(self)@.remaining_rolls_in_frame <= final(self)@.rules.rolls_per_frame,
            accepted && !old(self)@.awaiting_bonus() ==> final(self)@.frame_score()
                <= final(self)@.pins,
    {
        let ghost before = self@;
        proof {
            self.striking_rolls.lemma_two_slots();
            lemma_total_pins_not_negative(before.frame_scores);
        }
        // only the last frame has bonus rolls
        let is_a_bonus_roll = self.last_frame_bonus();

        if !is_a_bonus_roll && self.is_not_first_roll_in_frame() && self.pins_overload(pins) {
            // the frame has fewer pins left
            return false;
        }
        proof {
            lemma_after_roll_wf(before, pins);
            lemma_score_within_max(before.after_roll(pins));
            lemma_gain_parts(before, pins);
            lemma_total_pins_push(before.frame_scores, pins);
            if !before.awaiting_bonus() {
                lemma_frame_within_pins(before, pins);
            }
            if !before.last_frame() {
                lemma_next_frame_pins(before);
            }
            lemma_total_rolls_bound(before);
        }

        self.total_rolls += 1;
        self.frame_scores.push(pins);

        if !is_a_bonus_roll {
            self.add_score(pins as u16);
        }

        if self.have_sparing() {
            self.add_score(pins as u16);
        }

        let striking_rolls_bonus = self.striking_rolls.get_striking_rolls_bonus();
        if striking_rolls_bonus > 0 {
            self.add_score(pins as u16 * striking_rolls_bonus as u16);
            self.striking_rolls.decrement_striking_rolls_bonus();
        }
        assert(self.striking_rolls@ =~= decremented(before.striking_rolls));
        assert(self@.score == before.score + before.gain(pins));

        let strike = self.is_first_roll_in_frame() && self.is_strike(pins);
        if strike {
            // a strike ends the frame at once
            self.add_striking();
            self.remaining_rolls_in_frame = 0;
        }

        self.update_sparing();
        self.update_frame_after_roll(strike);

        assert(self@.frame_scores =~= before.after_roll(pins).frame_scores);
        assert(self@ == before.after_roll(pins));
        true
    }

    /// The pins that stand in the current frame.
    pub fn pins(&self) -> (r: u8)
        ensures
            r == self@.pins,
    {
        self.pins
    }

    /// The rolls taken so far.
    pub fn total_rolls(&self) -> (r: u32)
        ensures
            r == self@.total_rolls,
    {
        self.total_rolls
    }

    /// The current frame, the first being frame 1.
    pub fn current_frame(&self) -> (r: u8)
        ensures
            r == self@.current_frame,
    {
        self.current_frame
    }

    /// The rolls that the current frame still has.
    pub fn remaining_rolls_in_frame(&self) -> (r: u8)
        ensures
            r == self@.remaining_rolls_in_frame,
    {
        self.remaining_rolls_in_frame
    }

    /// The pins of each roll taken in the current frame, in order.
    pub fn frame_scores(&self) -> (r: &Vec<u8>)
        ensures
            r@ == self@.frame_scores,
    {
        &self.frame_scores
    }

    /// The spares whose bonus is still owed.
    pub fn sparing(&self) -> (r: u8)
        ensures
            r == self@.sparing,
    {
        self.sparing
    }

    /// The strike bonus tracker.
    pub fn striking_rolls(&self) -> (r: &StrikingBonus)
        ensures
            r@ == self@.striking_rolls,
    {
        &self.striking_rolls
    }

    /// The rules that the game is played with.
    pub fn rules(&self) -> (r: &Rules)
        ensures
            *r == self@.rules,
    {
        &self.rules
    }

    fn add_score(&mut self, pins: u16)
        requires
            old(self)@.score + pins <= u16::MAX,
        ensures
            final(self)@ == (GameState { score: old(self)@.score + pins, ..old(self)@ }),
    {
        self.score += pins;
    }

    fn last_frame(&self) -> (r: bool)
        ensures
            r == self@.last_frame(),
    {
        self.current_frame == self.rules.max_frames
    }

    fn last_frame_bonus(&self) -> (r: bool)
        ensures
            r == self@.awaiting_bonus(),
    {
        self.last_frame() && self.rolls_in_frame_are_over() && (
        self.striking_rolls.has_striking_rolls() || self.have_sparing())
    }

    fn decrement_rolls_in_frame(&mut self)
        ensures
            final(self)@ == (GameState {
                remaining_rolls_in_frame: if old(self)@.remaining_rolls_in_frame > 0 {
                    old(self)@.remaining_rolls_in_frame - 1
                } else {
                    0
                },
                ..old(self)@
            }),
    {
        if self.remaining_rolls_in_frame > 0 {
            self.remaining_rolls_in_frame -= 1;
        }
    }

    fn rolls_in_frame_are_over(&self) -> (r: bool)
        ensures
            r == (self@.remaining_rolls_in_frame == 0),
    {
        self.remaining_rolls_in_frame == 0
    }

    fn sparing_is_over(&self) -> (r: bool)
        ensures
            r == (self@.sparing == 0),
    {
        self.sparing == 0
    }

    fn have_sparing(&self) -> (r: bool)
        ensures
            r == (self@.sparing > 0),
    {
        self.sparing > 0
    }

    fn set_to_next_frame(&mut self)
        requires
            old(self)@.current_frame < u8::MAX,
            old(self)@.pins + old(self)@.rules.pins_increment_per_frame <= u8::MAX,
        ensures
            final(self)@ == (GameState {
                remaining_rolls_in_frame: old(self)@.rules.rolls_per_frame as int,
                current_frame: old(self)@.current_frame + 1,
                frame_scores: Seq::empty(),
                pins: old(self)@.pins + old(self)@.rules.pins_increment_per_frame,
                ..old(self)@
            }),
    {
        self.remaining_rolls_in_frame = self.rules.rolls_per_frame;
        self.current_frame += 1;
        self.frame_scores = Vec::new();
        self.pins += self.rules.pins_increment_per_frame;
    }

    /// Counts the roll just taken off the frame, and starts the next frame
    /// after a strike or the last roll of a frame that is not the last.
    fn update_frame_after_roll(&mut self, strike: bool)
        requires
            !old(self)@.last_frame() ==> {
                &&& old(self)@.current_frame < u8::MAX
                &&& old(self)@.pins + old(self)@.rules.pins_increment_per_frame <= u8::MAX
            },
        ensures
            final(self)@ == ({
                let counted = GameState {
                    remaining_rolls_in_frame: if old(self)@.remaining_rolls_in_frame > 0 {
                        old(self)@.remaining_rolls_in_frame - 1
                    } else {
                        0
                    },
                    ..old(self)@
                };
                if !counted.last_frame() && (strike || counted.remaining_rolls_in_frame == 0) {
                    GameState {
                        remaining_rolls_in_frame: counted.rules.rolls_per_frame as int,
                        current_frame: counted.current_frame + 1,
                        frame_scores: Seq::empty(),
                        pins: counted.pins + counted.rules.pins_increment_per_frame,
                        ..counted
                    }
                } else {
                    counted
                }
            }),
    {
        self.decrement_rolls_in_frame();
        if !self.last_frame() && (strike || self.rolls_in_frame_are_over()) {
            self.set_to_next_frame();
        }
    }

    fn is_first_roll_in_frame(&self) -> (r: bool)
        ensures
            r == self@.first_roll_in_frame(),
    {
        self.remaining_rolls_in_frame == self.rules.rolls_per_frame
    }

    fn is_not_first_roll_in_frame(&self) -> (r: bool)
        ensures
            r == self@.later_roll_in_frame(),
    {
        self.remaining_rolls_in_frame != self.rules.rolls_per_frame
            && self.remaining_rolls_in_frame != 0
    }

    fn frame_score(&self) -> (r: u8)
        requires
            self@.frame_score() <= u8::MAX,
        ensures
            r == self@.frame_score(),
    {
        let mut sum: u8 = 0;
        let mut i: usize = 0;
        while i < self.frame_scores.len()
            invariant
                0 <= i <= self.frame_scores.len(),
                sum == total_pins(self.frame_scores@.take(i as int)),
                total_pins(self.frame_scores@) <= u8::MAX,
            decreases self.frame_scores.len() - i,
        {
            proof {
                let taken = self.frame_scores@.take(i as int);
                lemma_total_pins_push(taken, self.frame_scores@[i as int]);
                assert(self.frame_scores@.take(i + 1) =~= taken.push(self.frame_scores@[i as int]));
                lemma_total_pins_prefix(self.frame_scores@, i + 1);
            }
            sum += self.frame_scores[i];
            i += 1;
        }
        assert(self.frame_scores@.take(i as int) =~= self.frame_scores@);
        sum
    }

    fn is_full_score(&self) -> (r: bool)
        requires
            self@.frame_score() <= u8::MAX,
        ensures
            r == (self@.frame_score() == self@.pins),
    {
        self.frame_score() == self.pins
    }

    /// Takes one spare off the spares that are owed, as served by the roll just
    /// taken, and adds one when that roll was a second or later roll with
    /// which all pins of the frame are down.
    fn update_sparing(&mut self)
        requires
            old(self)@.sparing < u8::MAX,
            old(self)@.later_roll_in_frame() ==> old(self)@.frame_score() <= u8::MAX,
        ensures
            final(self)@ == (GameState {
                sparing: (if old(self)@.sparing > 0 {
                    old(self)@.sparing - 1
                } else {
                    0
                }) + (if old(self)@.later_roll_in_frame() && old(self)@.frame_score()
                    == old(self)@.pins {
                    1int
                } else {
                    0int
                }),
                ..old(self)@
            }),
    {
        if self.sparing > 0 {
            self.sparing -= 1
        }
        if self.is_not_first_roll_in_frame() && self.is_full_score() {
            self.sparing += 1
        }
    }

    fn pins_overload(&self, pins: u8) -> (r: bool)
        requires
            self@.frame_score() <= u8::MAX,
        ensures
            r == (self@.frame_score() + pins > self@.pins),
    {
        self.frame_score() as u16 + pins as u16 > self.pins as u16
    }

    fn add_striking(&mut self)
        ensures
            final(self)@ == (GameState {
                striking_rolls: incremented(old(self)@.striking_rolls),
                ..old(self)@
            }),
    {
        self.striking_rolls.increment_striking_rolls_bonus();
    }

    fn is_strike(&self, pins: u8) -> (r: bool)
        ensures
            r == (pins == self@.pins),
    {
        pins == self.pins
    }
}

} // verus!
