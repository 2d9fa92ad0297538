//! The game as a mathematical value, and what one roll does to it.
//!
//! [`GameState`] is the view of a [`crate::game::Game`]. The functions here say
//! which rolls are taken, what each adds to the score and how the frames go
//! by; the engine is proved against them.

use vstd::prelude::*;
use crate::game::rules::Rules;
use crate::game::striking_bonuses::{
    active_count,
    all_over,
    decremented,
    incremented,
    no_bonus,
};

verus! {

/// The pins of all the rolls in `scores` together.
pub open spec fn total_pins(scores: Seq<u8>) -> int
    decreases scores.len(),
{
    if scores.len() == 0 {
        0
    } else {
        total_pins(scores.drop_last()) + scores.last()
    }
}

pub struct GameState {
    /// The rules that the game is played with.
    pub rules: Rules,
    /// The points so far.
    pub score: int,
    /// The pins that stand in the current frame.
    pub pins: int,
    /// The rolls taken so far.
    pub total_rolls: int,
    /// The current frame, the first being frame 1.
    pub current_frame: int,
    /// The rolls that the current frame still has.
    pub remaining_rolls_in_frame: int,
    /// The pins of each roll taken in the current frame, in order.
    pub frame_scores: Seq<u8>,
    /// The spares whose bonus is still owed.
    pub sparing: int,
    /// The counters of the strike bonus tracker.
    pub striking_rolls: Seq<u8>,
}

impl GameState {
    /// The game before the first roll.
    pub open spec fn initial(rules: Rules) -> GameState {
        GameState {
            rules,
            score: 0,
            pins: rules.initial_pins as int,
            total_rolls: 0,
            current_frame: 1,
            remaining_rolls_in_frame: rules.rolls_per_frame as int,
            frame_scores: Seq::empty(),
            sparing: 0,
            striking_rolls: no_bonus(),
        }
    }

    pub open spec fn last_frame(self) -> bool {
        self.current_frame == self.rules.max_frames
    }

    /// The game is over: the last frame has no roll left and no bonus is owed.
    pub open spec fn closed(self) -> bool {
        &&& self.last_frame()
        &&& self.remaining_rolls_in_frame == 0
        &&& self.sparing == 0
        &&& all_over(self.striking_rolls)
    }

    /// The next roll is a bonus roll: the last frame has no roll left, but a
    /// strike or a spare is still owed its bonus.
    pub open spec fn awaiting_bonus(self) -> bool {
        &&& self.last_frame()
        &&& self.remaining_rolls_in_frame == 0
        &&& (!all_over(self.striking_rolls) || self.sparing > 0)
    }

    /// The next roll is the first of its frame.
    pub open spec fn first_roll_in_frame(self) -> bool {
        self.remaining_rolls_in_frame == self.rules.rolls_per_frame
    }

    /// The next roll is a second or later roll of its frame.
    pub open spec fn later_roll_in_frame(self) -> bool {
        &&& self.remaining_rolls_in_frame != self.rules.rolls_per_frame
        &&& self.remaining_rolls_in_frame != 0
    }

    /// The pins taken in the current frame so far.
    pub open spec fn frame_score(self) -> int {
        total_pins(self.frame_scores)
    }

    /// A roll of `pins` would take more pins than the frame has left. Only a
    /// second or later roll of a frame can do so, and no bonus roll.
    pub open spec fn overflows(self, pins: u8) -> bool {
        &&& !self.awaiting_bonus()
        &&& self.later_roll_in_frame()
        &&& self.frame_score() + pins > self.pins
    }

    /// A roll of `pins` is a strike: the first roll of a frame that takes all
    /// its pins.
    pub open spec fn strikes(self, pins: u8) -> bool {
        self.first_roll_in_frame() && pins == self.pins
    }

    /// A roll of `pins` is a spare, or comes after one in the same frame: a
    /// second or later roll with which all pins of the frame are down.
    pub open spec fn spares(self, pins: u8) -> bool {
        self.later_roll_in_frame() && self.frame_score() + pins == self.pins
    }

    /// The bonuses that the next roll serves: one for a spare that is owed, and
    /// one for each strike bonus that is active.
    pub open spec fn bonus_copies(self) -> int {
        (if self.sparing > 0 { 1int } else { 0int }) + active_count(self.striking_rolls)
    }

    /// What a roll of `pins` adds to the score: its pins, unless it is a bonus
    /// roll, and its pins once more for each bonus that it serves.
    pub open spec fn gain(self, pins: u8) -> int {
        (if self.awaiting_bonus() { 0int } else { pins as int }) + pins * self.bonus_copies()
    }

    /// The rolls that the frame has left after a roll of `pins`: none after a
    /// strike, else one less, and never less than none.
    pub open spec fn rolls_left_after(self, pins: u8) -> int {
        if self.strikes(pins) || self.remaining_rolls_in_frame <= 0 {
            0
        } else {
            self.remaining_rolls_in_frame - 1
        }
    }

    /// A roll of `pins` ends the frame and starts the next one.
    pub open spec fn advances(self, pins: u8) -> bool {
        &&& !self.last_frame()
        &&& (self.strikes(pins) || self.rolls_left_after(pins) == 0)
    }

    /// The game after a roll of `pins` that was taken.
    pub open spec fn after_roll(self, pins: u8) -> GameState {
        let served = decremented(self.striking_rolls);
        let advances = self.advances(pins);
        GameState {
            rules: self.rules,
            score: self.score + self.gain(pins),
            pins: if advances {
                self.pins + self.rules.pins_increment_per_frame
            } else {
                self.pins
            },
            total_rolls: self.total_rolls + 1,
            current_frame: if advances {
                self.current_frame + 1
            } else {
                self.current_frame
            },
            remaining_rolls_in_frame: if advances {
                self.rules.rolls_per_frame as int
            } else {
                self.rolls_left_after(pins)
            },
            frame_scores: if advances {
                Seq::empty()
            } else {
                self.frame_scores.push(pins)
            },
            sparing: (if self.sparing > 0 { self.sparing - 1 } else { 0 }) + (if self.spares(pins) {
                1int
            } else {
                0int
            }),
            striking_rolls: if self.strikes(pins) {
                incremented(served)
            } else {
                served
            },
        }
    }

    /// The game after a roll of `pins` was offered to it: unchanged where the
    /// roll is refused, and unchanged when the game is over, which takes no
    /// more rolls.
    pub open spec fn step(self, pins: u8) -> GameState {
        if self.closed() || self.overflows(pins) {
            self
        } else {
            self.after_roll(pins)
        }
    }

    /// The game after the rolls in `rolls` were offered to it one by one.
    pub open spec fn play(self, rolls: Seq<u8>) -> GameState
        decreases rolls.len(),
    {
        if rolls.len() == 0 {
            self
        } else {
            self.play(rolls.drop_last()).step(rolls.last())
        }
    }

    /// What the rolls in `rolls` add to the score together: each roll that is
    /// taken adds its gain in the game as it stands when the roll is offered.
    pub open spec fn gained(self, rolls: Seq<u8>) -> int
        decreases rolls.len(),
    {
        if rolls.len() == 0 {
            0
        } else {
            let before = self.play(rolls.drop_last());
            self.gained(rolls.drop_last()) + if before.closed() || before.overflows(rolls.last()) {
                0
            } else {
                before.gain(rolls.last())
            }
        }
    }

    /// Each roll in `rolls` is at most the pins that stand in the frame in which
    /// it is offered.
    pub open spec fn within_pins(self, rolls: Seq<u8>) -> bool
        decreases rolls.len(),
    {
        rolls.len() == 0 || {
            &&& self.within_pins(rolls.drop_last())
            &&& rolls.last() <= self.play(rolls.drop_last()).pins
        }
    }

    /// The strike bonuses that are still active after the next roll.
    pub open spec fn bonus_copies_after_next(self) -> int {
        active_count(decremented(self.striking_rolls))
    }

    /// The most that the rolls still to come can add to the score: what the
    /// bonuses that are owed can bring, the pins that the current frame has
    /// left with the bonus of a spare, and the frames after it as strikes.
    pub open spec fn max_gain_left(self) -> int {
        let next_pins = self.rules.pins_up_to_last(self.current_frame + 1);
        if self.remaining_rolls_in_frame == 0 {
            self.pins * self.bonus_copies() + self.pins * self.bonus_copies_after_next()
        } else if self.first_roll_in_frame() {
            self.pins * self.bonus_copies() + next_pins * self.bonus_copies_after_next()
                + self.rules.max_score_from(self.current_frame)
        } else {
            (self.pins - self.frame_score()) * (1 + self.bonus_copies()) + next_pins
                + self.rules.max_score_from(self.current_frame + 1)
        }
    }

    /// What holds of the tracker and the spare counter in every game: a counter
    /// is at most 2, two counters that are active differ, and a spare is owed
    /// only when the last roll was no strike.
    pub open spec fn bonuses_wf(self) -> bool {
        &&& self.striking_rolls.len() == 2
        &&& self.striking_rolls[0] <= 2
        &&& self.striking_rolls[1] <= 2
        &&& (self.striking_rolls[0] == self.striking_rolls[1] ==> all_over(self.striking_rolls))
        &&& 0 <= self.sparing <= 1
        &&& (self.sparing == 1 ==> self.striking_rolls[0] != 2 && self.striking_rolls[1] != 2)
    }

    /// What holds of the current frame in every game.
    pub open spec fn frame_wf(self) -> bool {
        &&& 1 <= self.current_frame <= self.rules.max_frames
        &&& 0 <= self.remaining_rolls_in_frame <= self.rules.rolls_per_frame
        &&& self.pins == self.rules.pins_at(self.current_frame)
        &&& (self.remaining_rolls_in_frame > 0 ==> {
            &&& self.frame_scores.len() == self.rules.rolls_per_frame
                - self.remaining_rolls_in_frame
            &&& self.frame_score() <= self.pins
        })
        &&& (self.remaining_rolls_in_frame == 0 ==> {
            &&& self.last_frame()
            &&& 1 <= self.frame_scores.len()
            &&& self.frame_scores.len() + self.sparing <= self.rules.rolls_per_frame + 2
            &&& self.frame_scores.len() + self.striking_rolls[0] <= self.rules.rolls_per_frame + 2
            &&& self.frame_scores.len() + self.striking_rolls[1] <= self.rules.rolls_per_frame + 2
        })
        &&& (self.later_roll_in_frame() ==> {
            &&& self.striking_rolls[0] != 2
            &&& self.striking_rolls[1] != 2
        })
    }

    /// What holds of the counts in every game: the rolls taken are at most those
    /// of the frames so far, and the score with all that can still come is at
    /// most the perfect score.
    pub open spec fn counts_wf(self) -> bool {
        &&& 0 <= self.score
        &&& self.score + self.max_gain_left() <= self.rules.max_score()
        &&& 0 <= self.total_rolls <= (self.current_frame - 1) * self.rules.rolls_per_frame
            + self.frame_scores.len()
    }

    /// What holds of every game that was started with valid rules and took
    /// rolls within the pins of their frames.
    pub open spec fn wf(self) -> bool {
        &&& self.rules.valid()
        &&& self.bonuses_wf()
        &&& self.frame_wf()
        &&& self.counts_wf()
    }
}

} // verus!
