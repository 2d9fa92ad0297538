//! The rule set of a game: how many frames, how many rolls in a frame, and how
//! many pins stand in each frame.

use vstd::prelude::*;

verus! {

pub const DEFAULT_ROLLS_PER_FRAME: u8 = 2;

pub const DEFAULT_MAX_FRAMES: u8 = 10;

pub const DEFAULT_INITIAL_PINS: u8 = 10;

pub const DEFAULT_PINS_INCREMENT_PER_FRAME: u8 = 0;

#[derive(Debug)]
pub struct Rules {
    pub rolls_per_frame: u8,
    pub max_frames: u8,
    pub initial_pins: u8,
    pub pins_increment_per_frame: u8,
}

impl Rules {
    /// Pins that stand in frame `frame`, the first frame being frame 1.
    pub open spec fn pins_at(&self, frame: int) -> int {
        self.initial_pins + (frame - 1) * self.pins_increment_per_frame
    }

    /// Pins that stand in the last frame.
    pub open spec fn last_pins(&self) -> int {
        self.pins_at(self.max_frames as int)
    }

    /// The most that a roll can take `frame - 1` frames into the game: the pins
    /// of that frame, or of the last frame for the bonus rolls that follow it.
    pub open spec fn pins_up_to_last(&self, frame: int) -> int {
        if frame <= self.max_frames {
            self.pins_at(frame)
        } else {
            self.last_pins()
        }
    }

    /// The score of the frames from `frame` on when each of them is a strike:
    /// every strike counts its own pins and those of the two rolls after it.
    pub open spec fn max_score_from(&self, frame: int) -> int
        decreases self.max_frames - frame + 1,
    {
        if 1 <= frame <= self.max_frames {
            self.pins_up_to_last(frame) + self.pins_up_to_last(frame + 1) + self.pins_up_to_last(
                frame + 2,
            ) + self.max_score_from(frame + 1)
        } else {
            0
        }
    }

    /// The score of the perfect game, which no game under these rules exceeds.
    pub open spec fn max_score(&self) -> int {
        self.max_score_from(1)
    }

    /// A rule set that a game can be played with: at least one frame, one roll
    /// in a frame and one pin, a pin count that fits in a `u8` in every frame,
    /// and a perfect score that fits in a `u16`.
    pub open spec fn valid(&self) -> bool {
        &&& self.rolls_per_frame >= 1
        &&& self.max_frames >= 1
        &&& self.initial_pins >= 1
        &&& self.last_pins() <= u8::MAX
        &&& self.max_score() <= u16::MAX
    }

    /// The pin count grows by the increment from one frame to the next.
    pub proof fn lemma_pins_at_next(&self, frame: int)
        ensures
            self.pins_at(frame + 1) == self.pins_at(frame) + self.pins_increment_per_frame,
    {
        assert((frame + 1 - 1) * self.pins_increment_per_frame == (frame - 1)
            * self.pins_increment_per_frame + self.pins_increment_per_frame)
            by (nonlinear_arith);
    }

    /// A later frame has at least as many pins as an earlier one.
    pub proof fn lemma_pins_at_monotone(&self, earlier: int, later: int)
        requires
            earlier <= later,
        ensures
            self.pins_at(earlier) <= self.pins_at(later),
    {
        assert((earlier - 1) * self.pins_increment_per_frame <= (later - 1)
            * self.pins_increment_per_frame) by (nonlinear_arith)
            requires
                earlier <= later,
                self.pins_increment_per_frame >= 0,
        ;
    }

    /// From the first frame on, every frame has at least the initial pins and
    /// at most the pins of the last frame.
    pub proof fn lemma_pins_up_to_last_bounds(&self, frame: int)
        requires
            1 <= frame,
            1 <= self.max_frames,
        ensures
            self.initial_pins <= self.pins_up_to_last(frame) <= self.last_pins(),
            self.pins_up_to_last(frame) <= self.pins_up_to_last(frame + 1),
    {
        self.lemma_pins_at_monotone(1, frame);
        self.lemma_pins_at_monotone(1, self.max_frames as int);
        self.lemma_pins_at_monotone(frame, frame + 1);
        if frame <= self.max_frames {
            self.lemma_pins_at_monotone(frame, self.max_frames as int);
        }
    }

    /// The frames from `frame` on score at most three times the pins of the
    /// last frame each.
    pub proof fn lemma_max_score_from_bounds(&self, frame: int)
        requires
            1 <= frame <= self.max_frames + 1,
        ensures
            0 <= self.max_score_from(frame) <= 3 * (self.max_frames + 1 - frame)
                * self.last_pins(),
        decreases self.max_frames + 1 - frame,
    {
        if frame <= self.max_frames {
            self.lemma_max_score_from_bounds(frame + 1);
            self.lemma_pins_up_to_last_bounds(frame);
            self.lemma_pins_up_to_last_bounds(frame + 1);
            self.lemma_pins_up_to_last_bounds(frame + 2);
            let rest = self.max_frames - frame;
            let last = self.last_pins();
            assert(3 * (rest + 1) * last == 3 * rest * last + 3 * last) by (nonlinear_arith);
        }
    }

    /// The perfect score is at most three times the pins of the last frame for
    /// each frame.
    pub proof fn lemma_max_score_bound(&self)
        requires
            1 <= self.max_frames,
        ensures
            0 <= self.max_score() <= 3 * self.max_frames * self.last_pins(),
    {
        self.lemma_max_score_from_bounds(1);
    }

    /// The default rules: ten frames of two rolls at ten pins.
    pub fn new() -> (r: Rules)
        ensures
            r.rolls_per_frame == DEFAULT_ROLLS_PER_FRAME,
            r.max_frames == DEFAULT_MAX_FRAMES,
            r.initial_pins == DEFAULT_INITIAL_PINS,
            r.pins_increment_per_frame == DEFAULT_PINS_INCREMENT_PER_FRAME,
            r.valid(),
    {
        let r = Rules {
            rolls_per_frame: DEFAULT_ROLLS_PER_FRAME,
            max_frames: DEFAULT_MAX_FRAMES,
            initial_pins: DEFAULT_INITIAL_PINS,
            pins_increment_per_frame: DEFAULT_PINS_INCREMENT_PER_FRAME,
        };
        proof {
            r.lemma_max_score_bound();
        }
        r
    }

    pub fn set_rolls_per_frame(&mut self, rolls_per_frame: u8)
        ensures
            *final(self) == (Rules { rolls_per_frame, ..*old(self) }),
    {
        self.rolls_per_frame = rolls_per_frame;
    }

    pub fn set_max_frames(&mut self, max_frames: u8)
        ensures
            *final(self) == (Rules { max_frames, ..*old(self) }),
    {
        self.max_frames = max_frames;
    }

    /// Sets the pins of the first frame and the pins added with each further
    /// frame, in this order.
    pub fn set_pins(&mut self, pins: (u8, u8))
        ensures
            *final(self) == (Rules {
                initial_pins: pins.0,
                pins_increment_per_frame: pins.1,
                ..*old(self)
            }),
    {
        self.initial_pins = pins.0;
        self.pins_increment_per_frame = pins.1;
    }

    /// Says whether a game can be played with these rules.
    pub fn is_valid(&self) -> (b: bool)
        ensures
            b == self.valid(),
    {
        if self.rolls_per_frame < 1 || self.max_frames < 1 || self.initial_pins < 1 {
            return false;
        }
        let frames: u32 = self.max_frames as u32;
        let increment: u32 = self.pins_increment_per_frame as u32;
        assert((frames - 1) * increment <= 254 * 255) by (nonlinear_arith)
            requires
                1 <= frames <= 255,
                0 <= increment <= 255,
        ;
        let last: u32 = self.initial_pins as u32 + (frames - 1) * increment;
        if last > 255 {
            return false;
        }
        let mut frame: u32 = frames;
        let mut total: u32 = 0;
        while frame >= 1
            invariant
                0 <= frame <= frames,
                frames == self.max_frames,
                increment == self.pins_increment_per_frame,
                last == self.last_pins(),
                last <= 255,
                total == self.max_score_from(frame + 1),
                total <= 3 * (frames - frame) * 255,
            decreases frame,
        {
            proof {
                self.lemma_pins_up_to_last_bounds(frame as int);
                self.lemma_pins_up_to_last_bounds(frame + 1);
                self.lemma_pins_up_to_last_bounds(frame + 2);
                assert(3 * (frames - (frame - 1)) * 255 == 3 * (frames - frame) * 255 + 765)
                    by (nonlinear_arith);
                assert(3 * (frames - frame) * 255 <= 3 * 255 * 255) by (nonlinear_arith)
                    requires
                        0 <= frames - frame <= 255,
                ;
                assert((frame - 1) * increment <= (frames - 1) * increment) by (nonlinear_arith)
                    requires
                        1 <= frame <= frames,
                        0 <= increment,
                ;
            }
            let own: u32 = self.initial_pins as u32 + (frame - 1) * increment;
            let next: u32 = if frame + 1 <= frames { own + increment } else { last };
            let after: u32 = if frame + 2 <= frames { next + increment } else { last };
            proof {
                self.lemma_pins_at_next(frame as int);
                self.lemma_pins_at_next(frame + 1);
            }
            total = total + own + next + after;
            frame = frame - 1;
        }
        total <= 65535
    }
}

} // verus!
