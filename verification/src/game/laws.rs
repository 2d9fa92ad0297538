//! What holds of every game, proved of the model in [`crate::game::state`].

use vstd::prelude::*;
use crate::game::rules::Rules;
use crate::game::state::{total_pins, GameState};
use crate::game::striking_bonuses::{active_count, decremented, incremented};

verus! {

/// A roll adds its pins to the pins of the rolls before it.
pub proof fn lemma_total_pins_push(scores: Seq<u8>, pins: u8)
    ensures
        total_pins(scores.push(pins)) == total_pins(scores) + pins,
{
    assert(scores.push(pins).drop_last() =~= scores);
}

/// The pins of some rolls together are not negative.
pub proof fn lemma_total_pins_not_negative(scores: Seq<u8>)
    ensures
        0 <= total_pins(scores),
    decreases scores.len(),
{
    if scores.len() > 0 {
        lemma_total_pins_not_negative(scores.drop_last());
    }
}

/// A product with a factor from 0 to 3, written as a sum.
proof fn lemma_small_multiple(value: int, copies: int)
    requires
        0 <= copies <= 3,
    ensures
        value * copies == if copies == 0 {
            0
        } else if copies == 1 {
            value
        } else if copies == 2 {
            value + value
        } else {
            value + value + value
        },
{
    assert(value * 0 == 0);
    assert(value * 1 == value);
    assert(value * 2 == value + value);
    assert(value * 3 == value + value + value);
}

/// A game starts well-formed.
pub proof fn lemma_initial_wf(rules: Rules)
    requires
        rules.valid(),
    ensures
        GameState::initial(rules).wf(),
{
    let s = GameState::initial(rules);
    lemma_small_multiple(s.pins, s.bonus_copies());
    lemma_small_multiple(rules.pins_up_to_last(2), s.bonus_copies_after_next());
    assert(s.frame_scores.len() == 0);
    assert((s.current_frame - 1) * rules.rolls_per_frame == 0) by (nonlinear_arith)
        requires
            s.current_frame == 1,
    ;
}

/// A roll that is taken keeps what holds of the tracker and the spare counter.
proof fn lemma_after_roll_bonuses_wf(s: GameState, pins: u8)
    requires
        s.wf(),
    ensures
        s.after_roll(pins).bonuses_wf(),
{
}

/// A roll that is taken keeps what holds of the current frame.
proof fn lemma_after_roll_frame_wf(s: GameState, pins: u8)
    requires
        s.wf(),
        !s.closed(),
        !s.overflows(pins),
        pins <= s.pins,
    ensures
        s.after_roll(pins).frame_wf(),
{
    lemma_total_pins_push(s.frame_scores, pins);
    s.rules.lemma_pins_at_next(s.current_frame);
    if s.first_roll_in_frame() {
        assert(s.frame_scores =~= Seq::<u8>::empty());
    }
}

/// The bonuses that a roll serves are at most two, and at most one strike bonus
/// outlasts it.
proof fn lemma_bonus_copies_bounds(s: GameState)
    requires
        s.bonuses_wf(),
    ensures
        0 <= s.bonus_copies() <= 2,
        0 <= s.bonus_copies_after_next() <= 1,
{
}

/// A roll that is taken adds nothing negative to the score, and at most three
/// times its pins.
pub proof fn lemma_gain_bounds(s: GameState, pins: u8)
    requires
        s.bonuses_wf(),
    ensures
        0 <= s.gain(pins) <= 3 * pins,
        pins == 0 ==> s.gain(pins) == 0,
{
    lemma_bonus_copies_bounds(s);
    lemma_small_multiple(pins as int, s.bonus_copies());
}

/// What a roll adds to the score, part by part: its own pins, its pins for a
/// spare that is owed, and its pins for each strike bonus that is active, of
/// which there are at most two.
pub proof fn lemma_gain_parts(s: GameState, pins: u8)
    requires
        s.bonuses_wf(),
    ensures
        s.gain(pins) == (if s.awaiting_bonus() { 0int } else { pins as int }) + (if s.sparing > 0 {
            pins as int
        } else {
            0int
        }) + pins * active_count(s.striking_rolls),
        pins * active_count(s.striking_rolls) == if active_count(s.striking_rolls) == 0 {
            0int
        } else if active_count(s.striking_rolls) == 1 {
            pins as int
        } else {
            pins + pins
        },
{
    lemma_small_multiple(pins as int, s.bonus_copies());
    lemma_small_multiple(pins as int, active_count(s.striking_rolls));
}

/// What the tracker counts after a roll: the bonuses that outlast the roll, and
/// one more, for two rolls, when the roll is a strike.
proof fn lemma_tracker_after_roll(s: GameState)
    requires
        s.bonuses_wf(),
    ensures
        ({
            let served = decremented(s.striking_rolls);
            &&& active_count(served) == s.bonus_copies_after_next()
            &&& active_count(decremented(served)) == 0
            &&& active_count(incremented(served)) == s.bonus_copies_after_next() + 1
            &&& active_count(decremented(incremented(served))) == 1
        }),
{
}

/// The bonus that is owed for the next roll is what a roll of all the pins
/// would bring, so a roll brings at most that.
proof fn lemma_next_roll_bonus(s: GameState, pins: u8)
    requires
        s.bonuses_wf(),
        pins <= s.pins,
    ensures
        0 <= pins * s.bonus_copies() <= s.pins * s.bonus_copies(),
{
    lemma_bonus_copies_bounds(s);
    lemma_small_multiple(pins as int, s.bonus_copies());
    lemma_small_multiple(s.pins, s.bonus_copies());
}

/// A bonus roll adds no more than the bonuses owed for it.
proof fn lemma_bonus_roll_within_max(s: GameState, pins: u8)
    requires
        s.wf(),
        !s.closed(),
        pins <= s.pins,
        s.remaining_rolls_in_frame == 0,
    ensures
        s.gain(pins) + s.after_roll(pins).max_gain_left() <= s.max_gain_left(),
{
    let t = s.after_roll(pins);
    lemma_tracker_after_roll(s);
    lemma_next_roll_bonus(s, pins);
    assert(t.remaining_rolls_in_frame == 0);
    assert(t.pins == s.pins);
    assert(t.sparing == 0);
    assert(t.bonus_copies() == s.bonus_copies_after_next());
    assert(t.bonus_copies_after_next() == 0);
    assert(t.pins * t.bonus_copies_after_next() == 0) by (nonlinear_arith)
        requires
            t.bonus_copies_after_next() == 0,
    ;
}

/// A strike adds its pins with the bonuses owed for it, and is owed the two
/// rolls after it.
proof fn lemma_strike_within_max(s: GameState, pins: u8)
    requires
        s.wf(),
        s.strikes(pins),
    ensures
        s.gain(pins) + s.after_roll(pins).max_gain_left() <= s.max_gain_left(),
{
    let t = s.after_roll(pins);
    let rules = s.rules;
    let frame = s.current_frame;
    let next_pins = rules.pins_up_to_last(frame + 1);
    let later_pins = rules.pins_up_to_last(frame + 2);
    let copies = s.bonus_copies();
    let outlasting = s.bonus_copies_after_next();
    lemma_tracker_after_roll(s);
    lemma_bonus_copies_bounds(s);
    rules.lemma_pins_at_next(frame);
    assert(!s.awaiting_bonus());
    assert(t.sparing == 0);
    assert(t.bonus_copies() == outlasting + 1);
    assert(t.bonus_copies_after_next() == 1);
    assert(s.gain(pins) == s.pins + s.pins * copies);
    assert(rules.max_score_from(frame) == s.pins + next_pins + later_pins + rules.max_score_from(
        frame + 1,
    ));
    assert(t.pins == next_pins);
    lemma_small_multiple(next_pins, outlasting);
    lemma_small_multiple(next_pins, outlasting + 1);
    if s.last_frame() {
        assert(t.remaining_rolls_in_frame == 0);
        assert(later_pins == s.pins);
        assert(rules.max_score_from(frame + 1) == 0);
        assert(t.pins * t.bonus_copies_after_next() == t.pins) by (nonlinear_arith)
            requires
                t.bonus_copies_after_next() == 1,
        ;
    } else {
        assert(t.first_roll_in_frame());
        assert(t.current_frame == frame + 1);
        assert(rules.pins_up_to_last(t.current_frame + 1) == later_pins);
        assert(later_pins * t.bonus_copies_after_next() == later_pins) by (nonlinear_arith)
            requires
                t.bonus_copies_after_next() == 1,
        ;
    }
}

/// A first roll that is no strike adds its pins with the bonuses owed for it;
/// its frame can still end in a spare.
proof fn lemma_open_first_roll_within_max(s: GameState, pins: u8)
    requires
        s.wf(),
        s.first_roll_in_frame(),
        pins < s.pins,
    ensures
        s.gain(pins) + s.after_roll(pins).max_gain_left() <= s.max_gain_left(),
{
    let t = s.after_roll(pins);
    let rules = s.rules;
    let frame = s.current_frame;
    let next_pins = rules.pins_up_to_last(frame + 1);
    let later_pins = rules.pins_up_to_last(frame + 2);
    let copies = s.bonus_copies();
    let outlasting = s.bonus_copies_after_next();
    lemma_tracker_after_roll(s);
    lemma_bonus_copies_bounds(s);
    lemma_next_roll_bonus(s, pins);
    rules.lemma_pins_at_next(frame);
    rules.lemma_pins_up_to_last_bounds(frame);
    rules.lemma_pins_up_to_last_bounds(frame + 1);
    assert(s.frame_scores =~= Seq::<u8>::empty());
    lemma_total_pins_push(s.frame_scores, pins);
    assert(!s.awaiting_bonus());
    assert(!s.strikes(pins));
    assert(t.sparing == 0);
    assert(t.bonus_copies() == outlasting);
    assert(t.bonus_copies_after_next() == 0);
    assert(s.gain(pins) == pins + pins * copies);
    assert(rules.max_score_from(frame) == s.pins + next_pins + later_pins + rules.max_score_from(
        frame + 1,
    ));
    lemma_small_multiple(next_pins, outlasting);
    lemma_small_multiple(s.pins, outlasting);
    lemma_small_multiple(s.pins - pins, 1 + outlasting);
    if t.remaining_rolls_in_frame == 0 {
        assert(s.last_frame());
        assert(t.pins == s.pins);
        assert(t.pins * t.bonus_copies_after_next() == 0) by (nonlinear_arith)
            requires
                t.bonus_copies_after_next() == 0,
        ;
    } else if s.advances(pins) {
        assert(t.first_roll_in_frame());
        assert(t.current_frame == frame + 1);
        assert(t.pins == next_pins);
        assert(rules.pins_up_to_last(t.current_frame + 1) == later_pins);
        assert(later_pins * t.bonus_copies_after_next() == 0) by (nonlinear_arith)
            requires
                t.bonus_copies_after_next() == 0,
        ;
    } else {
        assert(t.later_roll_in_frame());
        assert(t.current_frame == frame);
        assert(t.frame_score() == pins);
        assert(t.pins == s.pins);
    }
}

/// A second or later roll of a frame adds its pins with the bonuses owed for
/// it; a spare is owed the roll after it.
proof fn lemma_later_roll_within_max(s: GameState, pins: u8)
    requires
        s.wf(),
        s.later_roll_in_frame(),
        !s.overflows(pins),
    ensures
        s.gain(pins) + s.after_roll(pins).max_gain_left() <= s.max_gain_left(),
{
    let t = s.after_roll(pins);
    let rules = s.rules;
    let frame = s.current_frame;
    let next_pins = rules.pins_up_to_last(frame + 1);
    let later_pins = rules.pins_up_to_last(frame + 2);
    let copies = s.bonus_copies();
    let left = s.pins - s.frame_score();
    lemma_tracker_after_roll(s);
    lemma_bonus_copies_bounds(s);
    lemma_total_pins_push(s.frame_scores, pins);
    lemma_total_pins_not_negative(s.frame_scores);
    rules.lemma_pins_at_next(frame);
    rules.lemma_pins_up_to_last_bounds(frame);
    rules.lemma_pins_up_to_last_bounds(frame + 1);
    assert(!s.awaiting_bonus());
    assert(!s.strikes(pins));
    assert(s.bonus_copies_after_next() == 0);
    assert(t.bonus_copies() == if s.spares(pins) { 1int } else { 0int });
    assert(t.bonus_copies_after_next() == 0);
    assert(s.gain(pins) == pins + pins * copies);
    assert(pins <= left);
    lemma_small_multiple(pins as int, copies);
    lemma_small_multiple(left, 1 + copies);
    lemma_small_multiple(next_pins, t.bonus_copies());
    lemma_small_multiple(s.pins, t.bonus_copies());
    lemma_small_multiple(left - pins, 1 + t.bonus_copies());
    if t.remaining_rolls_in_frame == 0 {
        assert(s.last_frame());
        assert(t.pins == s.pins);
        assert(next_pins == s.pins);
        assert(rules.max_score_from(frame + 1) == 0);
        assert(t.pins * t.bonus_copies_after_next() == 0) by (nonlinear_arith)
            requires
                t.bonus_copies_after_next() == 0,
        ;
    } else if s.advances(pins) {
        assert(t.first_roll_in_frame());
        assert(t.current_frame == frame + 1);
        assert(t.pins == next_pins);
        assert(rules.pins_up_to_last(t.current_frame + 1) == later_pins);
        assert(later_pins * t.bonus_copies_after_next() == 0) by (nonlinear_arith)
            requires
                t.bonus_copies_after_next() == 0,
        ;
        assert(rules.max_score_from(frame + 1) == next_pins + later_pins + rules.pins_up_to_last(
            frame + 3,
        ) + rules.max_score_from(frame + 2));
    } else {
        assert(t.later_roll_in_frame());
        assert(t.current_frame == frame);
        assert(t.pins == s.pins);
        assert(t.frame_score() == s.frame_score() + pins);
    }
}

/// A roll that is taken keeps the score, with all that can still come, under
/// the perfect score, and the rolls taken under those of the frames so far.
proof fn lemma_after_roll_counts_wf(s: GameState, pins: u8)
    requires
        s.wf(),
        !s.closed(),
        !s.overflows(pins),
        pins <= s.pins,
    ensures
        s.after_roll(pins).counts_wf(),
{
    let t = s.after_roll(pins);
    let rules = s.rules;
    let frame = s.current_frame;
    lemma_gain_bounds(s, pins);
    assert(t.total_rolls <= (t.current_frame - 1) * rules.rolls_per_frame + t.frame_scores.len())
        by {
        assert((frame + 1 - 1) * rules.rolls_per_frame == (frame - 1) * rules.rolls_per_frame
            + rules.rolls_per_frame) by (nonlinear_arith);
    }
    assert(s.gain(pins) + t.max_gain_left() <= s.max_gain_left()) by {
        if s.remaining_rolls_in_frame == 0 {
            lemma_bonus_roll_within_max(s, pins);
        } else if s.strikes(pins) {
            lemma_strike_within_max(s, pins);
        } else if s.first_roll_in_frame() {
            lemma_open_first_roll_within_max(s, pins);
        } else {
            lemma_later_roll_within_max(s, pins);
        }
    }
}

/// A roll that is taken leaves the game well-formed.
pub proof fn lemma_after_roll_wf(s: GameState, pins: u8)
    requires
        s.wf(),
        !s.closed(),
        !s.overflows(pins),
        pins <= s.pins,
    ensures
        s.after_roll(pins).wf(),
{
    lemma_after_roll_bonuses_wf(s, pins);
    lemma_after_roll_frame_wf(s, pins);
    lemma_after_roll_counts_wf(s, pins);
}

/// The first rolls of a frame take no more pins than all its rolls.
pub proof fn lemma_total_pins_prefix(scores: Seq<u8>, count: int)
    requires
        0 <= count <= scores.len(),
    ensures
        total_pins(scores.take(count)) <= total_pins(scores),
    decreases scores.len(),
{
    if count < scores.len() {
        lemma_total_pins_prefix(scores.drop_last(), count);
        assert(scores.drop_last().take(count) =~= scores.take(count));
    } else {
        assert(scores.take(count) =~= scores);
    }
}

/// After a roll that is taken and is no bonus roll, the rolls of the current
/// frame have taken no more pins than stand in it. (The bonus rolls after the
/// last frame are counted with that frame, and each may take all the pins
/// again.)
pub proof fn lemma_frame_within_pins(s: GameState, pins: u8)
    requires
        s.wf(),
        !s.closed(),
        !s.awaiting_bonus(),
        !s.overflows(pins),
        pins <= s.pins,
    ensures
        0 <= s.after_roll(pins).frame_score() <= s.after_roll(pins).pins,
{
    lemma_after_roll_wf(s, pins);
    lemma_total_pins_push(s.frame_scores, pins);
    lemma_total_pins_not_negative(s.frame_scores);
    if s.first_roll_in_frame() {
        assert(s.frame_scores =~= Seq::<u8>::empty());
    }
}

/// The rolls still to come add nothing negative.
proof fn lemma_max_gain_left_not_negative(s: GameState)
    requires
        s.wf(),
    ensures
        0 <= s.max_gain_left(),
{
    let rules = s.rules;
    let frame = s.current_frame;
    lemma_bonus_copies_bounds(s);
    lemma_total_pins_not_negative(s.frame_scores);
    rules.lemma_pins_up_to_last_bounds(frame);
    rules.lemma_pins_up_to_last_bounds(frame + 1);
    rules.lemma_max_score_from_bounds(frame);
    rules.lemma_max_score_from_bounds(frame + 1);
    lemma_small_multiple(s.pins, s.bonus_copies());
    lemma_small_multiple(s.pins, s.bonus_copies_after_next());
    lemma_small_multiple(rules.pins_up_to_last(frame + 1), s.bonus_copies_after_next());
    lemma_small_multiple(s.pins - s.frame_score(), 1 + s.bonus_copies());
}

/// The score of a game is at most the perfect score of its rules, and fits in
/// a `u16`.
pub proof fn lemma_score_within_max(s: GameState)
    requires
        s.wf(),
    ensures
        0 <= s.score <= s.rules.max_score() <= u16::MAX,
{
    lemma_max_gain_left_not_negative(s);
}

/// A game takes at most the rolls of all its frames and two bonus rolls.
pub proof fn lemma_total_rolls_bound(s: GameState)
    requires
        s.wf(),
    ensures
        s.total_rolls <= s.rules.max_frames * s.rules.rolls_per_frame + 2 <= 255 * 255 + 2,
{
    let frames = s.rules.max_frames as int;
    let rolls = s.rules.rolls_per_frame as int;
    assert((s.current_frame - 1) * rolls + rolls <= frames * rolls <= 255 * 255)
        by (nonlinear_arith)
        requires
            1 <= s.current_frame <= frames <= 255,
            0 <= rolls <= 255,
    ;
}

/// The pins of the next frame fit in a `u8`.
pub proof fn lemma_next_frame_pins(s: GameState)
    requires
        s.wf(),
        !s.last_frame(),
    ensures
        s.pins + s.rules.pins_increment_per_frame == s.rules.pins_at(s.current_frame + 1),
        s.pins + s.rules.pins_increment_per_frame <= u8::MAX,
{
    s.rules.lemma_pins_at_next(s.current_frame);
    s.rules.lemma_pins_at_monotone(s.current_frame + 1, s.rules.max_frames as int);
}

/// A roll that is offered leaves the game well-formed, whether it is taken or
/// not.
pub proof fn lemma_step_wf(s: GameState, pins: u8)
    requires
        s.wf(),
        pins <= s.pins,
    ensures
        s.step(pins).wf(),
{
    if !s.closed() && !s.overflows(pins) {
        lemma_after_roll_wf(s, pins);
    }
}

/// Rolls within the pins of their frames leave the game well-formed: the
/// current frame is one of the game's frames, and it has no more rolls left
/// than a frame has.
pub proof fn lemma_play_wf(s: GameState, rolls: Seq<u8>)
    requires
        s.wf(),
        s.within_pins(rolls),
    ensures
        s.play(rolls).wf(),
        1 <= s.play(rolls).current_frame <= s.rules.max_frames,
        0 <= s.play(rolls).remaining_rolls_in_frame <= s.rules.rolls_per_frame,
    decreases rolls.len(),
{
    if rolls.len() > 0 {
        lemma_play_wf(s, rolls.drop_last());
        lemma_play_rules(s, rolls.drop_last());
        lemma_step_wf(s.play(rolls.drop_last()), rolls.last());
    }
    lemma_play_rules(s, rolls);
}

/// The rules of a game never change.
pub proof fn lemma_play_rules(s: GameState, rolls: Seq<u8>)
    ensures
        s.play(rolls).rules == s.rules,
    decreases rolls.len(),
{
    if rolls.len() > 0 {
        lemma_play_rules(s, rolls.drop_last());
    }
}

/// No roll that is offered lowers the score, whatever its pins and whatever
/// the state of the game.
pub proof fn lemma_step_score_never_falls(s: GameState, pins: u8)
    ensures
        s.score <= s.step(pins).score,
{
    assert(0 <= pins * s.bonus_copies()) by (nonlinear_arith)
        requires
            0 <= pins,
            0 <= s.bonus_copies(),
    ;
}

/// Whatever the pins of a roll that is offered, the current frame stays one of
/// the game's frames and has no more rolls left than a frame has. The frame
/// stays or is followed by the next one, which has all its rolls; it stays
/// when the roll is refused and in the last frame. In a frame that stays, a
/// roll that is taken leaves one roll less, or none after a strike.
pub proof fn lemma_step_frame_and_rolls_left(s: GameState, pins: u8)
    requires
        1 <= s.current_frame <= s.rules.max_frames,
        0 <= s.remaining_rolls_in_frame <= s.rules.rolls_per_frame,
    ensures
        ({
            let t = s.step(pins);
            let taken = !s.closed() && !s.overflows(pins);
            &&& t.rules == s.rules
            &&& 1 <= t.current_frame <= t.rules.max_frames
            &&& 0 <= t.remaining_rolls_in_frame <= t.rules.rolls_per_frame
            &&& t.current_frame == s.current_frame || t.current_frame == s.current_frame + 1
            &&& !taken || s.last_frame() ==> t.current_frame == s.current_frame
            &&& !taken ==> t.remaining_rolls_in_frame == s.remaining_rolls_in_frame
            &&& t.current_frame == s.current_frame + 1 ==> t.remaining_rolls_in_frame
                == t.rules.rolls_per_frame
            &&& taken && t.current_frame == s.current_frame ==> t.remaining_rolls_in_frame
                == s.rolls_left_after(pins)
        }),
{
}

/// From the first roll on, whatever the pins of the rolls that are offered, the
/// current frame is one of the game's frames and has no more rolls left than a
/// frame has.
pub proof fn lemma_play_frame_and_rolls_left(rules: Rules, rolls: Seq<u8>)
    requires
        1 <= rules.max_frames,
    ensures
        ({
            let t = GameState::initial(rules).play(rolls);
            &&& t.rules == rules
            &&& 1 <= t.current_frame <= rules.max_frames
            &&& 0 <= t.remaining_rolls_in_frame <= rules.rolls_per_frame
        }),
    decreases rolls.len(),
{
    if rolls.len() > 0 {
        lemma_play_frame_and_rolls_left(rules, rolls.drop_last());
        lemma_step_frame_and_rolls_left(
            GameState::initial(rules).play(rolls.drop_last()),
            rolls.last(),
        );
    }
}

/// The score never falls, whatever the pins of the rolls that are offered:
/// after any of the rolls it is at most what it is after all of them.
pub proof fn lemma_score_never_falls(s: GameState, rolls: Seq<u8>, count: int)
    requires
        0 <= count <= rolls.len(),
    ensures
        s.play(rolls.take(count)).score <= s.play(rolls).score,
    decreases rolls.len(),
{
    if count < rolls.len() {
        lemma_score_never_falls(s, rolls.drop_last(), count);
        assert(rolls.drop_last().take(count) =~= rolls.take(count));
        lemma_step_score_never_falls(s.play(rolls.drop_last()), rolls.last());
    } else {
        assert(rolls.take(count) =~= rolls);
    }
}

/// A game that is over stays over, and as it is: whatever rolls are offered
/// after those that ended it, it is in the state in which it ended.
pub proof fn lemma_closed_stays_closed(s: GameState, rolls: Seq<u8>, count: int)
    requires
        0 <= count <= rolls.len(),
        s.play(rolls.take(count)).closed(),
    ensures
        s.play(rolls).closed(),
        s.play(rolls) == s.play(rolls.take(count)),
    decreases rolls.len(),
{
    if count < rolls.len() {
        assert(rolls.drop_last().take(count) =~= rolls.take(count));
        lemma_closed_stays_closed(s, rolls.drop_last(), count);
    } else {
        assert(rolls.take(count) =~= rolls);
    }
}

/// A game that is over is in its last frame, with no roll left, and owes no
/// bonus for a spare or a strike.
pub proof fn lemma_closed_owes_nothing(s: GameState)
    requires
        s.closed(),
    ensures
        s.current_frame == s.rules.max_frames,
        s.remaining_rolls_in_frame == 0,
        s.sparing == 0,
        active_count(s.striking_rolls) == 0,
        s.bonus_copies() == 0,
        !s.awaiting_bonus(),
{
}

/// A roll that is refused changes nothing, whatever its pins and whatever the
/// state of the game: the score, the rolls taken, the frame and the bonuses
/// owed are as before, and the same roll is refused again. A roll is refused
/// only for the pins of its frame.
pub proof fn lemma_refused_roll_changes_nothing(s: GameState, pins: u8)
    requires
        s.overflows(pins),
    ensures
        s.step(pins) == s,
        s.step(pins).overflows(pins),
        s.step(pins).closed() == s.closed(),
        s.frame_score() + pins > s.pins,
{
}

/// A roll of no pins adds nothing to the score.
pub proof fn lemma_zero_roll_scores_nothing(s: GameState)
    ensures
        s.step(0).score == s.score,
{
    assert(0 * s.bonus_copies() == 0) by (nonlinear_arith);
}

/// A game of rolls that all take no pins has the score 0 throughout, and so
/// when it is over.
pub proof fn lemma_zero_rolls_score_zero(rules: Rules, rolls: Seq<u8>)
    requires
        forall|i: int| 0 <= i < rolls.len() ==> rolls[i] == 0,
    ensures
        GameState::initial(rules).play(rolls).score == 0,
    decreases rolls.len(),
{
    if rolls.len() > 0 {
        lemma_zero_rolls_score_zero(rules, rolls.drop_last());
        lemma_zero_roll_scores_nothing(GameState::initial(rules).play(rolls.drop_last()));
    }
}

/// No strike is ever dropped by the tracker: when a strike is rolled, the roll
/// has first served the bonuses that were active, which leaves a counter free
/// for it.
pub proof fn lemma_strike_finds_free_counter(s: GameState, pins: u8)
    requires
        s.wf(),
        s.strikes(pins),
    ensures
        ({
            let served = decremented(s.striking_rolls);
            &&& served[0] == 0 || served[1] == 0
            &&& active_count(s.after_roll(pins).striking_rolls) == active_count(served) + 1
        }),
{
}

/// The score is what the rolls taken have added, each with its bonuses: its
/// pins, unless it is a bonus roll, once more for a spare that is owed, and
/// once more for each strike bonus that is active.
pub proof fn lemma_score_is_sum_of_gains(s: GameState, rolls: Seq<u8>)
    ensures
        s.play(rolls).score == s.score + s.gained(rolls),
    decreases rolls.len(),
{
    if rolls.len() > 0 {
        lemma_score_is_sum_of_gains(s, rolls.drop_last());
    }
}

} // verus!
