use bowling::command::{get_rules_from_game_type, GameType};
use bowling::game::rules::Rules;
use bowling::game::striking_bonuses::{first_slot, StrikingBonus};

fn rules_of(rolls_per_frame: u8, max_frames: u8, initial_pins: u8, increment: u8) -> Rules {
    Rules { rolls_per_frame, max_frames, initial_pins, pins_increment_per_frame: increment }
}

#[test]
fn default_rules() {
    let rules = Rules::new();

    assert_eq!(rules.rolls_per_frame, 2);
    assert_eq!(rules.max_frames, 10);
    assert_eq!(rules.initial_pins, 10);
    assert_eq!(rules.pins_increment_per_frame, 0);
    assert_eq!(rules.is_valid(), true);
}

#[test]
fn setters_change_their_field_only() {
    let mut rules = Rules::new();

    rules.set_rolls_per_frame(3);
    assert_eq!(
        (rules.rolls_per_frame, rules.max_frames, rules.initial_pins, rules.pins_increment_per_frame),
        (3, 10, 10, 0)
    );
    rules.set_max_frames(12);
    assert_eq!(
        (rules.rolls_per_frame, rules.max_frames, rules.initial_pins, rules.pins_increment_per_frame),
        (3, 12, 10, 0)
    );
    rules.set_pins((1, 2));
    assert_eq!(
        (rules.rolls_per_frame, rules.max_frames, rules.initial_pins, rules.pins_increment_per_frame),
        (3, 12, 1, 2)
    );
}

#[test]
fn presets() {
    let normal = get_rules_from_game_type(&GameType::Normal);
    assert_eq!(
        (normal.rolls_per_frame, normal.max_frames, normal.initial_pins, normal.pins_increment_per_frame),
        (2, 10, 10, 0)
    );
    let mars = get_rules_from_game_type(&GameType::Mars);
    assert_eq!(
        (mars.rolls_per_frame, mars.max_frames, mars.initial_pins, mars.pins_increment_per_frame),
        (3, 12, 10, 0)
    );
    let venus = get_rules_from_game_type(&GameType::Venus);
    assert_eq!(
        (venus.rolls_per_frame, venus.max_frames, venus.initial_pins, venus.pins_increment_per_frame),
        (2, 10, 1, 1)
    );
    assert!(normal.is_valid() && mars.is_valid() && venus.is_valid());
}

#[test]
fn rules_need_a_frame_a_roll_and_a_pin() {
    assert_eq!(rules_of(0, 10, 10, 0).is_valid(), false);
    assert_eq!(rules_of(2, 0, 10, 0).is_valid(), false);
    assert_eq!(rules_of(2, 10, 0, 0).is_valid(), false);
    assert_eq!(rules_of(1, 1, 1, 0).is_valid(), true);
    assert_eq!(rules_of(255, 1, 1, 255).is_valid(), true);
}

#[test]
fn pins_of_the_last_frame_must_fit() {
    // 1 + 9 * 28 = 253, 1 + 9 * 29 = 262
    assert_eq!(rules_of(2, 10, 1, 28).is_valid(), true);
    assert_eq!(rules_of(2, 10, 1, 29).is_valid(), false);
    assert_eq!(rules_of(2, 2, 255, 0).is_valid(), true);
    assert_eq!(rules_of(2, 2, 255, 1).is_valid(), false);
    assert_eq!(rules_of(2, 3, 253, 1).is_valid(), true);
    assert_eq!(rules_of(2, 3, 254, 1).is_valid(), false);
    assert_eq!(rules_of(2, 2, 1, 254).is_valid(), true);
    assert_eq!(rules_of(2, 2, 1, 255).is_valid(), false);
}

#[test]
fn perfect_score_must_fit() {
    // all frames at 255 pins: 3 * 255 * 85 = 65025, 3 * 255 * 86 = 65790
    assert_eq!(rules_of(2, 85, 255, 0).is_valid(), true);
    assert_eq!(rules_of(2, 86, 255, 0).is_valid(), false);
    // all frames at 86 pins: 3 * 86 * 254 = 65532, 3 * 86 * 255 = 65790
    assert_eq!(rules_of(1, 254, 86, 0).is_valid(), true);
    assert_eq!(rules_of(1, 255, 86, 0).is_valid(), false);
    // pins 1, 2, .., 255: the perfect score is 3 * (1 + .. + 255) - 1 - 1 - 2 + 3 * 255
    assert_eq!(rules_of(2, 255, 1, 1).is_valid(), false);
    // pins 1, 2, .., 147: 3 * 10878 - 4 + 441 = 33071
    assert_eq!(rules_of(2, 147, 1, 1).is_valid(), true);
}

#[test]
fn new_tracker_is_empty() {
    let tracker = StrikingBonus::new();

    assert_eq!(tracker.striking_rolls_are_over(), true);
    assert_eq!(tracker.has_striking_rolls(), false);
    assert_eq!(tracker.get_striking_rolls_bonus(), 0);
    assert_eq!(first_slot(&tracker), 0);
}

#[test]
fn tracker_counts_two_rolls_for_a_strike() {
    let mut tracker = StrikingBonus::new();

    tracker.increment_striking_rolls_bonus();
    assert_eq!(first_slot(&tracker), 2);
    assert_eq!(tracker.get_striking_rolls_bonus(), 1);
    assert_eq!(tracker.has_striking_rolls(), true);
    assert_eq!(tracker.striking_rolls_are_over(), false);

    tracker.decrement_striking_rolls_bonus();
    assert_eq!(first_slot(&tracker), 1);
    assert_eq!(tracker.get_striking_rolls_bonus(), 1);

    tracker.decrement_striking_rolls_bonus();
    assert_eq!(first_slot(&tracker), 0);
    assert_eq!(tracker.get_striking_rolls_bonus(), 0);
    assert_eq!(tracker.striking_rolls_are_over(), true);

    tracker.decrement_striking_rolls_bonus();
    assert_eq!(first_slot(&tracker), 0);
    assert_eq!(tracker.striking_rolls_are_over(), true);
}

#[test]
fn tracker_holds_two_strikes_and_drops_a_third() {
    let mut tracker = StrikingBonus::new();

    tracker.increment_striking_rolls_bonus();
    tracker.decrement_striking_rolls_bonus();
    tracker.increment_striking_rolls_bonus();
    assert_eq!(first_slot(&tracker), 1);
    assert_eq!(tracker.get_striking_rolls_bonus(), 2);

    tracker.increment_striking_rolls_bonus();
    assert_eq!(first_slot(&tracker), 1);
    assert_eq!(tracker.get_striking_rolls_bonus(), 2);

    tracker.decrement_striking_rolls_bonus();
    assert_eq!(first_slot(&tracker), 0);
    assert_eq!(tracker.get_striking_rolls_bonus(), 1);

    tracker.increment_striking_rolls_bonus();
    assert_eq!(first_slot(&tracker), 2);
    assert_eq!(tracker.get_striking_rolls_bonus(), 2);

    tracker.decrement_striking_rolls_bonus();
    tracker.decrement_striking_rolls_bonus();
    assert_eq!(tracker.striking_rolls_are_over(), true);
}
