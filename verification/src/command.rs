//! What the player types: the choice of a game and the commands of a game.
//!
//! A line is matched with a regular expression of the `regex` crate. What the
//! expression captured is then read by functions that are verified for every
//! text, so that nothing rests on what the expression can capture.

use vstd::prelude::*;
use vstd::string::{StrSliceExecFns, StringExecFns};
use crate::game::rules::Rules;
use crate::text::{
    capture,
    is_prefix,
    lowercased,
    regex_capture,
    same_text,
    starts_with,
    text_of,
    to_lowercase,
    trim,
    trimmed,
};

verus! {

/// The games that can be chosen; `Unknown` stands for a choice that names none.
#[derive(Debug, PartialEq)]
pub enum GameType {
    Unknown,
    Normal,
    Mars,
    Venus,
}

#[derive(Debug, PartialEq)]
pub enum Command {
    Roll { pins: u8 },
    Score,
    Exit,
}

/// Why a line is no command.
#[derive(Debug, PartialEq)]
pub enum CommandError {
    /// The line starts with `roll`, but is not `roll`, whitespace and a pin
    /// count from 0 to 10.
    InvalidPins,
    /// The line is none of `roll`, `score` and `exit`.
    InvalidCommand,
}

impl CommandError {
    pub open spec fn message(self) -> Seq<char> {
        match self {
            CommandError::InvalidPins => "invalid pins"@,
            CommandError::InvalidCommand => "invalid command"@,
        }
    }

    /// The words in which the error is told to the player.
    pub fn to_string(&self) -> (r: String)
        ensures
            r@ == self.message(),
    {
        match self {
            CommandError::InvalidPins => String::from_str("invalid pins"),
            CommandError::InvalidCommand => String::from_str("invalid command"),
        }
    }
}

/// The rules of each game: `Normal` has ten frames of two rolls at ten pins,
/// `Mars` twelve frames of three rolls, and `Venus` one pin in the first frame
/// and one more in each frame after it.
pub open spec fn rules_of(game_type: GameType) -> Rules {
    match game_type {
        GameType::Mars => Rules {
            rolls_per_frame: 3,
            max_frames: 12,
            initial_pins: 10,
            pins_increment_per_frame: 0,
        },
        GameType::Venus => Rules {
            rolls_per_frame: 2,
            max_frames: 10,
            initial_pins: 1,
            pins_increment_per_frame: 1,
        },
        _ => Rules {
            rolls_per_frame: 2,
            max_frames: 10,
            initial_pins: 10,
            pins_increment_per_frame: 0,
        },
    }
}

/// The rules of the game that was chosen.
pub fn get_rules_from_game_type(game_type: &GameType) -> (rules: Rules)
    requires
        !(game_type is Unknown),
    ensures
        rules == rules_of(*game_type),
        rules.valid(),
{
    let mut rules = Rules::new();
    match game_type {
        GameType::Mars => {
            rules.max_frames = 12;
            rules.rolls_per_frame = 3;
        },
        GameType::Venus => {
            rules.initial_pins = 1;
            rules.pins_increment_per_frame = 1;
        },
        _ => {},
    }
    proof {
        lemma_perfect_scores();
    }
    rules
}

/// The perfect scores of the three games: 300, 360 and 191.
pub proof fn lemma_perfect_scores()
    ensures
        rules_of(GameType::Normal).max_score() == 300,
        rules_of(GameType::Mars).max_score() == 360,
        rules_of(GameType::Venus).max_score() == 191,
{
    reveal_with_fuel(Rules::max_score_from, 14);
}

/// The expression that a choice of game is matched with: one of the digits 1,
/// 2 and 3, or nothing, with whitespace around it.
pub open spec fn game_type_pattern() -> Seq<char> {
    "^\\s*(?P<game>([1-3])?)\\s*$"@
}

/// The game that a captured digit names: 1 is `Normal`, 2 is `Mars`, 3 is
/// `Venus`, and anything else, or nothing, is `Unknown`.
pub open spec fn game_type_of(digit: Option<Seq<char>>) -> GameType {
    match digit {
        Some(text) => if text.len() != 1 {
            GameType::Unknown
        } else if text[0] == '1' {
            GameType::Normal
        } else if text[0] == '2' {
            GameType::Mars
        } else if text[0] == '3' {
            GameType::Venus
        } else {
            GameType::Unknown
        },
        None => GameType::Unknown,
    }
}

/// The game that a captured digit names.
pub fn game_type_from_capture(digit: &Option<String>) -> (r: GameType)
    ensures
        r == game_type_of(text_of(*digit)),
{
    match digit {
        Some(text) => {
            if text.as_str().unicode_len() != 1 {
                return GameType::Unknown;
            }
            let c = text.as_str().get_char(0);
            if c == '1' {
                GameType::Normal
            } else if c == '2' {
                GameType::Mars
            } else if c == '3' {
                GameType::Venus
            } else {
                GameType::Unknown
            }
        },
        None => GameType::Unknown,
    }
}

/// The game that the player chose with the line `user_command`.
pub fn translate_game_type(user_command: &str) -> (r: GameType)
    ensures
        r == game_type_of(regex_capture(game_type_pattern(), user_command@, "game"@)),
{
    let digit = capture("^\\s*(?P<game>([1-3])?)\\s*$", user_command, "game");
    game_type_from_capture(&digit)
}

/// The expression that a `roll` command is matched with: the whole line is
/// `roll`, whitespace, and a pin count, which is 10 or one digit.
pub open spec fn roll_pattern() -> Seq<char> {
    "^roll\\s+(?P<pins>(10|[0-9]))\\s*$"@
}

/// The pin count that a text names: `10`, or one digit.
pub open spec fn pins_of(text: Seq<char>) -> Option<u8> {
    if text.len() == 2 && text[0] == '1' && text[1] == '0' {
        Some(10u8)
    } else if text.len() == 1 && '0' <= text[0] <= '9' {
        Some((text[0] as u8 - '0' as u8) as u8)
    } else {
        None
    }
}

/// The command that a line is, given the line with the whitespace around it
/// taken off and in lower case, and the pin count that `roll_pattern` captured
/// in it. A line that starts with `roll` is a roll of the captured pins, and
/// wrong without them; `score` and `exit` are the other two commands.
pub open spec fn command_of(normalized: Seq<char>, pins: Option<Seq<char>>) -> Result<
    Command,
    CommandError,
> {
    if is_prefix("roll"@, normalized) {
        match pins {
            Some(text) => match pins_of(text) {
                Some(pins) => Ok(Command::Roll { pins }),
                None => Err(CommandError::InvalidPins),
            },
            None => Err(CommandError::InvalidPins),
        }
    } else if normalized == "score"@ {
        Ok(Command::Score)
    } else if normalized == "exit"@ {
        Ok(Command::Exit)
    } else {
        Err(CommandError::InvalidCommand)
    }
}

/// The pin count that a text names.
pub fn pins_from_text(text: &str) -> (r: Option<u8>)
    ensures
        r == pins_of(text@),
{
    let length = text.unicode_len();
    if length == 1 {
        let c = text.get_char(0);
        if '0' <= c && c <= '9' {
            Some(c as u8 - '0' as u8)
        } else {
            None
        }
    } else if length == 2 {
        let tens = text.get_char(0);
        let units = text.get_char(1);
        if tens == '1' && units == '0' {
            Some(10)
        } else {
            None
        }
    } else {
        None
    }
}

/// The command that a line is, given the line with the whitespace around it
/// taken off and in lower case, and the pin count that was captured in it.
pub fn command_from_capture(normalized: &str, pins: &Option<String>) -> (r: Result<
    Command,
    CommandError,
>)
    ensures
        r == command_of(normalized@, text_of(*pins)),
{
    if starts_with(normalized, "roll") {
        match pins {
            Some(text) => match pins_from_text(text.as_str()) {
                Some(pins) => Ok(Command::Roll { pins }),
                None => Err(CommandError::InvalidPins),
            },
            None => Err(CommandError::InvalidPins),
        }
    } else if same_text(normalized, "score") {
        Ok(Command::Score)
    } else if same_text(normalized, "exit") {
        Ok(Command::Exit)
    } else {
        Err(CommandError::InvalidCommand)
    }
}

/// The command that the player gave with the line `command`. Upper and lower
/// case are the same, and whitespace around the command does not count.
pub fn translate_command(command: &str) -> (r: Result<Command, CommandError>)
    ensures
        r == ({
            let normalized = lowercased(trimmed(command@));
            command_of(normalized, regex_capture(roll_pattern(), normalized, "pins"@))
        }),
{
    let normalized = to_lowercase(trim(command));
    let pins = if starts_with(normalized.as_str(), "roll") {
        capture("^roll\\s+(?P<pins>(10|[0-9]))\\s*$", normalized.as_str(), "pins")
    } else {
        None
    };
    command_from_capture(normalized.as_str(), &pins)
}

} // verus!
