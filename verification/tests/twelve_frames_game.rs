use bowling::game::rules::Rules;
use bowling::game::Game;

#[test]
fn twelve_frames_initial_status_of_game() {
    let mut rules = Rules::new();
    rules.max_frames = 12;

    let game = Game::new(rules);

    assert_eq!(game.score(), 0);
    assert_eq!(game.total_rolls(), 0);
    assert_eq!(game.current_frame(), 1);
    assert_eq!(game.remaining_rolls_in_frame(), 2);
    assert_eq!(*game.frame_scores(), Vec::<u8>::new());
    assert_eq!(game.sparing(), 0);
    assert_eq!(game.striking_rolls().striking_rolls_are_over(), true);
    assert_eq!(game.rules().rolls_per_frame, 2);
    assert_eq!(game.rules().max_frames, 12);
}

#[test]
fn twelve_frames_the_wrost_game() {
    let rolls: Vec<u8> = vec![0; 24];
    let game = play_twelve_frames_game(&rolls);

    assert_eq!(game.score(), 0);
    assert_eq!(game.closed(), true);
}

#[test]
fn twelve_frames_the_wrost_game_but_not_finished_yet() {
    let rolls: Vec<u8> = vec![0; 23];
    let game = play_twelve_frames_game(&rolls);

    assert_eq!(game.closed(), false);
}

#[test]
fn twelve_frames_the_perfect_game() {
    let rolls: Vec<u8> = vec![10; 14];
    let game = play_twelve_frames_game(&rolls);

    assert_eq!(game.score(), 360);
    assert_eq!(game.closed(), true);
}

#[test]
fn twelve_frames_the_almost_perfect_game() {
    let rolls: Vec<u8> = vec![10, 10, 10, 10, 10, 10, 10, 10, 10, 10, 10, 10, 0, 0];
    let game = play_twelve_frames_game(&rolls);

    assert_eq!(game.score(), 330);
    assert_eq!(game.closed(), true);
}

#[test]
fn twelve_frames_a_normal_game() {
    let rolls: Vec<u8> = vec![1; 24];
    let game = play_twelve_frames_game(&rolls);

    assert_eq!(game.score(), 24);
    assert_eq!(game.closed(), true);
}

#[test]
fn twelve_frames_all_spares() {
    let rolls: Vec<u8> = vec![5; 25];
    let game = play_twelve_frames_game(&rolls);

    assert_eq!(game.score(), 180);
    assert_eq!(game.closed(), true);
}

fn play_twelve_frames_game(rolls: &Vec<u8>) -> Game {
    let mut rules = Rules::new();
    rules.max_frames = 12;

    let mut game = Game::new(rules);
    for pins in rolls {
        game.roll(*pins);
    }
    game
}
