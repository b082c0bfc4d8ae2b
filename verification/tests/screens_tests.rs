use type_race::screens::{apply_action, loading, multi_player, single_player, MOTION_INTERVAL};
use type_race::types::{Action, Player, Screen, State};
use type_race::word::Word;

fn player(sort_position: u8, position: usize, input: &str, local: bool) -> Player {
    Player { sort_position, position, input: input.to_string(), current_player: local }
}

fn words() -> Vec<Word> {
    vec![
        Word::new("cat", 0, 1),
        Word::new("dog", 10, 2),
        Word::new("bird", 20, 3),
        Word::new("fish", 30, 4),
        Word::new("ant", 40, 5),
        Word::new("owl", 50, 6),
    ]
}

fn xs(state: &State) -> Vec<u16> {
    state.dictionary.iter().map(|w| w.x).collect()
}

fn slots(state: &State) -> Vec<u8> {
    state.players.iter().map(|p| p.sort_position).collect()
}

fn race(players: Vec<Player>, current_player: usize) -> State {
    let mut state = State::new(80, 24);
    state.players = players;
    state.dictionary = words();
    state.current_player = current_player;
    state.screen = Screen::MultiPlayer;
    state
}

#[test]
fn single_player_waits_for_the_interval() {
    assert_eq!(MOTION_INTERVAL, 500);
    let mut state = race(vec![player(0, 0, "", true)], 0);
    single_player(&mut state, 500);
    assert_eq!(xs(&state), vec![0, 10, 20, 30, 40, 50]);
    assert_eq!(state.last_instant, 0);
    single_player(&mut state, 501);
    assert_eq!(xs(&state), vec![4, 13, 22, 31, 40, 50]);
    assert_eq!(state.last_instant, 501);
    single_player(&mut state, 1001);
    assert_eq!(xs(&state), vec![4, 13, 22, 31, 40, 50]);
    assert_eq!(state.last_instant, 501);
    single_player(&mut state, 1002);
    assert_eq!(xs(&state), vec![8, 16, 24, 32, 40, 50]);
    assert_eq!(state.last_instant, 1002);
}

#[test]
fn single_player_clock_going_back_moves_nothing() {
    let mut state = race(vec![player(0, 0, "", true)], 0);
    state.last_instant = 5000;
    single_player(&mut state, 100);
    assert_eq!(xs(&state), vec![0, 10, 20, 30, 40, 50]);
    assert_eq!(state.last_instant, 5000);
}

#[test]
fn single_player_advances_on_a_typed_word() {
    let mut state = race(vec![player(0, 1, "dog", true)], 0);
    single_player(&mut state, 10);
    assert_eq!(state.players, vec![player(0, 2, "", true)]);
    assert_eq!(xs(&state), vec![0, 10, 20, 30, 40, 50]);
}

#[test]
fn single_player_moves_the_window_it_looked_at() {
    let mut state = race(vec![player(0, 1, "dog", true)], 0);
    single_player(&mut state, 900);
    assert_eq!(state.players, vec![player(0, 2, "", true)]);
    assert_eq!(xs(&state), vec![0, 14, 23, 32, 41, 50]);
    assert_eq!(state.last_instant, 900);
}

#[test]
fn single_player_advances_on_a_missed_word() {
    let mut state = race(vec![player(0, 0, "", true)], 0);
    state.dictionary[0].x = 80;
    single_player(&mut state, 0);
    assert_eq!(state.players, vec![player(0, 1, "", true)]);
    let mut state = race(vec![player(0, 0, "", true)], 0);
    state.dictionary[0].x = 79;
    single_player(&mut state, 0);
    assert_eq!(state.players, vec![player(0, 0, "", true)]);
}

#[test]
fn single_player_without_local_player_does_nothing() {
    let mut state = race(vec![player(0, 0, "cat", false)], 1);
    let before = state.clone();
    single_player(&mut state, 9000);
    assert_eq!(state, before);
    let mut state = race(vec![], 0);
    let before = state.clone();
    single_player(&mut state, 9000);
    assert_eq!(state, before);
}

#[test]
fn single_player_at_the_end_of_the_words() {
    let mut state = race(vec![player(0, 6, "x", true)], 0);
    single_player(&mut state, 600);
    assert_eq!(state.players, vec![player(0, 6, "x", true)]);
    assert_eq!(xs(&state), vec![0, 10, 20, 30, 40, 50]);
    assert_eq!(state.last_instant, 600);
}

#[test]
fn join_keeps_the_local_index_when_it_sits_behind() {
    let mut state = race(vec![player(0, 0, "", true), player(2, 0, "", false)], 0);
    apply_action(&mut state, Action::Join(1));
    assert_eq!(slots(&state), vec![0, 1, 2]);
    assert_eq!(state.current_player, 0);
}

#[test]
fn join_moves_the_local_index_when_it_sits_in_front() {
    let mut state = race(vec![player(5, 0, "", true)], 0);
    apply_action(&mut state, Action::Join(1));
    assert_eq!(slots(&state), vec![1, 5]);
    assert_eq!(state.current_player, 1);
    apply_action(&mut state, Action::Join(3));
    assert_eq!(slots(&state), vec![1, 3, 5]);
    assert_eq!(state.current_player, 2);
    apply_action(&mut state, Action::Left(0));
    assert_eq!(slots(&state), vec![3, 5]);
    assert_eq!(state.current_player, 1);
}

#[test]
fn left_out_of_range_is_ignored() {
    let mut state = race(vec![player(5, 0, "", true)], 0);
    let before = state.clone();
    apply_action(&mut state, Action::Left(1));
    assert_eq!(state, before);
    apply_action(&mut state, Action::Forward);
    assert_eq!(state, before);
    apply_action(&mut state, Action::Input((4, 'x')));
    assert_eq!(state, before);
}

#[test]
fn local_index_stays_when_the_local_player_left() {
    let mut state = race(vec![player(1, 0, "", false), player(5, 0, "", true)], 1);
    apply_action(&mut state, Action::Left(1));
    assert_eq!(slots(&state), vec![1]);
    assert_eq!(state.current_player, 1);
}

#[test]
fn multi_player_applies_actions_in_order() {
    let mut state = race(vec![player(0, 0, "", true)], 0);
    let actions = vec![
        Action::Join(1),
        Action::Input((1, 'c')),
        Action::Input((1, 'x')),
        Action::Input((1, '-')),
        Action::Input((1, 'a')),
        Action::Input((0, 'c')),
    ];
    multi_player(&mut state, &actions);
    assert_eq!(state.players, vec![player(0, 0, "c", true), player(1, 0, "ca", false)]);
    assert_eq!(xs(&state), vec![0, 10, 20, 30, 40, 50]);
    multi_player(&mut state, &vec![Action::Input((1, 't'))]);
    assert_eq!(state.players, vec![player(0, 0, "c", true), player(1, 1, "", false)]);
}

#[test]
fn multi_player_moves_each_window_on_forward() {
    let mut state = race(vec![player(0, 0, "", true), player(1, 2, "", false)], 0);
    multi_player(&mut state, &vec![Action::Forward]);
    assert_eq!(xs(&state), vec![4, 13, 26, 34, 42, 51]);
    assert_eq!(state.players, vec![player(0, 0, "", true), player(1, 2, "", false)]);
    multi_player(&mut state, &vec![]);
    assert_eq!(xs(&state), vec![4, 13, 26, 34, 42, 51]);
}

#[test]
fn multi_player_moves_a_shared_window_twice() {
    let mut state = race(vec![player(0, 1, "", true), player(1, 1, "", false)], 0);
    multi_player(&mut state, &vec![Action::Input((0, 'q')), Action::Forward, Action::Forward]);
    assert_eq!(xs(&state), vec![0, 18, 26, 34, 42, 50]);
    assert_eq!(state.players[0].input, "q");
}

#[test]
fn multi_player_later_player_sees_moved_words() {
    let mut state = race(vec![player(0, 0, "", true), player(1, 0, "", false)], 0);
    state.columns = 4;
    state.dictionary[1].x = 0;
    state.dictionary[2].x = 0;
    multi_player(&mut state, &vec![Action::Forward]);
    assert_eq!(state.players, vec![player(0, 0, "", true), player(1, 1, "", false)]);
    assert_eq!(xs(&state), vec![8, 6, 4, 32, 40, 50]);
}

#[test]
fn multi_player_without_players() {
    let mut state = race(vec![], 0);
    multi_player(&mut state, &vec![Action::Forward, Action::Left(0), Action::Input((0, 'x'))]);
    assert!(state.players.is_empty());
    assert_eq!(xs(&state), vec![0, 10, 20, 30, 40, 50]);
}

#[test]
fn loading_takes_joins_and_ignores_input() {
    let mut state = race(vec![player(5, 0, "", true)], 0);
    state.screen = Screen::Join;
    loading(&mut state, &vec![Action::Join(1), Action::Input((0, 'x')), Action::Join(9)]);
    assert_eq!(slots(&state), vec![1, 5, 9]);
    assert_eq!(state.current_player, 1);
    assert_eq!(state.players[0].input, "");
    assert_eq!(state.players[1].input, "");
    assert_eq!(state.screen, Screen::Join);
    loading(&mut state, &vec![Action::Left(0)]);
    assert_eq!(slots(&state), vec![5, 9]);
    assert_eq!(state.current_player, 0);
    assert_eq!(state.screen, Screen::Join);
}

#[test]
fn loading_loses_nothing_behind_the_signal() {
    let mut state = race(vec![player(0, 0, "", true)], 0);
    state.screen = Screen::Join;
    loading(&mut state, &vec![Action::Join(1), Action::Forward, Action::Join(3)]);
    assert_eq!(slots(&state), vec![0, 1, 3]);
    assert_eq!(state.current_player, 0);
    assert_eq!(state.screen, Screen::MultiPlayer);
}

#[test]
fn loading_applies_what_follows_the_signal_as_a_race_does() {
    let mut state = race(vec![player(5, 0, "", true)], 0);
    state.screen = Screen::Join;
    let actions = vec![
        Action::Input((0, 'a')),
        Action::Forward,
        Action::Input((0, 'b')),
        Action::Join(1),
        Action::Input((0, 'c')),
        Action::Forward,
        Action::Left(7),
        Action::Left(0),
    ];
    loading(&mut state, &actions);
    assert_eq!(state.screen, Screen::MultiPlayer);
    assert_eq!(state.players, vec![player(5, 0, "b", true)]);
    assert_eq!(state.current_player, 0);
    assert_eq!(xs(&state), vec![0, 10, 20, 30, 40, 50]);
}

#[test]
fn loading_on_the_signal_alone_opens_the_race() {
    let mut state = race(vec![player(5, 0, "", true)], 0);
    state.screen = Screen::Join;
    loading(&mut state, &vec![Action::Forward]);
    assert_eq!(state.screen, Screen::MultiPlayer);
    assert_eq!(state.players, vec![player(5, 0, "", true)]);
}

#[test]
fn loading_without_actions_changes_nothing() {
    let mut state = race(vec![player(5, 0, "", true)], 0);
    state.screen = Screen::Join;
    let before = state.clone();
    loading(&mut state, &vec![]);
    assert_eq!(state, before);
}
