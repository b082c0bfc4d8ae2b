use type_race::roster::{
    apply_input, apply_join, apply_left, find_local, sort_players, BACKSPACE,
};
use type_race::types::Player;

fn player(sort_position: u8, local: bool) -> Player {
    Player { sort_position, position: 0, input: String::new(), current_player: local }
}

fn named(sort_position: u8, input: &str) -> Player {
    Player { sort_position, position: 0, input: input.to_string(), current_player: false }
}

fn newcomer(slot: u8) -> Player {
    let mut p = Player::default();
    p.sort_position = slot;
    p
}

fn slots(players: &[Player]) -> Vec<u8> {
    players.iter().map(|p| p.sort_position).collect()
}

#[test]
fn join_between_two_players() {
    let mut players = vec![player(0, true), player(2, false)];
    apply_join(&mut players, 1);
    assert_eq!(slots(&players), vec![0, 1, 2]);
    assert_eq!(find_local(&players, 0), 0);
    assert_eq!(players[1], newcomer(1));
}

#[test]
fn join_before_the_local_player_moves_its_index() {
    let mut players = vec![player(5, true)];
    assert_eq!(find_local(&players, 0), 0);
    apply_join(&mut players, 1);
    assert_eq!(slots(&players), vec![1, 5]);
    assert_eq!(find_local(&players, 0), 1);
    assert!(players[1].current_player);
    assert!(!players[0].current_player);
}

#[test]
fn join_then_left_restores_the_roster() {
    let start = vec![named(0, "a"), named(2, "b"), named(2, "c"), named(9, "d")];
    for (slot, seat) in [(0u8, 1usize), (1, 1), (2, 3), (5, 3), (9, 4), (255, 4)] {
        let mut players = start.clone();
        apply_join(&mut players, slot);
        assert_eq!(players.len(), 5);
        assert_eq!(players[seat], newcomer(slot));
        apply_left(&mut players, seat);
        assert_eq!(players, start);
    }
}

#[test]
fn join_into_an_empty_roster() {
    let mut players: Vec<Player> = Vec::new();
    apply_join(&mut players, 7);
    assert_eq!(players, vec![newcomer(7)]);
}

#[test]
fn equal_slots_keep_their_order() {
    let mut players = vec![named(3, "x"), named(1, "y"), named(3, "z"), named(1, "w")];
    sort_players(&mut players);
    assert_eq!(players, vec![named(1, "y"), named(1, "w"), named(3, "x"), named(3, "z")]);
}

#[test]
fn sorting_handles_any_order() {
    let mut players = vec![named(9, "a"), named(8, "b"), named(7, "c"), named(0, "d"), named(8, "e")];
    sort_players(&mut players);
    assert_eq!(slots(&players), vec![0, 7, 8, 8, 9]);
    assert_eq!(players[2].input, "b");
    assert_eq!(players[3].input, "e");
    let mut none: Vec<Player> = Vec::new();
    sort_players(&mut none);
    assert!(none.is_empty());
    let mut sorted = vec![named(1, "a"), named(2, "b")];
    sort_players(&mut sorted);
    assert_eq!(sorted, vec![named(1, "a"), named(2, "b")]);
}

#[test]
fn newcomer_sits_behind_its_equals() {
    let mut players = vec![named(1, "a"), named(1, "b")];
    apply_join(&mut players, 1);
    assert_eq!(players, vec![named(1, "a"), named(1, "b"), named(1, "")]);
}

#[test]
fn left_removes_by_index() {
    let mut players = vec![named(0, "a"), named(1, "b"), named(2, "c")];
    apply_left(&mut players, 1);
    assert_eq!(players, vec![named(0, "a"), named(2, "c")]);
    apply_left(&mut players, 0);
    assert_eq!(players, vec![named(2, "c")]);
}

#[test]
fn left_out_of_range_changes_nothing() {
    let mut players = vec![named(2, "a"), named(1, "b")];
    apply_left(&mut players, 2);
    assert_eq!(players, vec![named(2, "a"), named(1, "b")]);
    apply_left(&mut players, usize::MAX);
    assert_eq!(players, vec![named(2, "a"), named(1, "b")]);
    let mut none: Vec<Player> = Vec::new();
    apply_left(&mut none, 0);
    assert!(none.is_empty());
}

#[test]
fn left_puts_the_rest_in_order() {
    let mut players = vec![named(2, "a"), named(1, "b"), named(0, "c")];
    apply_left(&mut players, 0);
    assert_eq!(players, vec![named(0, "c"), named(1, "b")]);
}

#[test]
fn input_appends_to_the_named_player() {
    let mut players = vec![named(0, "a"), named(1, "b")];
    apply_input(&mut players, 1, 'x');
    apply_input(&mut players, 1, 'y');
    apply_input(&mut players, 0, 'é');
    assert_eq!(players, vec![named(0, "aé"), named(1, "bxy")]);
}

#[test]
fn backspace_takes_the_last_character() {
    assert_eq!(BACKSPACE, '-');
    let mut players = vec![named(0, "abé")];
    apply_input(&mut players, 0, '-');
    assert_eq!(players[0].input, "ab");
    apply_input(&mut players, 0, '-');
    apply_input(&mut players, 0, '-');
    assert_eq!(players[0].input, "");
    apply_input(&mut players, 0, '-');
    assert_eq!(players[0].input, "");
}

#[test]
fn input_out_of_range_changes_nothing() {
    let mut players = vec![named(0, "a")];
    apply_input(&mut players, 1, 'x');
    apply_input(&mut players, 7, '-');
    assert_eq!(players, vec![named(0, "a")]);
}

#[test]
fn find_local_takes_the_first_flagged() {
    let players = vec![player(0, false), player(1, true), player(2, true)];
    assert_eq!(find_local(&players, 9), 1);
    let nobody = vec![player(0, false), player(1, false)];
    assert_eq!(find_local(&nobody, 9), 9);
    let none: Vec<Player> = Vec::new();
    assert_eq!(find_local(&none, 3), 3);
}

#[test]
fn sorting_agrees_with_a_stable_sort() {
    let mut seed: u32 = 12345;
    for round in 0..200usize {
        let mut players: Vec<Player> = Vec::new();
        for k in 0..(round % 9) {
            seed = seed.wrapping_mul(1664525).wrapping_add(1013904223);
            players.push(named((seed >> 24) as u8 % 4, &k.to_string()));
        }
        let mut want = players.clone();
        want.sort_by_key(|p| p.sort_position);
        sort_players(&mut players);
        assert_eq!(players, want);
    }
}
