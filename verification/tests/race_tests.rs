use type_race::race::{
    advance, correct_chars, marks, race_is_complete, shift_window, word_is_over, Mark, WINDOW,
};
use type_race::types::Player;
use type_race::word::Word;

fn typist(position: usize, input: &str) -> Player {
    Player { sort_position: 3, position, input: input.to_string(), current_player: true }
}

fn words() -> Vec<Word> {
    vec![
        Word::new("cat", 0, 1),
        Word::new("dog", 10, 2),
        Word::new("bird", 20, 3),
        Word::new("fish", 30, 4),
        Word::new("ant", 40, 5),
        Word::new("owl", 50, 6),
    ]
}

fn xs(words: &[Word]) -> Vec<u16> {
    words.iter().map(|w| w.x).collect()
}

#[test]
fn correct_chars_counts_matching_places() {
    assert_eq!(correct_chars("cat", ""), 0);
    assert_eq!(correct_chars("cat", "c"), 1);
    assert_eq!(correct_chars("cat", "ca"), 2);
    assert_eq!(correct_chars("cat", "cat"), 3);
    assert_eq!(correct_chars("cat", "cats"), 3);
    assert_eq!(correct_chars("cat", "cxt"), 2);
    assert_eq!(correct_chars("cat", "xat"), 2);
    assert_eq!(correct_chars("cat", "dog"), 0);
    assert_eq!(correct_chars("", "dog"), 0);
    assert_eq!(correct_chars("été", "été"), 3);
    assert_eq!(correct_chars("été", "ete"), 1);
}

#[test]
fn marks_judge_each_place() {
    assert_eq!(marks("cat", ""), vec![Mark::Pending, Mark::Pending, Mark::Pending]);
    assert_eq!(marks("cat", "cx"), vec![Mark::Correct, Mark::Wrong, Mark::Pending]);
    assert_eq!(marks("cat", "catch"), vec![Mark::Correct, Mark::Correct, Mark::Correct]);
    assert_eq!(marks("", "x"), Vec::<Mark>::new());
    assert_eq!(marks("né", "né"), vec![Mark::Correct, Mark::Correct]);
}

#[test]
fn word_is_over_when_typed_or_missed() {
    let word = Word::new("cat", 10, 0);
    assert!(word_is_over(&word, "cat", 80));
    assert!(word_is_over(&word, "cats", 80));
    assert!(!word_is_over(&word, "ca", 80));
    assert!(!word_is_over(&word, "cab", 80));
    assert!(!word_is_over(&word, "", 80));
    assert!(!word_is_over(&word, "", 11));
    assert!(word_is_over(&word, "", 10));
    assert!(word_is_over(&word, "zz", 9));
    assert!(word_is_over(&Word::new("", 0, 0), "", 80));
    assert!(word_is_over(&Word::new("né", 0, 0), "né", 80));
}

#[test]
fn typing_the_word_letter_by_letter_advances_once() {
    let words = words();
    let mut player = typist(1, "");
    for c in "dog".chars() {
        assert!(!advance(&mut player, &words, 80));
        assert_eq!(player.position, 1);
        player.input.push(c);
    }
    assert_eq!(player.input, "dog");
    assert!(advance(&mut player, &words, 80));
    assert_eq!(player, typist(2, ""));
    assert!(!advance(&mut player, &words, 80));
    assert_eq!(player, typist(2, ""));
}

#[test]
fn missed_word_advances_once() {
    let words = words();
    let mut player = typist(2, "");
    assert!(!advance(&mut player, &words, 21));
    assert!(advance(&mut player, &words, 20));
    assert_eq!(player, typist(3, ""));
    let mut player = typist(2, "bi");
    assert!(advance(&mut player, &words, 5));
    assert_eq!(player, typist(3, ""));
}

#[test]
fn wrong_input_stays() {
    let words = words();
    let mut player = typist(0, "cab");
    assert!(!advance(&mut player, &words, 80));
    assert_eq!(player, typist(0, "cab"));
}

#[test]
fn race_complete_is_a_resting_state() {
    let words = words();
    let mut player = typist(5, "owl");
    assert!(advance(&mut player, &words, 80));
    assert_eq!(player, typist(6, ""));
    player.input.push_str("anything");
    assert!(!advance(&mut player, &words, 0));
    assert_eq!(player, typist(6, "anything"));
    let mut far = typist(usize::MAX, "x");
    assert!(!advance(&mut far, &words, 0));
    assert_eq!(far, typist(usize::MAX, "x"));
    let none: Vec<Word> = Vec::new();
    let mut player = typist(0, "");
    assert!(!advance(&mut player, &none, 0));
    assert_eq!(player, typist(0, ""));
}

#[test]
fn window_moves_with_falling_strides() {
    assert_eq!(WINDOW, 4);
    let mut words = words();
    shift_window(&mut words, 1);
    assert_eq!(xs(&words), vec![0, 14, 23, 32, 41, 50]);
    shift_window(&mut words, 0);
    assert_eq!(xs(&words), vec![4, 17, 25, 33, 41, 50]);
    assert_eq!(words[1], Word::new("dog", 17, 2));
}

#[test]
fn window_is_cut_at_the_end_of_the_sequence() {
    let mut words = words();
    shift_window(&mut words, 4);
    assert_eq!(xs(&words), vec![0, 10, 20, 30, 44, 53]);
    shift_window(&mut words, 5);
    assert_eq!(xs(&words), vec![0, 10, 20, 30, 44, 57]);
    shift_window(&mut words, 6);
    shift_window(&mut words, 7);
    shift_window(&mut words, usize::MAX);
    assert_eq!(xs(&words), vec![0, 10, 20, 30, 44, 57]);
    let mut none: Vec<Word> = Vec::new();
    shift_window(&mut none, 0);
    assert!(none.is_empty());
}

#[test]
fn words_stop_at_the_last_column() {
    let mut words = vec![
        Word::new("a", 65535, 0),
        Word::new("b", 65533, 0),
        Word::new("c", 65533, 0),
        Word::new("d", 65534, 0),
    ];
    shift_window(&mut words, 0);
    assert_eq!(xs(&words), vec![65535, 65535, 65535, 65535]);
    let mut words = vec![Word::new("a", 65531, 0), Word::new("b", 65532, 0)];
    shift_window(&mut words, 0);
    assert_eq!(xs(&words), vec![65535, 65535]);
    let mut words = vec![Word::new("a", 65530, 0)];
    shift_window(&mut words, 0);
    assert_eq!(xs(&words), vec![65534]);
}

#[test]
fn race_is_complete_at_the_end_of_the_words() {
    let words = words();
    assert!(!race_is_complete(&typist(0, ""), &words));
    assert!(!race_is_complete(&typist(5, ""), &words));
    assert!(race_is_complete(&typist(6, ""), &words));
    assert!(race_is_complete(&typist(7, "x"), &words));
    assert!(race_is_complete(&typist(0, ""), &Vec::new()));
}

#[test]
fn a_frame_never_goes_back() {
    let words = words();
    for position in 0..8usize {
        for input in ["", "cat", "dog", "bird", "fish", "ant", "owl", "zzz"] {
            for columns in [0u16, 10, 30, 80] {
                let mut player = typist(position, input);
                let moved_on = advance(&mut player, &words, columns);
                assert_eq!(player.sort_position, 3);
                assert!(player.current_player);
                if moved_on {
                    assert_eq!(player.position, position + 1);
                    assert_eq!(player.input, "");
                    assert!(position < words.len());
                } else {
                    assert_eq!(player.position, position);
                    assert_eq!(player.input, input);
                }
            }
        }
    }
}
