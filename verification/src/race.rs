//! The race of one player: judging what was typed against the word in front,
//! moving on to the next word, and moving the words across the screen.
//!
//! A player looks at a window of the word sequence that starts at the
//! player's cursor. Only the first word of the window is typed against. It is
//! over once it was typed in full or has run off the right edge of the
//! screen; either way the player moves on and the input buffer is emptied. A
//! cursor at the end of the sequence means the race is complete.

use vstd::prelude::*;

use crate::types::{Player, PlayerView};
use crate::word::{Word, WordView};

verus! {

/// The number of words a player sees at once.
pub const WINDOW: usize = 4;

/// How a character of the word in front compares with what was typed.
#[derive(Copy, Clone, Debug, PartialEq, Eq, Structural)]
pub enum Mark {
    /// Nothing was typed at this place yet.
    Pending,
    /// The character typed at this place is the word's.
    Correct,
    /// Another character was typed at this place.
    Wrong,
}

/// The mark of the `at`-th character of `word`, given what was typed.
pub open spec fn mark_of(word: Seq<char>, input: Seq<char>, at: int) -> Mark {
    if at >= input.len() {
        Mark::Pending
    } else if input[at] == word[at] {
        Mark::Correct
    } else {
        Mark::Wrong
    }
}

/// The marks of the characters of `word`, one for each.
pub open spec fn marks_of(word: Seq<char>, input: Seq<char>) -> Seq<Mark> {
    Seq::new(word.len(), |at: int| mark_of(word, input, at))
}

/// At how many places of `word` the character typed there is the word's.
pub open spec fn correct_count(word: Seq<char>, input: Seq<char>) -> nat
    decreases word.len(),
{
    if word.len() == 0 {
        0
    } else {
        correct_count(word.drop_last(), input) + if mark_of(word, input, word.len() - 1)
            == Mark::Correct {
            1nat
        } else {
            0nat
        }
    }
}

/// Whether the word was typed in full: the input starts with it.
pub open spec fn is_typed(word: Seq<char>, input: Seq<char>) -> bool {
    word.is_prefix_of(input)
}

/// Whether the word in front is over for a player who typed `input` on a
/// screen `columns` wide: it was typed in full, or it was missed.
pub open spec fn is_over(word: WordView, input: Seq<char>, columns: u16) -> bool {
    is_typed(word.text, input) || word.x >= columns
}

/// Whether the player has no word left.
pub open spec fn race_complete(player: PlayerView, words: Seq<WordView>) -> bool {
    player.position >= words.len()
}

/// The player after a frame: moved on to the next word, with an empty input
/// buffer, where the word in front is over, and unchanged otherwise.
pub open spec fn advanced(player: PlayerView, words: Seq<WordView>, columns: u16) -> PlayerView {
    if !race_complete(player, words) && is_over(
        words[player.position as int],
        player.input,
        columns,
    ) {
        PlayerView { position: (player.position + 1) as usize, input: Seq::empty(), ..player }
    } else {
        player
    }
}

/// How far the word at `offset` in the window moves: the word in front moves
/// `WINDOW` columns, each word behind it one column less.
pub open spec fn stride(offset: int) -> int {
    WINDOW - offset
}

/// The word moved to the right by the stride of its place in the window. A
/// word stops at the largest column there is.
pub open spec fn moved(word: WordView, offset: int) -> WordView {
    WordView {
        x: if word.x + stride(offset) <= u16::MAX {
            (word.x + stride(offset)) as u16
        } else {
            u16::MAX
        },
        ..word
    }
}

/// Whether the word at index `i` is in the window of a player at `cursor`.
pub open spec fn in_window(cursor: usize, i: int) -> bool {
    cursor <= i < cursor + WINDOW
}

/// The words after the window at `cursor` has moved.
pub open spec fn shifted(words: Seq<WordView>, cursor: usize) -> Seq<WordView> {
    Seq::new(
        words.len(),
        |i: int|
            if in_window(cursor, i) {
                moved(words[i], i - cursor)
            } else {
                words[i]
            },
    )
}

/// What is in the buffer after the characters of `keys` were typed into it
/// one after the other.
pub open spec fn typed_out(input: Seq<char>, keys: Seq<char>) -> Seq<char>
    decreases keys.len(),
{
    if keys.len() == 0 {
        input
    } else {
        typed_out(input, keys.drop_last()).push(keys.last())
    }
}

/// Typing appends: the buffer ends with the characters typed, in the order in
/// which they were typed.
pub proof fn typed_out_appends(input: Seq<char>, keys: Seq<char>)
    ensures
        typed_out(input, keys) == input + keys,
    decreases keys.len(),
{
    if keys.len() > 0 {
        typed_out_appends(input, keys.drop_last());
    }
}

/// Every place of a word is marked correct exactly when the word was typed
/// in full.
pub proof fn all_correct_iff_typed(word: Seq<char>, input: Seq<char>)
    ensures
        correct_count(word, input) <= word.len(),
        correct_count(word, input) == word.len() <==> is_typed(word, input),
    decreases word.len(),
{
    if word.len() > 0 {
        let front = word.drop_last();
        all_correct_iff_typed(front, input);
        if is_typed(word, input) {
            assert(front =~= input.subrange(0, front.len() as int));
        }
        if correct_count(word, input) == word.len() {
            assert(word =~= input.subrange(0, word.len() as int));
        }
    }
}

/// Judges what was typed against the word, place by place.
pub fn marks(word: &str, input: &str) -> (out: Vec<Mark>)
    ensures
        out@ == marks_of(word@, input@),
{
    let word_len = word.unicode_len();
    let input_len = input.unicode_len();
    let mut out: Vec<Mark> = Vec::new();
    let mut at: usize = 0;
    while at < word_len
        invariant
            at <= word_len,
            word_len == word@.len(),
            input_len == input@.len(),
            out@ == marks_of(word@, input@).take(at as int),
        decreases word_len - at,
    {
        let mark = if at >= input_len {
            Mark::Pending
        } else if input.get_char(at) == word.get_char(at) {
            Mark::Correct
        } else {
            Mark::Wrong
        };
        out.push(mark);
        at = at + 1;
    }
    out
}

/// Counts the places of `word` at which the character typed is the word's.
pub fn correct_chars(word: &str, input: &str) -> (count: usize)
    ensures
        count == correct_count(word@, input@),
{
    let word_len = word.unicode_len();
    let input_len = input.unicode_len();
    let mut count: usize = 0;
    let mut at: usize = 0;
    while at < word_len
        invariant
            at <= word_len,
            word_len == word@.len(),
            input_len == input@.len(),
            count <= at,
            count == correct_count(word@.take(at as int), input@),
        decreases word_len - at,
    {
        let hit = at < input_len && input.get_char(at) == word.get_char(at);
        assert(word@.take(at + 1).drop_last() =~= word@.take(at as int));
        if hit {
            count = count + 1;
        }
        at = at + 1;
    }
    assert(word@.take(at as int) =~= word@);
    count
}

/// Whether the player has no word left.
pub fn race_is_complete(player: &Player, words: &Vec<Word>) -> (complete: bool)
    ensures
        complete == race_complete(player@, words.deep_view()),
{
    player.position >= words.len()
}

/// Whether the word in front is over for a player who typed `input`.
pub fn word_is_over(word: &Word, input: &str, columns: u16) -> (over: bool)
    ensures
        over == is_over(word@, input@, columns),
{
    proof {
        all_correct_iff_typed(word.value@, input@);
    }
    let typed = correct_chars(word.value.as_str(), input) == word.value.as_str().unicode_len();
    typed || word.x >= columns
}

/// Lets the player move on if the word in front is over. Returns whether the
/// player moved on.
pub fn advance(player: &mut Player, words: &Vec<Word>, columns: u16) -> (moved_on: bool)
    ensures
        final(player)@ == advanced(old(player)@, words.deep_view(), columns),
        moved_on == (!race_complete(old(player)@, words.deep_view()) && is_over(
            words.deep_view()[old(player).position as int],
            old(player).input@,
            columns,
        )),
{
    if player.position < words.len() && word_is_over(
        &words[player.position],
        player.input.as_str(),
        columns,
    ) {
        player.input.clear();
        player.position = player.position + 1;
        true
    } else {
        false
    }
}

/// Moves the words in the window at `cursor` to the right, the word in front
/// the farthest.
pub fn shift_window(words: &mut Vec<Word>, cursor: usize)
    ensures
        final(words).deep_view() == shifted(old(words).deep_view(), cursor),
{
    let ghost start = words.deep_view();
    let mut offset: usize = 0;
    while offset < WINDOW && cursor < words.len() && offset < words.len() - cursor
        invariant
            offset <= WINDOW,
            words.len() == start.len(),
            forall|i: int|
                0 <= i < words.len() ==> (#[trigger] words.deep_view()[i]) == if cursor <= i
                    < cursor + offset {
                    moved(start[i], i - cursor)
                } else {
                    start[i]
                },
        decreases WINDOW - offset,
    {
        let at = cursor + offset;
        let step = (WINDOW - offset) as u16;
        let ghost before = words.deep_view();
        let x = words[at].x;
        words[at].x = if x <= u16::MAX - step {
            x + step
        } else {
            u16::MAX
        };
        assert forall|i: int| 0 <= i < words.len() implies (#[trigger] words.deep_view()[i])
            == if cursor <= i < cursor + offset + 1 {
            moved(start[i], i - cursor)
        } else {
            start[i]
        } by {
            if i != at {
                assert(words.deep_view()[i] == before[i]);
            } else {
                assert(words@[i]@ == moved(before[i], offset as int));
            }
        }
        offset = offset + 1;
    }
}

/// Typing a word letter by letter moves the player on by exactly one word.
/// While the word in front is on screen and only the first `typed` of its
/// letters are in the buffer, a frame leaves the player where it is; once
/// all of them are, a frame puts the player at the next word with an empty
/// buffer.
pub proof fn typing_the_word_advances(
    player: PlayerView,
    words: Seq<WordView>,
    columns: u16,
    typed: int,
)
    requires
        words.len() <= usize::MAX,
        !race_complete(player, words),
        player.input == Seq::<char>::empty(),
        0 <= typed <= words[player.position as int].text.len(),
    ensures
        ({
            let word = words[player.position as int];
            let typist = PlayerView {
                input: typed_out(player.input, word.text.take(typed)),
                ..player
            };
            &&& typed < word.text.len() && word.x < columns ==> advanced(typist, words, columns)
                == typist
            &&& typed == word.text.len() ==> {
                &&& advanced(typist, words, columns).position == player.position + 1
                &&& advanced(typist, words, columns) == (PlayerView {
                    position: (player.position + 1) as usize,
                    input: Seq::empty(),
                    ..player
                })
            }
        }),
{
    let text = words[player.position as int].text;
    typed_out_appends(player.input, text.take(typed));
}

/// A frame never takes a player back and never past more than one word, and
/// it leaves the sort position and the local flag alone. Where the race is
/// complete it changes nothing at all.
pub proof fn frame_moves_forward_only(player: PlayerView, words: Seq<WordView>, columns: u16)
    requires
        words.len() <= usize::MAX,
    ensures
        player.position <= advanced(player, words, columns).position <= player.position + 1,
        advanced(player, words, columns).position <= words.len() || race_complete(player, words),
        advanced(player, words, columns).sort_position == player.sort_position,
        advanced(player, words, columns).current_player == player.current_player,
        race_complete(player, words) ==> advanced(player, words, columns) == player,
{
}

/// Moving a window changes the column of its words and nothing else: the
/// sequence keeps its length, its order, its texts and its rows, and the
/// words outside the window stay where they are.
pub proof fn shifting_keeps_the_words(words: Seq<WordView>, cursor: usize)
    ensures
        shifted(words, cursor).len() == words.len(),
        forall|i: int|
            0 <= i < words.len() ==> {
                &&& (#[trigger] shifted(words, cursor)[i]).text == words[i].text
                &&& shifted(words, cursor)[i].y == words[i].y
                &&& shifted(words, cursor)[i].x >= words[i].x
                &&& !in_window(cursor, i) ==> shifted(words, cursor)[i] == words[i]
            },
{
}

/// A word that reaches the right edge of the screen is over even if nothing
/// was typed: the player moves on by exactly one word.
pub proof fn missed_word_advances(player: PlayerView, words: Seq<WordView>, columns: u16)
    requires
        words.len() <= usize::MAX,
        !race_complete(player, words),
        words[player.position as int].x >= columns,
    ensures
        advanced(player, words, columns).position == player.position + 1,
        advanced(player, words, columns) == (PlayerView {
            position: (player.position + 1) as usize,
            input: Seq::empty(),
            ..player
        }),
{
}

} // verus!
