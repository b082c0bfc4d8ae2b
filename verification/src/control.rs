//! What the program decides when a key is pressed or a session is opened.
//!
//! Reading the keyboard and talking to the relay are left to the caller. A
//! key goes in and a [`Command`] comes out that says what, if anything, has
//! to be done outside; when a session has been opened, the caller reports
//! back with the token and the word sequence of the race is built from it.

use vstd::prelude::*;

use crate::roster::BACKSPACE;
use crate::sequence::{
    generate,
    generate_from,
    is_generated,
    is_rearrangement,
    on_screen,
    word_sequence,
    EmptyDictionary,
};
use crate::types::{Player, PlayerView, Screen, State, StateView};
use crate::wire::{byte_of, input_byte};

verus! {

/// A key as the program tells keys apart.
#[derive(Copy, Clone, Debug, PartialEq, Eq)]
pub enum Key {
    /// A character, typed without a modifier.
    Char(char),
    Enter,
    Backspace,
    Esc,
    /// A function key, by its number.
    F(u8),
}

/// Why a key press could not be followed.
#[derive(Copy, Clone, Debug, PartialEq, Eq, Structural)]
pub enum Fault {
    /// There are no words to race on.
    EmptyDictionary,
    /// What was typed as a session code is not one.
    BadToken,
}

impl Fault {
    /// The sentence that tells the user of the fault.
    pub open spec fn sentence(self) -> Seq<char> {
        match self {
            Fault::EmptyDictionary => "The dictionary is empty."@,
            Fault::BadToken => "The session code is a number from 0 to 65535."@,
        }
    }

    /// A sentence for the user.
    pub fn message(&self) -> (out: String)
        ensures
            out@ == self.sentence(),
    {
        match self {
            Fault::EmptyDictionary => "The dictionary is empty.".to_owned(),
            Fault::BadToken => "The session code is a number from 0 to 65535.".to_owned(),
        }
    }
}

/// What is left for the caller to do after a key press.
#[derive(Copy, Clone, Debug, PartialEq, Eq)]
pub enum Command {
    /// Nothing.
    Nothing,
    /// Send the byte to the relay.
    Send(u8),
    /// Connect to the relay and ask it for a new session.
    CreateSession,
    /// Connect to the relay and join the session with the token.
    JoinSession(u16),
    /// Leave the program.
    Quit,
    /// Tell the user what went wrong.
    Report(Fault),
}

/// Whether `c` is a decimal digit.
pub open spec fn is_digit(c: char) -> bool {
    '0' <= c <= '9'
}

/// The number that the decimal digits stand for.
pub open spec fn digits_value(digits: Seq<char>) -> nat
    decreases digits.len(),
{
    if digits.len() == 0 {
        0
    } else {
        digits_value(digits.drop_last()) * 10 + (digits.last() as u32 - '0' as u32) as nat
    }
}

/// The text of a session code without the plus sign that may lead it.
pub open spec fn code_digits(text: Seq<char>) -> Seq<char> {
    if text.len() > 0 && text[0] == '+' {
        text.drop_first()
    } else {
        text
    }
}

/// The token that the text of a session code stands for: a decimal number of
/// at least one digit, with or without a leading plus sign, that is at most
/// 65535.
pub open spec fn token_of_text(text: Seq<char>) -> Option<u16> {
    let digits = code_digits(text);
    if digits.len() > 0 && (forall|i: int| 0 <= i < digits.len() ==> is_digit(#[trigger] digits[i]))
        && digits_value(digits) <= u16::MAX {
        Some(digits_value(digits) as u16)
    } else {
        None
    }
}

/// The player that a program has on its roster before anyone else joins.
pub open spec fn host() -> PlayerView {
    PlayerView { current_player: true, ..PlayerView::fresh() }
}

/// The state with the session forgotten and the roster back to the local
/// player alone.
pub open spec fn reset(s: StateView) -> StateView {
    StateView {
        connected: false,
        session_token: None,
        current_player: 0,
        players: seq![host()],
        ..s
    }
}

/// Whether the roster has a player at the index of the local player.
pub open spec fn has_local(s: StateView) -> bool {
    s.current_player < s.players.len()
}

/// The state with the input buffer of the local player replaced.
pub open spec fn with_local_input(s: StateView, input: Seq<char>) -> StateView {
    StateView {
        players: s.players.update(
            s.current_player as int,
            PlayerView { input, ..s.players[s.current_player as int] },
        ),
        ..s
    }
}

/// What is to be sent when the local player has pressed a key that the
/// others have to learn of: the byte, if a connection stands.
pub open spec fn forwarded(s: StateView, byte: u8) -> Command {
    if s.connected {
        Command::Send(byte)
    } else {
        Command::Nothing
    }
}

/// Whether the key makes the program start over: these are the keys that
/// are followed from a reset state, with the session forgotten.
pub open spec fn is_fresh_start(key: Key) -> bool {
    key == Key::F(1) || key == Key::F(2) || key == Key::F(3)
}

/// Whether `t` and `command` are what a key leaves behind in state `s`, for
/// a program whose words are those of `lexicon`.
///
/// A character lands in the buffer of the local player and a backspace
/// takes the last one out of it; both are forwarded. Enter, on the join
/// screen, reads the buffer as a session code. Escape leads back to the main
/// screen and, from there, out of the program. F1 starts a race alone, on a
/// word sequence of the process's own; F2 asks for a new session; F3 opens
/// the join screen; all three start from a reset state. Any other key does
/// nothing.
pub open spec fn key_handled(
    s: StateView,
    key: Key,
    lexicon: Seq<Seq<char>>,
    t: StateView,
    command: Command,
) -> bool {
    match key {
        Key::Char(c) => if has_local(s) {
            &&& t == with_local_input(s, s.players[s.current_player as int].input.push(c))
            &&& command == forwarded(s, byte_of(c))
        } else {
            t == s && command == Command::Nothing
        },
        Key::Backspace => if has_local(s) {
            let input = s.players[s.current_player as int].input;
            &&& t == with_local_input(
                s,
                if input.len() > 0 {
                    input.drop_last()
                } else {
                    input
                },
            )
            &&& command == forwarded(s, byte_of(BACKSPACE))
        } else {
            t == s && command == Command::Nothing
        },
        Key::Enter => {
            &&& t == s
            &&& command == if s.screen == Screen::Join && has_local(s) {
                match token_of_text(s.players[s.current_player as int].input) {
                    Some(token) => Command::JoinSession(token),
                    None => Command::Report(Fault::BadToken),
                }
            } else {
                Command::Nothing
            }
        },
        Key::Esc => if s.screen == Screen::Main {
            t == s && command == Command::Quit
        } else {
            t == (StateView { screen: Screen::Main, ..s }) && command == Command::Nothing
        },
        Key::F(1) => if lexicon.len() == 0 {
            t == reset(s) && command == Command::Report(Fault::EmptyDictionary)
        } else {
            &&& is_generated(lexicon, None, s.rows, t.dictionary)
            &&& is_rearrangement(lexicon, t.dictionary)
            &&& on_screen(t.dictionary, s.rows)
            &&& t == (StateView {
                dictionary: t.dictionary,
                screen: Screen::SinglePlayer,
                ..reset(s)
            })
            &&& command == Command::Nothing
        },
        Key::F(2) => t == reset(s) && command == Command::CreateSession,
        Key::F(3) => t == (StateView { screen: Screen::Join, ..reset(s) }) && command
            == Command::Nothing,
        Key::F(_) => t == s && command == Command::Nothing,
    }
}

/// The state once the relay has opened a session with the token: the race
/// is on, over the word sequence that the token stands for.
pub open spec fn in_session(s: StateView, token: u16, lexicon: Seq<Seq<char>>) -> StateView {
    StateView {
        session_token: Some(token),
        connected: true,
        dictionary: word_sequence(lexicon, token as u64, s.rows),
        screen: Screen::MultiPlayer,
        ..s
    }
}

/// The state with the sort position of the local player replaced; without
/// a local player, the state.
pub open spec fn with_local_slot(s: StateView, sort_position: u8) -> StateView {
    if has_local(s) {
        StateView {
            players: s.players.update(
                s.current_player as int,
                PlayerView { sort_position, ..s.players[s.current_player as int] },
            ),
            ..s
        }
    } else {
        s
    }
}

/// The number that a prefix of the digits stands for is at most the number
/// that all of them stand for.
pub proof fn digits_value_grows(digits: Seq<char>, k: int)
    requires
        0 <= k <= digits.len(),
        forall|i: int| 0 <= i < digits.len() ==> is_digit(#[trigger] digits[i]),
    ensures
        digits_value(digits.take(k)) <= digits_value(digits),
    decreases digits.len() - k,
{
    if k < digits.len() {
        assert(digits.take(k + 1).drop_last() =~= digits.take(k));
        digits_value_grows(digits, k + 1);
    } else {
        assert(digits.take(k) =~= digits);
    }
}

/// Reads the text of a session code.
pub fn parse_token(text: &str) -> (token: Option<u16>)
    ensures
        token == token_of_text(text@),
{
    let len = text.unicode_len();
    let start: usize = if len > 0 && text.get_char(0) == '+' {
        1
    } else {
        0
    };
    let ghost digits = code_digits(text@);
    if start == len {
        return None;
    }
    let mut value: u32 = 0;
    let mut i: usize = start;
    while i < len
        invariant
            start <= i <= len,
            len == text@.len(),
            start <= 1,
            digits == code_digits(text@),
            digits.len() == len - start,
            forall|k: int| 0 <= k < digits.len() ==> digits[k] == text@[k + start],
            forall|k: int| 0 <= k < i - start ==> is_digit(#[trigger] digits[k]),
            value == digits_value(digits.take(i - start)),
            value <= u16::MAX,
        decreases len - i,
    {
        let c = text.get_char(i);
        if !('0' <= c && c <= '9') {
            assert(!is_digit(digits[i - start]));
            return None;
        }
        let digit = c as u32 - '0' as u32;
        assert(digits.take(i - start + 1).drop_last() =~= digits.take(i - start));
        value = value * 10 + digit;
        if value > 65535 {
            proof {
                if forall|k: int| 0 <= k < digits.len() ==> is_digit(#[trigger] digits[k]) {
                    digits_value_grows(digits, i - start + 1);
                }
            }
            return None;
        }
        i = i + 1;
    }
    assert(digits.take(i - start) =~= digits);
    Some(value as u16)
}

/// Forgets the session and puts the local player alone on the roster.
pub fn reset_state(state: &mut State)
    ensures
        final(state)@ == reset(old(state)@),
{
    state.connected = false;
    state.session_token = None;
    state.current_player = 0;
    state.players.clear();
    let mut player = Player::default();
    player.current_player = true;
    state.players.push(player);
    assert(state.players.deep_view() =~= seq![host()]);
}

/// Whether the key makes the program start over, so that whatever the caller
/// keeps of the last session, a connection or an error on show, is to go.
pub fn starts_over(key: Key) -> (fresh: bool)
    ensures
        fresh == is_fresh_start(key),
{
    match key {
        Key::F(n) => 1 <= n && n <= 3,
        _ => false,
    }
}

/// Follows a key press, for a program whose words are those of `lexicon`,
/// and says what is left for the caller to do.
pub fn handle_key(state: &mut State, key: Key, lexicon: &Vec<String>) -> (command: Command)
    ensures
        key_handled(old(state)@, key, lexicon.deep_view(), final(state)@, command),
        is_fresh_start(key) ==> !final(state).connected && final(state).session_token is None
            && final(state)@.players == reset(old(state)@).players,
{
    match key {
        Key::Char(c) => {
            if state.current_player < state.players.len() {
                state.players[state.current_player].input.push(c);
                assert(state@.players =~= with_local_input(
                    old(state)@,
                    old(state)@.players[state.current_player as int].input.push(c),
                ).players);
                forward(state.connected, input_byte(c))
            } else {
                Command::Nothing
            }
        },
        Key::Backspace => {
            if state.current_player < state.players.len() {
                let _ = state.players[state.current_player].input.pop();
                let ghost input = old(state)@.players[state.current_player as int].input;
                assert(state@.players =~= with_local_input(
                    old(state)@,
                    if input.len() > 0 {
                        input.drop_last()
                    } else {
                        input
                    },
                ).players);
                forward(state.connected, input_byte(BACKSPACE))
            } else {
                Command::Nothing
            }
        },
        Key::Enter => {
            if state.screen == Screen::Join && state.current_player < state.players.len() {
                match parse_token(state.players[state.current_player].input.as_str()) {
                    Some(token) => Command::JoinSession(token),
                    None => Command::Report(Fault::BadToken),
                }
            } else {
                Command::Nothing
            }
        },
        Key::Esc => {
            if state.screen == Screen::Main {
                Command::Quit
            } else {
                state.screen = Screen::Main;
                Command::Nothing
            }
        },
        Key::F(1) => {
            reset_state(state);
            match generate(lexicon, None, state.rows) {
                Ok(words) => {
                    state.dictionary = words;
                    state.screen = Screen::SinglePlayer;
                    Command::Nothing
                },
                Err(_) => Command::Report(Fault::EmptyDictionary),
            }
        },
        Key::F(2) => {
            reset_state(state);
            Command::CreateSession
        },
        Key::F(3) => {
            reset_state(state);
            state.screen = Screen::Join;
            Command::Nothing
        },
        Key::F(_) => Command::Nothing,
    }
}

/// The command that forwards a byte if a connection stands.
fn forward(connected: bool, byte: u8) -> (command: Command)
    ensures
        command == if connected {
            Command::Send(byte)
        } else {
            Command::Nothing
        },
{
    if connected {
        Command::Send(byte)
    } else {
        Command::Nothing
    }
}

/// Starts the race of a session that the relay has just created with the
/// given token. Without words there is no race, and the state stays as it is.
pub fn session_created(state: &mut State, token: u16, lexicon: &Vec<String>) -> (result: Result<
    (),
    EmptyDictionary,
>)
    ensures
        lexicon.len() == 0 <==> result is Err,
        result is Err ==> final(state)@ == old(state)@,
        result is Ok ==> final(state)@ == in_session(old(state)@, token, lexicon.deep_view()),
        result is Ok ==> is_rearrangement(lexicon.deep_view(), final(state)@.dictionary),
        result is Ok ==> on_screen(final(state)@.dictionary, old(state).rows),
{
    match generate_from(lexicon, token as u64, state.rows) {
        Ok(words) => {
            state.dictionary = words;
            state.session_token = Some(token);
            state.connected = true;
            state.screen = Screen::MultiPlayer;
            Ok(())
        },
        Err(e) => Err(e),
    }
}

/// Starts the race of a session that the local player has just joined with
/// the given token, on the sort position that the relay assigned. Without
/// words there is no race, and the state stays as it is.
pub fn session_joined(
    state: &mut State,
    token: u16,
    sort_position: u8,
    lexicon: &Vec<String>,
) -> (result: Result<(), EmptyDictionary>)
    ensures
        lexicon.len() == 0 <==> result is Err,
        result is Err ==> final(state)@ == old(state)@,
        result is Ok ==> final(state)@ == in_session(
            with_local_slot(old(state)@, sort_position),
            token,
            lexicon.deep_view(),
        ),
        result is Ok ==> is_rearrangement(lexicon.deep_view(), final(state)@.dictionary),
        result is Ok ==> on_screen(final(state)@.dictionary, old(state).rows),
{
    match generate_from(lexicon, token as u64, state.rows) {
        Ok(words) => {
            if state.current_player < state.players.len() {
                state.players[state.current_player].sort_position = sort_position;
                assert(state@.players =~= with_local_slot(old(state)@, sort_position).players);
            }
            state.dictionary = words;
            state.session_token = Some(token);
            state.connected = true;
            state.screen = Screen::MultiPlayer;
            Ok(())
        },
        Err(e) => Err(e),
    }
}

} // verus!
