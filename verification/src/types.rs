//! The shared vocabulary of the race: players, actions and screens.

use vstd::prelude::*;

pub use crate::word::{Word, WordView};

verus! {

/// A decoded unit of inbound intent.
#[derive(Copy, Clone, Debug, PartialEq, Eq)]
pub enum Action {
    /// The player at a roster index typed a character.
    Input((usize, char)),
    /// A player with the given sort position joined.
    Join(u8),
    /// The player at a roster index left.
    Left(usize),
    /// The countdown has elapsed; the words may move.
    Forward,
}

/// The screen the program is showing.
#[derive(Copy, Clone, Debug, PartialEq, Eq, Structural)]
pub enum Screen {
    Main,
    SinglePlayer,
    MultiPlayer,
    Join,
}

/// One participant of a race.
#[derive(Clone, Debug, PartialEq, Eq)]
pub struct Player {
    /// Orders the players on screen in a shared session.
    pub sort_position: u8,
    /// Index of the word the player is typing.
    pub position: usize,
    /// What the player has typed for the current word.
    pub input: String,
    /// Whether this is the player at this terminal.
    pub current_player: bool,
}

/// The mathematical content of a [`Player`].
pub struct PlayerView {
    pub sort_position: u8,
    pub position: usize,
    pub input: Seq<char>,
    pub current_player: bool,
}

impl View for Player {
    type V = PlayerView;

    open spec fn view(&self) -> PlayerView {
        PlayerView {
            sort_position: self.sort_position,
            position: self.position,
            input: self.input@,
            current_player: self.current_player,
        }
    }
}

impl DeepView for Player {
    type V = PlayerView;

    open spec fn deep_view(&self) -> PlayerView {
        self@
    }
}

impl PlayerView {
    /// A player who has not typed anything and sits at the first word.
    pub open spec fn fresh() -> PlayerView {
        PlayerView { sort_position: 0, position: 0, input: Seq::empty(), current_player: false }
    }
}

impl Default for Player {
    fn default() -> (player: Self)
        ensures
            player@ == PlayerView::fresh(),
    {
        Player { sort_position: 0, position: 0, input: String::new(), current_player: false }
    }
}

/// Everything the program knows between two frames, apart from the
/// connection itself.
#[derive(Clone, Debug, PartialEq, Eq)]
pub struct State {
    /// The width of the terminal.
    pub columns: u16,
    /// The height of the terminal.
    pub rows: u16,
    /// The screen on show.
    pub screen: Screen,
    /// The roster, in ascending order of sort position.
    pub players: Vec<Player>,
    /// The word sequence of the race.
    pub dictionary: Vec<Word>,
    /// When the words last moved, in milliseconds since the program started.
    pub last_instant: u128,
    /// The index of the player at this terminal in the roster.
    pub current_player: usize,
    /// The token of the session in progress.
    pub session_token: Option<u16>,
    /// Whether a connection to the relay stands.
    pub connected: bool,
}

/// The mathematical content of a [`State`].
pub struct StateView {
    pub columns: u16,
    pub rows: u16,
    pub screen: Screen,
    pub players: Seq<PlayerView>,
    pub dictionary: Seq<WordView>,
    pub last_instant: u128,
    pub current_player: usize,
    pub session_token: Option<u16>,
    pub connected: bool,
}

impl View for State {
    type V = StateView;

    open spec fn view(&self) -> StateView {
        StateView {
            columns: self.columns,
            rows: self.rows,
            screen: self.screen,
            players: self.players.deep_view(),
            dictionary: self.dictionary.deep_view(),
            last_instant: self.last_instant,
            current_player: self.current_player,
            session_token: self.session_token,
            connected: self.connected,
        }
    }
}

impl State {
    /// The state of a program that has just started on a terminal of the
    /// given size: the main screen, nobody on the roster, no words.
    pub fn new(columns: u16, rows: u16) -> (state: Self)
        ensures
            state@ == (StateView {
                columns,
                rows,
                screen: Screen::Main,
                players: Seq::empty(),
                dictionary: Seq::empty(),
                last_instant: 0,
                current_player: 0,
                session_token: None,
                connected: false,
            }),
    {
        let state = State {
            columns,
            rows,
            screen: Screen::Main,
            players: Vec::new(),
            dictionary: Vec::new(),
            last_instant: 0,
            current_player: 0,
            session_token: None,
            connected: false,
        };
        assert(state.players.deep_view() =~= Seq::<PlayerView>::empty());
        assert(state.dictionary.deep_view() =~= Seq::<WordView>::empty());
        state
    }
}

} // verus!
