//! What a frame does to the state on each screen of a race.
//!
//! Drawing is left to the caller: these functions take the state before the
//! frame, together with what happened since the last one, and leave the
//! state that the frame shows.

use vstd::prelude::*;

use crate::race::{advance, advanced, shift_window, shifted};
use crate::roster::{
    apply_input,
    apply_join,
    apply_left,
    departed,
    find_local,
    in_order,
    joined,
    local_index,
    newcomer,
    ordered_is_in_order,
    typed,
};
use crate::types::{Action, Screen, State, StateView};
use crate::word::WordView;

verus! {

/// The words of a single-player race move when more than this many
/// milliseconds have passed since they last moved.
pub const MOTION_INTERVAL: u128 = 500;

/// Whether the words of a single-player race are due to move.
pub open spec fn motion_due(elapsed: u128, last: u128) -> bool {
    elapsed - last > MOTION_INTERVAL
}

/// The state after the action was applied to the roster. A join or a
/// departure puts the roster in order again and finds the local player anew;
/// an input lands in the buffer of the player it names. An index that names
/// nobody changes nothing, and neither does the signal to go forward.
pub open spec fn after_action(s: StateView, action: Action) -> StateView {
    match action {
        Action::Join(sort_position) => {
            let players = joined(s.players, sort_position);
            StateView { players, current_player: local_index(players, s.current_player), ..s }
        },
        Action::Left(index) => {
            if index < s.players.len() {
                let players = departed(s.players, index);
                StateView { players, current_player: local_index(players, s.current_player), ..s }
            } else {
                s
            }
        },
        Action::Input((index, c)) => StateView { players: typed(s.players, index, c), ..s },
        Action::Forward => s,
    }
}

/// The state after the actions were applied to the roster, the first of them
/// first.
pub open spec fn after_actions(s: StateView, actions: Seq<Action>) -> StateView
    decreases actions.len(),
{
    if actions.len() == 0 {
        s
    } else {
        after_action(after_actions(s, actions.drop_last()), actions.last())
    }
}

/// Whether the signal to go forward is among the actions.
pub open spec fn forward_seen(actions: Seq<Action>) -> bool {
    exists|i: int| 0 <= i < actions.len() && actions[i] == Action::Forward
}

/// The state after the first `count` players had their turn in a frame. In
/// its turn a player moves on if the word in front is over; where the words
/// go forward, the window that the player looked at moves.
pub open spec fn raced(s: StateView, forward: bool, count: nat) -> StateView
    decreases count,
{
    if count == 0 {
        s
    } else {
        let t = raced(s, forward, (count - 1) as nat);
        if count > t.players.len() {
            t
        } else {
            let player = t.players[count - 1];
            StateView {
                players: t.players.update(count - 1, advanced(player, t.dictionary, t.columns)),
                dictionary: if forward {
                    shifted(t.dictionary, player.position)
                } else {
                    t.dictionary
                },
                ..t
            }
        }
    }
}

/// The state after a frame of a single-player race, `elapsed` milliseconds
/// into the program: the local player has had a turn; if the words were due
/// to move, they have, and the time was noted. Without a local player
/// nothing happens.
pub open spec fn single_player_frame(s: StateView, elapsed: u128) -> StateView {
    if s.current_player >= s.players.len() {
        s
    } else {
        let player = s.players[s.current_player as int];
        let due = motion_due(elapsed, s.last_instant);
        StateView {
            players: s.players.update(
                s.current_player as int,
                advanced(player, s.dictionary, s.columns),
            ),
            dictionary: if due {
                shifted(s.dictionary, player.position)
            } else {
                s.dictionary
            },
            last_instant: if due {
                elapsed
            } else {
                s.last_instant
            },
            ..s
        }
    }
}

/// The state after a frame of a shared race in which the actions arrived:
/// the actions were applied to the roster, then every player had a turn, and
/// the words went forward if the signal was among the actions.
pub open spec fn multi_player_frame(s: StateView, actions: Seq<Action>) -> StateView {
    let t = after_actions(s, actions);
    raced(t, forward_seen(actions), t.players.len())
}

/// The state after a frame of the wait for the race to begin. Up to the
/// signal to go forward, joins and departures are applied and what players
/// type is ignored. The signal opens the race; every action behind it is
/// applied as in a race, so that none of the frame's actions is lost.
pub open spec fn loading_frame(s: StateView, actions: Seq<Action>) -> StateView
    decreases actions.len(),
{
    if actions.len() == 0 {
        s
    } else {
        match actions.first() {
            Action::Forward => after_actions(
                StateView { screen: Screen::MultiPlayer, ..s },
                actions.drop_first(),
            ),
            Action::Input(_) => loading_frame(s, actions.drop_first()),
            _ => loading_frame(after_action(s, actions.first()), actions.drop_first()),
        }
    }
}

/// Whether two sequences hold the same words in the same order and on the
/// same rows; the columns may differ.
pub open spec fn same_words(a: Seq<WordView>, b: Seq<WordView>) -> bool {
    &&& a.len() == b.len()
    &&& forall|i: int| 0 <= i < a.len() ==> (#[trigger] a[i]).text == b[i].text && a[i].y == b[i].y
}

/// Actions leave a roster that is in order in order, and they touch nothing
/// but the roster and the index of the local player.
pub proof fn actions_keep_the_roster_in_order(s: StateView, actions: Seq<Action>)
    requires
        in_order(s.players),
    ensures
        in_order(after_actions(s, actions).players),
        after_actions(s, actions) == (StateView {
            players: after_actions(s, actions).players,
            current_player: after_actions(s, actions).current_player,
            ..s
        }),
    decreases actions.len(),
{
    if actions.len() > 0 {
        actions_keep_the_roster_in_order(s, actions.drop_last());
        let t = after_actions(s, actions.drop_last());
        match actions.last() {
            Action::Join(sort_position) => {
                ordered_is_in_order(t.players.push(newcomer(sort_position)));
            },
            Action::Left(index) => {
                if index < t.players.len() {
                    ordered_is_in_order(t.players.remove(index as int));
                }
            },
            _ => {},
        }
    }
}

/// The turns of the players never reshuffle the words: the sequence keeps
/// its words, their order and their rows, and the roster keeps its size and
/// the sort position of every player.
pub proof fn turns_keep_the_sequence(s: StateView, forward: bool, count: nat)
    ensures
        same_words(raced(s, forward, count).dictionary, s.dictionary),
        raced(s, forward, count).players.len() == s.players.len(),
        forall|i: int|
            0 <= i < s.players.len() ==> (#[trigger] raced(s, forward, count).players[i]).sort_position
                == s.players[i].sort_position,
        raced(s, forward, count) == (StateView {
            players: raced(s, forward, count).players,
            dictionary: raced(s, forward, count).dictionary,
            ..s
        }),
    decreases count,
{
    if count > 0 {
        turns_keep_the_sequence(s, forward, (count - 1) as nat);
    }
}

/// A frame of a shared race never reshuffles the words, whatever arrived.
pub proof fn frame_keeps_the_sequence(s: StateView, actions: Seq<Action>)
    requires
        in_order(s.players),
    ensures
        same_words(multi_player_frame(s, actions).dictionary, s.dictionary),
        in_order(multi_player_frame(s, actions).players),
{
    actions_keep_the_roster_in_order(s, actions);
    let t = after_actions(s, actions);
    turns_keep_the_sequence(t, forward_seen(actions), t.players.len());
}

/// Applies an action to the roster.
pub fn apply_action(state: &mut State, action: Action)
    ensures
        final(state)@ == after_action(old(state)@, action),
{
    match action {
        Action::Join(sort_position) => {
            apply_join(&mut state.players, sort_position);
            state.current_player = find_local(&state.players, state.current_player);
        },
        Action::Left(index) => {
            if index < state.players.len() {
                apply_left(&mut state.players, index);
                state.current_player = find_local(&state.players, state.current_player);
            }
        },
        Action::Input((index, c)) => {
            apply_input(&mut state.players, index, c);
        },
        Action::Forward => {},
    }
}

/// Runs a frame of a single-player race, `elapsed_millis` milliseconds into
/// the program.
pub fn single_player(state: &mut State, elapsed_millis: u128)
    ensures
        final(state)@ == single_player_frame(old(state)@, elapsed_millis),
{
    if state.current_player >= state.players.len() {
        return ;
    }
    let cursor = state.players[state.current_player].position;
    let due = elapsed_millis > state.last_instant && elapsed_millis - state.last_instant
        > MOTION_INTERVAL;
    let _ = advance(&mut state.players[state.current_player], &state.dictionary, state.columns);
    if due {
        shift_window(&mut state.dictionary, cursor);
        state.last_instant = elapsed_millis;
    }
    assert(state.players.deep_view() =~= old(state).players.deep_view().update(
        state.current_player as int,
        advanced(
            old(state).players.deep_view()[state.current_player as int],
            old(state).dictionary.deep_view(),
            state.columns,
        ),
    ));
}

/// Runs a frame of a shared race in which the actions arrived.
pub fn multi_player(state: &mut State, actions: &Vec<Action>)
    ensures
        final(state)@ == multi_player_frame(old(state)@, actions@),
{
    let mut forward = false;
    let mut i: usize = 0;
    while i < actions.len()
        invariant
            i <= actions.len(),
            state@ == after_actions(old(state)@, actions@.take(i as int)),
            forward == forward_seen(actions@.take(i as int)),
        decreases actions.len() - i,
    {
        let action = actions[i];
        assert(actions@.take(i + 1).drop_last() =~= actions@.take(i as int));
        if let Action::Forward = action {
            forward = true;
        }
        apply_action(state, action);
        i = i + 1;
    }
    assert(actions@.take(i as int) =~= actions@);
    let ghost t = state@;
    let mut n: usize = 0;
    while n < state.players.len()
        invariant
            n <= state.players.len(),
            state.players.len() == t.players.len(),
            state@ == raced(t, forward, n as nat),
        decreases state.players.len() - n,
    {
        let ghost before = state@;
        let cursor = state.players[n].position;
        let _ = advance(&mut state.players[n], &state.dictionary, state.columns);
        if forward {
            shift_window(&mut state.dictionary, cursor);
        }
        assert(state.players.deep_view() =~= before.players.update(
            n as int,
            advanced(before.players[n as int], before.dictionary, before.columns),
        ));
        n = n + 1;
    }
}

/// Applies the actions from the index `from` on to the roster, in order.
fn apply_from(state: &mut State, actions: &Vec<Action>, from: usize)
    requires
        from <= actions.len(),
    ensures
        final(state)@ == after_actions(old(state)@, actions@.skip(from as int)),
{
    let ghost rest = actions@.skip(from as int);
    let mut i: usize = from;
    while i < actions.len()
        invariant
            from <= i <= actions.len(),
            rest == actions@.skip(from as int),
            state@ == after_actions(old(state)@, rest.take(i - from)),
        decreases actions.len() - i,
    {
        assert(rest.take(i - from + 1).drop_last() =~= rest.take(i - from));
        apply_action(state, actions[i]);
        i = i + 1;
    }
    assert(rest.take(i - from) =~= rest);
}

/// Runs a frame of the wait for the race to begin.
pub fn loading(state: &mut State, actions: &Vec<Action>)
    ensures
        final(state)@ == loading_frame(old(state)@, actions@),
{
    let mut i: usize = 0;
    assert(actions@.skip(0) =~= actions@);
    while i < actions.len()
        invariant
            i <= actions.len(),
            loading_frame(old(state)@, actions@) == loading_frame(state@, actions@.skip(i as int)),
        decreases actions.len() - i,
    {
        let action = actions[i];
        assert(actions@.skip(i as int).drop_first() =~= actions@.skip(i + 1));
        match action {
            Action::Forward => {
                state.screen = Screen::MultiPlayer;
                apply_from(state, actions, i + 1);
                return ;
            },
            Action::Input(_) => {},
            _ => {
                apply_action(state, action);
            },
        }
        i = i + 1;
    }
}

/// The wait for the race consumes every action it is given: once the signal
/// to go forward has come, what lies behind it in the frame is applied to the
/// roster exactly as a race would apply it.
pub proof fn loading_loses_nothing(s: StateView, before: Seq<Action>, behind: Seq<Action>)
    requires
        !forward_seen(before),
    ensures
        loading_frame(s, before + seq![Action::Forward] + behind) == after_actions(
            StateView { screen: Screen::MultiPlayer, ..loading_frame(s, before) },
            behind,
        ),
    decreases before.len(),
{
    let all = before + seq![Action::Forward] + behind;
    if before.len() == 0 {
        assert(all.drop_first() =~= behind);
    } else {
        let rest = before.drop_first();
        assert(all.drop_first() =~= rest + seq![Action::Forward] + behind);
        match before.first() {
            Action::Input(_) => {
                loading_loses_nothing(s, rest, behind);
            },
            _ => {
                loading_loses_nothing(after_action(s, before.first()), rest, behind);
            },
        }
    }
}

} // verus!
