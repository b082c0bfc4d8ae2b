//! The roster of a shared session: who is in it, in which order, and which of
//! the players sits at this terminal.
//!
//! The roster is kept in ascending order of sort position. Players with the
//! same sort position stay in the order in which they arrived.

use vstd::prelude::*;

use crate::types::{Player, PlayerView};

verus! {

/// The character that stands for a backspace on the wire.
pub const BACKSPACE: char = '-';

/// Whether the roster is in ascending order of sort position.
pub open spec fn in_order(roster: Seq<PlayerView>) -> bool {
    forall|i: int, j: int|
        0 <= i < j < roster.len() ==> roster[i].sort_position <= roster[j].sort_position
}

/// How many players of the roster have a sort position of at most `slot`.
pub open spec fn count_at_most(roster: Seq<PlayerView>, slot: u8) -> nat
    decreases roster.len(),
{
    if roster.len() == 0 {
        0
    } else {
        count_at_most(roster.drop_last(), slot) + if roster.last().sort_position <= slot {
            1nat
        } else {
            0nat
        }
    }
}

/// The roster with `player` seated behind every player whose sort position is
/// at most the newcomer's.
pub open spec fn seated(roster: Seq<PlayerView>, player: PlayerView) -> Seq<PlayerView> {
    roster.insert(count_at_most(roster, player.sort_position) as int, player)
}

/// The roster in ascending order of sort position, players of equal sort
/// position in the order they had: each player in turn is seated among those
/// before it.
pub open spec fn ordered(roster: Seq<PlayerView>) -> Seq<PlayerView>
    decreases roster.len(),
{
    if roster.len() == 0 {
        roster
    } else {
        seated(ordered(roster.drop_last()), roster.last())
    }
}

/// The test that picks the players with the given sort position.
pub open spec fn has_slot(slot: u8) -> spec_fn(PlayerView) -> bool {
    |player: PlayerView| player.sort_position == slot
}

/// The players of the roster that have the given sort position, in the order
/// in which the roster holds them.
pub open spec fn at_slot(roster: Seq<PlayerView>, slot: u8) -> Seq<PlayerView> {
    roster.filter(has_slot(slot))
}

/// The player that a join with the given sort position creates.
pub open spec fn newcomer(sort_position: u8) -> PlayerView {
    PlayerView { sort_position, ..PlayerView::fresh() }
}

/// The roster after a player with the given sort position joined.
pub open spec fn joined(roster: Seq<PlayerView>, sort_position: u8) -> Seq<PlayerView> {
    ordered(roster.push(newcomer(sort_position)))
}

/// The roster after the player at `index` left. An index that names nobody
/// changes nothing.
pub open spec fn departed(roster: Seq<PlayerView>, index: usize) -> Seq<PlayerView> {
    if index < roster.len() {
        ordered(roster.remove(index as int))
    } else {
        roster
    }
}

/// What a player has typed once the key `c` arrived: a backspace takes the
/// last character away, anything else is appended.
pub open spec fn keyed(input: Seq<char>, c: char) -> Seq<char> {
    if c != BACKSPACE {
        input.push(c)
    } else if input.len() > 0 {
        input.drop_last()
    } else {
        input
    }
}

/// The roster after the player at `index` pressed `c`. An index that names
/// nobody changes nothing.
pub open spec fn typed(roster: Seq<PlayerView>, index: usize, c: char) -> Seq<PlayerView> {
    if index < roster.len() {
        roster.update(
            index as int,
            PlayerView { input: keyed(roster[index as int].input, c), ..roster[index as int] },
        )
    } else {
        roster
    }
}

/// Whether `i` is the first index of the roster whose player is flagged as
/// the one at this terminal.
pub open spec fn is_first_local(roster: Seq<PlayerView>, i: int) -> bool {
    &&& 0 <= i < roster.len()
    &&& roster[i].current_player
    &&& forall|j: int| 0 <= j < i ==> !(#[trigger] roster[j]).current_player
}

/// The index of the local player: the first one flagged, or `previous`
/// where nobody is.
pub open spec fn local_index(roster: Seq<PlayerView>, previous: usize) -> usize {
    if exists|i: int| is_first_local(roster, i) {
        (choose|i: int| is_first_local(roster, i)) as usize
    } else {
        previous
    }
}

/// An ordered roster is in ascending order of sort position.
pub proof fn ordered_is_in_order(roster: Seq<PlayerView>)
    ensures
        in_order(ordered(roster)),
        ordered(roster).len() == roster.len(),
    decreases roster.len(),
{
    if roster.len() > 0 {
        let before = ordered(roster.drop_last());
        ordered_is_in_order(roster.drop_last());
        seated_in_order(before, roster.last());
    }
}

/// Ordering a roster neither loses nor invents a player.
pub proof fn ordered_keeps_players(roster: Seq<PlayerView>)
    ensures
        ordered(roster).to_multiset() == roster.to_multiset(),
    decreases roster.len(),
{
    broadcast use vstd::seq_lib::to_multiset_insert, vstd::seq_lib::to_multiset_build;

    if roster.len() > 0 {
        let before = ordered(roster.drop_last());
        ordered_keeps_players(roster.drop_last());
        count_bounded(before, roster.last().sort_position);
        assert(roster =~= roster.drop_last().push(roster.last()));
    }
}

/// A roster without a player at a sort position has nobody to show for it.
proof fn nobody_at_slot(roster: Seq<PlayerView>, slot: u8)
    requires
        forall|i: int| 0 <= i < roster.len() ==> (#[trigger] roster[i]).sort_position != slot,
    ensures
        at_slot(roster, slot) == Seq::<PlayerView>::empty(),
    decreases roster.len(),
{
    reveal(Seq::filter);
    if roster.len() > 0 {
        let front = roster.drop_last();
        nobody_at_slot(front, slot);
    }
}

/// Ordering is stable: the players that share a sort position stand in the
/// ordered roster in the order in which they stood before.
pub proof fn ordered_is_stable(roster: Seq<PlayerView>, slot: u8)
    ensures
        at_slot(ordered(roster), slot) == at_slot(roster, slot),
    decreases roster.len(),
{
    if roster.len() > 0 {
        let front = roster.drop_last();
        let player = roster.last();
        let before = ordered(front);
        let seat = count_at_most(before, player.sort_position) as int;
        let below = before.take(seat);
        let above = before.skip(seat);
        let one = seq![player];
        ordered_is_stable(front, slot);
        ordered_is_in_order(front);
        count_splits(before, player.sort_position);
        assert(before =~= below + above);
        assert(before.insert(seat, player) =~= (below + one) + above);
        assert(roster =~= front + one);
        Seq::filter_distributes_over_add(below, above, has_slot(slot));
        Seq::filter_distributes_over_add(below + one, above, has_slot(slot));
        Seq::filter_distributes_over_add(below, one, has_slot(slot));
        Seq::filter_distributes_over_add(front, one, has_slot(slot));
        if player.sort_position == slot {
            nobody_at_slot(above, slot);
            assert((at_slot(below, slot) + at_slot(one, slot)) + at_slot(above, slot) =~= at_slot(
                before,
                slot,
            ) + at_slot(one, slot));
        } else {
            nobody_at_slot(one, slot);
            assert((at_slot(below, slot) + at_slot(one, slot)) + at_slot(above, slot) =~= at_slot(
                before,
                slot,
            ));
        }
    }
}

/// Ordering a roster that is in order already changes nothing.
pub proof fn ordered_of_in_order(roster: Seq<PlayerView>)
    requires
        in_order(roster),
    ensures
        ordered(roster) == roster,
    decreases roster.len(),
{
    if roster.len() > 0 {
        let front = roster.drop_last();
        ordered_of_in_order(front);
        count_of_prefix(front, roster.last().sort_position, front.len() as int);
    }
}

/// The count of players at or below a slot never exceeds the roster.
pub proof fn count_bounded(roster: Seq<PlayerView>, slot: u8)
    ensures
        count_at_most(roster, slot) <= roster.len(),
    decreases roster.len(),
{
    if roster.len() > 0 {
        count_bounded(roster.drop_last(), slot);
    }
}

/// In a roster in order, the players at or below a slot are exactly the
/// first `k` of it, whenever the first `k` are at or below and the rest above.
pub proof fn count_of_prefix(roster: Seq<PlayerView>, slot: u8, k: int)
    requires
        0 <= k <= roster.len(),
        forall|i: int| 0 <= i < k ==> (#[trigger] roster[i]).sort_position <= slot,
        forall|i: int| k <= i < roster.len() ==> (#[trigger] roster[i]).sort_position > slot,
    ensures
        count_at_most(roster, slot) == k,
    decreases roster.len(),
{
    if roster.len() > 0 {
        let front = roster.drop_last();
        if k == roster.len() {
            count_of_prefix(front, slot, k - 1);
        } else {
            count_of_prefix(front, slot, k);
        }
    }
}

/// In a roster in order, the count of players at or below a slot splits the
/// roster: those before it are at or below, those from it on are above.
pub proof fn count_splits(roster: Seq<PlayerView>, slot: u8)
    requires
        in_order(roster),
    ensures
        count_at_most(roster, slot) <= roster.len(),
        forall|i: int|
            0 <= i < count_at_most(roster, slot) ==> (#[trigger] roster[i]).sort_position <= slot,
        forall|i: int|
            count_at_most(roster, slot) <= i < roster.len() ==> (#[trigger] roster[i]).sort_position
                > slot,
    decreases roster.len(),
{
    if roster.len() > 0 {
        let front = roster.drop_last();
        let last = roster.len() - 1;
        count_splits(front, slot);
        if roster.last().sort_position <= slot {
            count_of_prefix(front, slot, front.len() as int);
        }
        let k = count_at_most(roster, slot);
        assert forall|i: int| 0 <= i < k implies (#[trigger] roster[i]).sort_position <= slot by {
            if i < last {
                assert(front[i].sort_position <= slot);
            }
        }
        assert forall|i: int| k <= i < roster.len() implies (#[trigger] roster[i]).sort_position
            > slot by {
            if i < last {
                assert(front[i].sort_position > slot);
            }
        }
    }
}

/// Seating a player in a roster that is in order leaves it in order.
pub proof fn seated_in_order(roster: Seq<PlayerView>, player: PlayerView)
    requires
        in_order(roster),
    ensures
        in_order(seated(roster, player)),
        seated(roster, player).len() == roster.len() + 1,
{
    count_splits(roster, player.sort_position);
}

/// Puts the roster in ascending order of sort position, keeping players of
/// equal sort position in the order they had.
pub fn sort_players(players: &mut Vec<Player>)
    ensures
        final(players).deep_view() == ordered(old(players).deep_view()),
        in_order(final(players).deep_view()),
{
    let ghost start = players.deep_view();
    let mut i: usize = 0;
    while i < players.len()
        invariant
            i <= players.len(),
            players.len() == start.len(),
            players.deep_view().take(i as int) == ordered(start.take(i as int)),
            players.deep_view().skip(i as int) == start.skip(i as int),
        decreases players.len() - i,
    {
        let ghost before = players.deep_view();
        let ghost front = before.take(i as int);
        proof {
            ordered_is_in_order(start.take(i as int));
            assert forall|k: int| i <= k < start.len() implies before[k] == start[k] by {
                assert(before.skip(i as int)[k - i] == start.skip(i as int)[k - i]);
            }
        }
        let player = players.remove(i);
        let mut j: usize = 0;
        while j < i && players[j].sort_position <= player.sort_position
            invariant
                j <= i,
                i < players.len() + 1,
                forall|k: int| 0 <= k < j ==> (#[trigger] players[k]).sort_position
                    <= player.sort_position,
            decreases i - j,
        {
            j = j + 1;
        }
        proof {
            assert forall|k: int| 0 <= k < j implies (#[trigger] front[k]).sort_position
                <= player.sort_position by {
                assert(front[k] == players[k]@);
            }
            assert forall|k: int| j <= k < front.len() implies (#[trigger] front[k]).sort_position
                > player.sort_position by {
                assert(front[j as int].sort_position <= front[k].sort_position);
            }
            count_of_prefix(front, player.sort_position, j as int);
        }
        players.insert(j, player);
        assert(start.take(i + 1).drop_last() =~= start.take(i as int));
        i = i + 1;
    }
    proof {
        assert(players.deep_view().take(i as int) =~= players.deep_view());
        assert(start.take(i as int) =~= start);
        ordered_is_in_order(start);
    }
}

/// Finds the player at this terminal: the index of the first player flagged
/// as local, or `previous` where nobody is.
pub fn find_local(players: &Vec<Player>, previous: usize) -> (index: usize)
    ensures
        index == local_index(players.deep_view(), previous),
{
    let mut i: usize = 0;
    while i < players.len()
        invariant
            i <= players.len(),
            forall|j: int| 0 <= j < i ==> !(#[trigger] players.deep_view()[j]).current_player,
        decreases players.len() - i,
    {
        if players[i].current_player {
            assert(is_first_local(players.deep_view(), i as int));
            return i;
        }
        i = i + 1;
    }
    previous
}

/// Takes a new player with the given sort position into the roster.
pub fn apply_join(players: &mut Vec<Player>, sort_position: u8)
    ensures
        final(players).deep_view() == joined(old(players).deep_view(), sort_position),
{
    let mut player = Player::default();
    player.sort_position = sort_position;
    players.push(player);
    assert(players.deep_view() =~= old(players).deep_view().push(newcomer(sort_position)));
    sort_players(players);
}

/// Takes the player at `index` off the roster; an index that names nobody
/// changes nothing.
pub fn apply_left(players: &mut Vec<Player>, index: usize)
    ensures
        final(players).deep_view() == departed(old(players).deep_view(), index),
{
    if index < players.len() {
        let _ = players.remove(index);
        assert(players.deep_view() =~= old(players).deep_view().remove(index as int));
        sort_players(players);
    }
}

/// Records that the player at `index` pressed `c`; an index that names
/// nobody changes nothing.
pub fn apply_input(players: &mut Vec<Player>, index: usize, c: char)
    ensures
        final(players).deep_view() == typed(old(players).deep_view(), index, c),
{
    if index < players.len() {
        if c == BACKSPACE {
            let _ = players[index].input.pop();
        } else {
            players[index].input.push(c);
        }
    }
}

/// A player who joins and leaves again at once leaves no trace: where the
/// roster is in order, taking in a newcomer and then removing the player at
/// the newcomer's seat gives back the roster as it was.
pub proof fn join_then_left_restores(roster: Seq<PlayerView>, sort_position: u8)
    requires
        in_order(roster),
        roster.len() < usize::MAX,
    ensures
        joined(roster, sort_position)[count_at_most(roster, sort_position) as int] == newcomer(
            sort_position,
        ),
        departed(joined(roster, sort_position), count_at_most(roster, sort_position) as usize)
            == roster,
        joined(roster, sort_position).len() == roster.len() + 1,
{
    let seat = count_at_most(roster, sort_position);
    let extended = roster.push(newcomer(sort_position));
    count_bounded(roster, sort_position);
    ordered_of_in_order(roster);
    assert(extended.drop_last() =~= roster);
    assert(roster.insert(seat as int, newcomer(sort_position)).remove(seat as int) =~= roster);
}

} // verus!
