//! The reproducible word sequence of a race.
//!
//! Every peer of a session rebuilds the same shuffled sequence from the
//! 16-bit session token alone: the token seeds a pseudo-random stream, the
//! stream orders the dictionary and then hands out the row of each word.

use vstd::prelude::*;

use crate::word::{Word, WordView};

verus! {

/// What `fastrand::Rng::shuffle` leaves behind when a generator in the given
/// state shuffles `order` on a machine whose `usize` has `word_bits` bits: the
/// shuffled items and the state of the generator afterwards.
pub uninterp spec fn shuffled(state: u64, order: Seq<usize>, word_bits: u32) -> (Seq<usize>, u64);

/// What `fastrand::Rng::u16` yields for the range `low..high` when the
/// generator is in the given state: the number and the state afterwards.
pub uninterp spec fn drawn(state: u64, low: u16, high: u16) -> (u16, u64);

/// Shuffles `order` with `fastrand::Rng::shuffle`, run on a generator that
/// `fastrand::Rng::with_seed` puts into `state`, and returns the state that
/// `fastrand::Rng::get_seed` reports afterwards.
///
/// Trusted: the outcome is a function of the state, the items and the width of
/// `usize` (the crate draws the swap partners as `usize`), and the call only
/// swaps items, so the same items are there afterwards.
#[verifier::external_body]
fn shuffle_order(state: u64, order: &mut Vec<usize>) -> (next: u64)
    ensures
        (final(order)@, next) == shuffled(state, old(order)@, usize::BITS),
        final(order)@.to_multiset() == old(order)@.to_multiset(),
{
    let rng = fastrand::Rng::with_seed(state);
    rng.shuffle(order.as_mut_slice());
    rng.get_seed()
}

/// Draws from `low..high` with `fastrand::Rng::u16`, on a generator that
/// `fastrand::Rng::with_seed` puts into `state`, and returns the number with
/// the state that `fastrand::Rng::get_seed` reports afterwards.
///
/// Trusted: the outcome is a function of the state and the range, and the
/// number lies in the range. The crate panics on an empty range, which the
/// precondition excludes.
#[verifier::external_body]
fn draw_u16(state: u64, low: u16, high: u16) -> (out: (u16, u64))
    requires
        low < high,
    ensures
        out == drawn(state, low, high),
        low <= out.0 < high,
{
    let rng = fastrand::Rng::with_seed(state);
    let value = rng.u16(low..high);
    (value, rng.get_seed())
}

/// The state of a generator that `fastrand::Rng::new` seeded from the
/// process-wide source of randomness. Nothing is known of it.
#[verifier::external_body]
fn fresh_state() -> u64 {
    fastrand::Rng::new().get_seed()
}

/// The only way building a sequence can fail: there are no words.
#[derive(Copy, Clone, Debug, PartialEq, Eq)]
pub struct EmptyDictionary;

impl EmptyDictionary {
    /// The sentence that tells the user of the error.
    pub open spec fn sentence(self) -> Seq<char> {
        "The dictionary is empty."@
    }

    /// A sentence for the user.
    pub fn message(&self) -> (out: String)
        ensures
            out@ == self.sentence(),
    {
        "The dictionary is empty.".to_owned()
    }
}

/// The indices `0, 1, .., n - 1` in order.
pub open spec fn identity_order(n: nat) -> Seq<usize> {
    Seq::new(n, |i: int| i as usize)
}

/// Whether `order` lists each index below `n` exactly once.
pub open spec fn is_permutation(order: Seq<usize>, n: nat) -> bool {
    order.to_multiset() == identity_order(n).to_multiset()
}

/// The row a word gets, given the row that was drawn for it and the row of
/// the word before it. A word that would land on the row of its predecessor
/// moves two rows down, or, where that would leave the `rows` rows of the
/// screen, three rows up (stopping at the top row).
pub open spec fn settled_row(drawn: u16, previous: Option<u16>, rows: u16) -> u16 {
    if previous != Some(drawn) {
        drawn
    } else if drawn + 2 <= rows - 1 {
        (drawn + 2) as u16
    } else if drawn >= 3 {
        (drawn - 3) as u16
    } else {
        0
    }
}

/// The rows of the first `count` words and the state of the stream after
/// they were handed out. Each row is drawn below `rows - 1` and settled
/// against the row before it. A screen of fewer than two rows leaves nothing
/// to draw: every word sits on row 0 and the stream is not advanced.
pub open spec fn rows_drawn(state: u64, rows: u16, count: nat) -> (Seq<u16>, u64)
    decreases count,
{
    if count == 0 {
        (Seq::empty(), state)
    } else if rows < 2 {
        (Seq::new(count, |i: int| 0u16), state)
    } else {
        let (before, s) = rows_drawn(state, rows, (count - 1) as nat);
        let (row, next) = drawn(s, 0, (rows - 1) as u16);
        let previous = if before.len() == 0 {
            None
        } else {
            Some(before.last())
        };
        (before.push(settled_row(row, previous, rows)), next)
    }
}

/// The words of `dictionary` taken in the given order, each at column 0 and
/// on its row.
pub open spec fn arranged(dictionary: Seq<Seq<char>>, order: Seq<usize>, ys: Seq<u16>) -> Seq<
    WordView,
> {
    Seq::new(
        order.len(),
        |i: int| WordView { text: dictionary[order[i] as int], x: 0, y: ys[i] },
    )
}

/// The sequence that a stream in the given state makes of `dictionary`: the
/// stream first shuffles the words, then hands out their rows.
pub open spec fn word_sequence(dictionary: Seq<Seq<char>>, state: u64, rows: u16) -> Seq<
    WordView,
> {
    let (order, after) = shuffled(state, identity_order(dictionary.len()), usize::BITS);
    arranged(dictionary, order, rows_drawn(after, rows, dictionary.len()).0)
}

/// Whether `words` is a sequence that `generate` may return for the seed. A
/// token fixes the sequence; without one the stream starts in a state of the
/// process's choosing.
pub open spec fn is_generated(
    dictionary: Seq<Seq<char>>,
    seed: Option<u16>,
    rows: u16,
    words: Seq<WordView>,
) -> bool {
    match seed {
        Some(token) => words == word_sequence(dictionary, token as u64, rows),
        None => exists|state: u64| words == #[trigger] word_sequence(dictionary, state, rows),
    }
}

/// Whether `words` holds the words of `dictionary`, each exactly once, in
/// some order.
pub open spec fn is_rearrangement(dictionary: Seq<Seq<char>>, words: Seq<WordView>) -> bool {
    exists|order: Seq<usize>|
        #![trigger is_permutation(order, dictionary.len())]
        is_permutation(order, dictionary.len()) && words.len() == order.len() && forall|i: int|
            0 <= i < words.len() ==> (#[trigger] words[i]).text == dictionary[order[i] as int]
}

/// Whether every word sits on one of the `rows` rows of the screen; on a
/// screen without rows, on row 0.
pub open spec fn on_screen(words: Seq<WordView>, rows: u16) -> bool {
    forall|i: int| 0 <= i < words.len() ==> (#[trigger] words[i]).y < rows || words[i].y == 0
}

/// Settles the row that was drawn for a word against the row of the word
/// before it.
pub fn settle_row(drawn: u16, previous: Option<u16>, rows: u16) -> (row: u16)
    ensures
        row == settled_row(drawn, previous, rows),
        drawn < rows ==> row < rows,
{
    let collides = match previous {
        Some(above) => above == drawn,
        None => false,
    };
    if !collides {
        drawn
    } else if rows >= 1 && drawn <= u16::MAX - 2 && drawn + 2 <= rows - 1 {
        drawn + 2
    } else if drawn >= 3 {
        drawn - 3
    } else {
        0
    }
}

/// The indices of a dictionary of `n` words, in order.
fn first_indices(n: usize) -> (order: Vec<usize>)
    ensures
        order@ == identity_order(n as nat),
{
    let mut order: Vec<usize> = Vec::new();
    let mut i: usize = 0;
    while i < n
        invariant
            i <= n,
            order@ == identity_order(i as nat),
        decreases n - i,
    {
        order.push(i);
        i = i + 1;
    }
    order
}

/// Every item of a permutation is an index below `n`.
pub proof fn permutation_in_range(order: Seq<usize>, n: nat)
    requires
        is_permutation(order, n),
    ensures
        order.len() == n,
        forall|i: int| 0 <= i < order.len() ==> (#[trigger] order[i]) < n,
{
    let id = identity_order(n);
    order.to_multiset_ensures();
    id.to_multiset_ensures();
    assert forall|i: int| 0 <= i < order.len() implies (#[trigger] order[i]) < n by {
        assert(id.to_multiset().count(order[i]) > 0);
    }
}

/// Hands out the rows of `count` words from a stream in the given state.
fn draw_rows(state: u64, rows: u16, count: usize) -> (out: (Vec<u16>, u64))
    ensures
        (out.0@, out.1) == rows_drawn(state, rows, count as nat),
        out.0@.len() == count,
        forall|i: int| 0 <= i < count ==> (#[trigger] out.0@[i]) < rows || out.0@[i] == 0,
{
    let mut ys: Vec<u16> = Vec::new();
    let mut stream: u64 = state;
    let mut i: usize = 0;
    if rows < 2 {
        while i < count
            invariant
                i <= count,
                ys@ == Seq::new(i as nat, |k: int| 0u16),
            decreases count - i,
        {
            ys.push(0);
            i = i + 1;
        }
        return (ys, stream);
    }
    while i < count
        invariant
            i <= count,
            rows >= 2,
            (ys@, stream) == rows_drawn(state, rows, i as nat),
            ys@.len() == i,
            forall|k: int| 0 <= k < i ==> (#[trigger] ys@[k]) < rows,
        decreases count - i,
    {
        let (row, next) = draw_u16(stream, 0, rows - 1);
        let previous = if i == 0 {
            None
        } else {
            Some(ys[i - 1])
        };
        ys.push(settle_row(row, previous, rows));
        stream = next;
        i = i + 1;
    }
    (ys, stream)
}

/// Lays out the words of `dictionary` in the given order, each at column 0
/// and on its row.
pub fn arrange(dictionary: &Vec<String>, order: &Vec<usize>, ys: &Vec<u16>) -> (words: Vec<Word>)
    requires
        ys.len() == order.len(),
        forall|i: int| 0 <= i < order.len() ==> (#[trigger] order[i]) < dictionary.len(),
    ensures
        words.deep_view() == arranged(dictionary.deep_view(), order@, ys@),
{
    let mut words: Vec<Word> = Vec::new();
    let mut i: usize = 0;
    while i < order.len()
        invariant
            i <= order.len(),
            ys.len() == order.len(),
            forall|k: int| 0 <= k < order.len() ==> (#[trigger] order[k]) < dictionary.len(),
            words.len() == i,
            forall|k: int|
                0 <= k < i ==> (#[trigger] words[k])@ == (WordView {
                    text: dictionary[order[k] as int]@,
                    x: 0,
                    y: ys[k],
                }),
        decreases order.len() - i,
    {
        let text = dictionary[order[i]].clone();
        words.push(Word { value: text, x: 0, y: ys[i] });
        i = i + 1;
    }
    words
}

/// Builds the word sequence that a stream in the given state makes of
/// `dictionary`.
pub fn generate_from(dictionary: &Vec<String>, state: u64, rows: u16) -> (result: Result<
    Vec<Word>,
    EmptyDictionary,
>)
    ensures
        dictionary.len() == 0 <==> result is Err,
        result matches Ok(words) ==> {
            &&& words.deep_view() == word_sequence(dictionary.deep_view(), state, rows)
            &&& is_rearrangement(dictionary.deep_view(), words.deep_view())
            &&& words.len() == dictionary.len()
            &&& on_screen(words.deep_view(), rows)
        },
{
    if dictionary.len() == 0 {
        return Err(EmptyDictionary);
    }
    let mut order = first_indices(dictionary.len());
    let after = shuffle_order(state, &mut order);
    proof {
        permutation_in_range(order@, dictionary.len() as nat);
    }
    let (ys, _) = draw_rows(after, rows, dictionary.len());
    let words = arrange(dictionary, &order, &ys);
    assert(is_permutation(order@, dictionary.deep_view().len()));
    Ok(words)
}

/// Builds the word sequence of a race from the dictionary. With a session
/// token every peer obtains the same sequence; without one the sequence is
/// the process's own.
pub fn generate(dictionary: &Vec<String>, seed: Option<u16>, rows: u16) -> (result: Result<
    Vec<Word>,
    EmptyDictionary,
>)
    ensures
        dictionary.len() == 0 <==> result is Err,
        result matches Ok(words) ==> {
            &&& is_generated(dictionary.deep_view(), seed, rows, words.deep_view())
            &&& is_rearrangement(dictionary.deep_view(), words.deep_view())
            &&& words.len() == dictionary.len()
            &&& on_screen(words.deep_view(), rows)
        },
{
    let state: u64 = match seed {
        Some(token) => token as u64,
        None => fresh_state(),
    };
    generate_from(dictionary, state, rows)
}

/// Two peers that hold the same dictionary and the same token see the same
/// sequence: whatever `generate` returns for a token, it returns the same
/// again.
pub proof fn same_token_same_sequence(
    dictionary: Seq<Seq<char>>,
    token: u16,
    rows: u16,
    first: Seq<WordView>,
    second: Seq<WordView>,
)
    requires
        is_generated(dictionary, Some(token), rows, first),
        is_generated(dictionary, Some(token), rows, second),
    ensures
        first == second,
{
}

} // verus!
