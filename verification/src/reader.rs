//! The reader of the stream from the relay, one step at a time.
//!
//! The caller does the reading and tries the lock; what was read goes in
//! here together with the queue, if the lock was free. The reader cuts the
//! bytes into frames, whatever the sizes of the reads, and passes the actions
//! on without ever waiting: into the queue, or into its backlog.

use vstd::prelude::*;

use crate::queue::{ActionQueue, Backlog};
use crate::types::Action;
use crate::wire::{frames_of, rest_of, FrameBuffer, FRAME_LEN};

verus! {

/// What the reader keeps between two reads.
pub struct Reader {
    frames: FrameBuffer,
    backlog: Backlog,
}

/// The mathematical content of a [`Reader`].
pub struct ReaderView {
    /// The bytes of the frame that has not arrived in full.
    pub partial: Seq<u8>,
    /// The actions that wait for the queue, oldest first.
    pub held: Seq<Action>,
}

impl View for Reader {
    type V = ReaderView;

    closed spec fn view(&self) -> ReaderView {
        ReaderView { partial: self.frames@, held: self.backlog@ }
    }
}

impl Reader {
    /// A reader that has read nothing yet.
    pub fn new() -> (reader: Self)
        ensures
            reader@ == (ReaderView { partial: Seq::empty(), held: Seq::empty() }),
    {
        Reader { frames: FrameBuffer::new(), backlog: Backlog::new() }
    }

    /// The number of actions that wait for the queue.
    pub fn held(&self) -> (n: usize)
        ensures
            n == self@.held.len(),
    {
        self.backlog.len()
    }

    /// The number of bytes that wait for the rest of their frame.
    pub fn partial(&self) -> (n: usize)
        ensures
            n == self@.partial.len(),
            n < FRAME_LEN,
    {
        self.frames.len()
    }

    /// Follows one read from the relay, which returned `bytes`, and says
    /// whether the reader is to go on: a read that returns nothing means that
    /// the relay has closed the stream.
    ///
    /// The bytes are put behind those of the unfinished frame and every
    /// frame that is now complete gives an action. With the queue in hand,
    /// the backlog and then these actions are handed over; without it they
    /// are held back. A reader that stops with the queue in hand has thereby
    /// handed over all it had.
    pub fn on_read(&mut self, bytes: &[u8], queue: Option<&mut ActionQueue>) -> (go_on: bool)
        ensures
            go_on == (bytes@.len() > 0),
            old(self)@.partial.len() < FRAME_LEN,
            final(self)@.partial == rest_of(old(self)@.partial + bytes@),
            final(self)@.held == if queue is Some {
                Seq::<Action>::empty()
            } else {
                old(self)@.held + frames_of(old(self)@.partial + bytes@)
            },
            queue matches Some(q) ==> final(q)@ == q@ + old(self)@.held + frames_of(
                old(self)@.partial + bytes@,
            ),
            bytes@.len() == 0 ==> {
                &&& final(self)@.partial == old(self)@.partial
                &&& queue is None ==> final(self)@.held == old(self)@.held
                &&& queue matches Some(q) ==> final(q)@ == q@ + old(self)@.held
            },
    {
        let batch = self.frames.take_in(bytes);
        proof {
            if bytes@.len() == 0 {
                assert(bytes@ =~= Seq::<u8>::empty());
                end_of_stream_adds_nothing(old(self)@.partial);
            }
        }
        self.backlog.offer_all(queue, batch);
        bytes.len() > 0
    }

    /// Hands over what is still held back. A reader that stops calls this
    /// with the queue in hand, so that nothing it has decoded stays behind.
    pub fn finish(&mut self, queue: &mut ActionQueue)
        ensures
            final(queue)@ == old(queue)@ + old(self)@.held,
            final(self)@ == (ReaderView { held: Seq::empty(), ..old(self)@ }),
    {
        self.backlog.flush(queue);
    }
}

/// A read that returns nothing adds no action: what the reader holds of an
/// unfinished frame is never enough for one.
pub proof fn end_of_stream_adds_nothing(partial: Seq<u8>)
    requires
        partial.len() < FRAME_LEN,
    ensures
        frames_of(partial + Seq::<u8>::empty()) == Seq::<Action>::empty(),
        rest_of(partial + Seq::<u8>::empty()) == partial,
{
}

/// Frames are cut by their place in the stream and not by the reads: bytes
/// that arrive in two reads give the actions they would have given in one.
pub proof fn reads_may_end_anywhere(partial: Seq<u8>, first: Seq<u8>, second: Seq<u8>)
    ensures
        frames_of(partial + first) + frames_of(rest_of(partial + first) + second) == frames_of(
            partial + first + second,
        ),
        rest_of(rest_of(partial + first) + second) == rest_of(partial + first + second),
{
    let a = partial + first;
    let whole = a + second;
    let tail = rest_of(a) + second;
    let n = a.len() / FRAME_LEN as nat;
    let left = frames_of(a) + frames_of(tail);
    let right = frames_of(whole);
    assert forall|k: int| 0 <= k < left.len() implies left[k] == right[k] by {
        if k < n {
            assert(a.subrange(k * FRAME_LEN, k * FRAME_LEN + FRAME_LEN) =~= whole.subrange(
                k * FRAME_LEN,
                k * FRAME_LEN + FRAME_LEN,
            ));
        } else {
            let m = k - n;
            assert(tail.subrange(m * FRAME_LEN, m * FRAME_LEN + FRAME_LEN) =~= whole.subrange(
                k * FRAME_LEN,
                k * FRAME_LEN + FRAME_LEN,
            ));
        }
    }
}

} // verus!
