//! The bytes exchanged with the relay.
//!
//! Requests and their replies have fixed widths; all integers are big-endian.
//! Everything the relay pushes is a frame of five bytes. A frame that starts
//! with the tag `Join` or `Left` is that message, with its argument in the
//! fifth byte; any other frame is the input of a player, with the player's
//! index in the first byte and the character in the second.

use vstd::prelude::*;

use crate::types::Action;

verus! {

/// The width of a frame that the relay pushes.
pub const FRAME_LEN: usize = 5;

/// The width of the reply to a request for a new session.
pub const TOKEN_LEN: usize = 2;

/// A reply of the relay that is too short to be what was asked for.
#[derive(Copy, Clone, Debug, PartialEq, Eq, Structural)]
pub enum ProtocolError {
    /// The reply to a request for a new session held no token.
    SessionNotCreated,
    /// The reply to a request to join held no sort position.
    SessionNotJoined,
}

impl ProtocolError {
    /// The sentence that tells the user of the error.
    pub open spec fn sentence(self) -> Seq<char> {
        match self {
            ProtocolError::SessionNotCreated => "Session Couldn't be created."@,
            ProtocolError::SessionNotJoined => "Couldn't Join Session."@,
        }
    }

    /// A sentence for the user.
    pub fn message(&self) -> (out: String)
        ensures
            out@ == self.sentence(),
    {
        match self {
            ProtocolError::SessionNotCreated => "Session Couldn't be created.".to_owned(),
            ProtocolError::SessionNotJoined => "Couldn't Join Session.".to_owned(),
        }
    }
}

/// The tag `Join`.
pub open spec fn join_tag() -> Seq<u8> {
    seq![0x4au8, 0x6fu8, 0x69u8, 0x6eu8]
}

/// The tag `Left`.
pub open spec fn left_tag() -> Seq<u8> {
    seq![0x4cu8, 0x65u8, 0x66u8, 0x74u8]
}

/// The command `Create`.
pub open spec fn create_command() -> Seq<u8> {
    seq![0x43u8, 0x72u8, 0x65u8, 0x61u8, 0x74u8, 0x65u8]
}

/// The two bytes of a token, the more significant first.
pub open spec fn token_bytes(token: u16) -> Seq<u8> {
    seq![(token / 256) as u8, (token % 256) as u8]
}

/// The token that two bytes stand for, the more significant first.
pub open spec fn token_of(high: u8, low: u8) -> u16 {
    (high * 256 + low) as u16
}

/// The command that joins the session with the given token.
pub open spec fn join_command(token: u16) -> Seq<u8> {
    join_tag() + token_bytes(token)
}

/// The byte that stands for a character on the wire: its code, cut to eight
/// bits.
pub open spec fn byte_of(c: char) -> u8 {
    (c as u32 % 256) as u8
}

/// The action that a frame stands for. The tags are looked for first.
pub open spec fn decoded(frame: Seq<u8>) -> Action {
    if frame.take(4) == join_tag() {
        Action::Join(frame[4])
    } else if frame.take(4) == left_tag() {
        Action::Left(frame[4] as usize)
    } else {
        Action::Input((frame[0] as usize, frame[1] as char))
    }
}

/// The actions of the full frames that the bytes hold, the first frame
/// first.
pub open spec fn frames_of(bytes: Seq<u8>) -> Seq<Action> {
    Seq::new(
        bytes.len() / FRAME_LEN as nat,
        |k: int| decoded(bytes.subrange(k * FRAME_LEN, k * FRAME_LEN + FRAME_LEN)),
    )
}

/// The bytes behind the last full frame.
pub open spec fn rest_of(bytes: Seq<u8>) -> Seq<u8> {
    bytes.skip(bytes.len() - bytes.len() % FRAME_LEN as nat)
}

/// The request for a new session.
pub fn create_request() -> (request: Vec<u8>)
    ensures
        request@ == create_command(),
{
    let request = vec![0x43u8, 0x72u8, 0x65u8, 0x61u8, 0x74u8, 0x65u8];
    request
}

/// The request to join the session with the given token.
pub fn join_request(token: u16) -> (request: Vec<u8>)
    ensures
        request@ == join_command(token),
{
    let high = (token / 256) as u8;
    let low = (token % 256) as u8;
    let request = vec![0x4au8, 0x6fu8, 0x69u8, 0x6eu8, high, low];
    request
}

/// Reads the token out of the reply to a request for a new session. A reply
/// of fewer than two bytes holds no token.
pub fn parse_session_token(reply: &[u8]) -> (result: Result<u16, ProtocolError>)
    ensures
        reply@.len() < TOKEN_LEN <==> result is Err,
        result matches Ok(token) ==> token == token_of(reply@[0], reply@[1]),
        result matches Err(e) ==> e == ProtocolError::SessionNotCreated,
{
    if reply.len() < TOKEN_LEN {
        return Err(ProtocolError::SessionNotCreated);
    }
    let high = reply[0] as u16;
    let low = reply[1] as u16;
    Ok(high * 256 + low)
}

/// Reads the sort position out of the reply to a request to join. An empty
/// reply holds none.
pub fn parse_sort_position(reply: &[u8]) -> (result: Result<u8, ProtocolError>)
    ensures
        reply@.len() == 0 <==> result is Err,
        result matches Ok(slot) ==> slot == reply@[0],
        result matches Err(e) ==> e == ProtocolError::SessionNotJoined,
{
    if reply.len() < 1 {
        return Err(ProtocolError::SessionNotJoined);
    }
    Ok(reply[0])
}

/// The byte that tells the relay which character was typed.
pub fn input_byte(c: char) -> (byte: u8)
    ensures
        byte == byte_of(c),
{
    (c as u32 % 256) as u8
}

/// Decodes a frame that the relay pushed.
pub fn decode_frame(frame: &[u8; 5]) -> (action: Action)
    ensures
        action == decoded(frame@),
{
    if frame[0] == 0x4a && frame[1] == 0x6f && frame[2] == 0x69 && frame[3] == 0x6e {
        assert(frame@.take(4) =~= join_tag());
        Action::Join(frame[4])
    } else if frame[0] == 0x4c && frame[1] == 0x65 && frame[2] == 0x66 && frame[3] == 0x74 {
        assert(frame@.take(4) =~= left_tag());
        Action::Left(frame[4] as usize)
    } else {
        Action::Input((frame[0] as usize, frame[1] as char))
    }
}

/// A place for the bytes of a frame that has not arrived in full. The relay
/// sends frames back to back and a read may end anywhere, so what is read is
/// cut into frames here, whatever the sizes of the reads.
pub struct FrameBuffer {
    bytes: Vec<u8>,
}

impl View for FrameBuffer {
    type V = Seq<u8>;

    closed spec fn view(&self) -> Seq<u8> {
        self.bytes@
    }
}

impl FrameBuffer {
    #[verifier::type_invariant]
    spec fn unfinished(self) -> bool {
        self.bytes@.len() < FRAME_LEN
    }

    /// A buffer that holds nothing.
    pub fn new() -> (buffer: Self)
        ensures
            buffer@ == Seq::<u8>::empty(),
    {
        FrameBuffer { bytes: Vec::new() }
    }

    /// The number of bytes that wait for the rest of their frame.
    pub fn len(&self) -> (n: usize)
        ensures
            n == self@.len(),
            n < FRAME_LEN,
    {
        proof {
            use_type_invariant(self);
        }
        self.bytes.len()
    }

    /// Takes in what was read and returns the actions of the frames that are
    /// now complete, the first frame first. The bytes behind the last full
    /// frame wait for the next read.
    pub fn take_in(&mut self, bytes: &[u8]) -> (actions: Vec<Action>)
        ensures
            actions@ == frames_of(old(self)@ + bytes@),
            final(self)@ == rest_of(old(self)@ + bytes@),
            old(self)@.len() < FRAME_LEN,
            final(self)@.len() < FRAME_LEN,
    {
        proof {
            use_type_invariant(&*self);
        }
        let ghost all = self@ + bytes@;
        let mut stream: Vec<u8> = Vec::new();
        let mut i: usize = 0;
        while i < self.bytes.len()
            invariant
                i <= self.bytes.len(),
                stream@ == self.bytes@.take(i as int),
            decreases self.bytes.len() - i,
        {
            stream.push(self.bytes[i]);
            i = i + 1;
        }
        let mut j: usize = 0;
        while j < bytes.len()
            invariant
                j <= bytes.len(),
                stream@ == self.bytes@ + bytes@.take(j as int),
            decreases bytes.len() - j,
        {
            stream.push(bytes[j]);
            j = j + 1;
        }
        let mut actions: Vec<Action> = Vec::new();
        let mut at: usize = 0;
        while stream.len() - at >= FRAME_LEN
            invariant
                at <= stream.len(),
                at == FRAME_LEN * actions.len(),
                stream@ == all,
                actions@ == frames_of(all).take(actions.len() as int),
            decreases stream.len() - at,
        {
            let frame: [u8; 5] = [
                stream[at],
                stream[at + 1],
                stream[at + 2],
                stream[at + 3],
                stream[at + 4],
            ];
            assert(frame@ =~= all.subrange(at as int, at + FRAME_LEN));
            actions.push(decode_frame(&frame));
            at = at + FRAME_LEN;
        }
        let rest = stream.split_off(at);
        self.bytes = rest;
        actions
    }
}

/// A token survives the trip over the wire: the bytes that a join request
/// carries for it read back as the token.
pub proof fn token_round_trip(token: u16)
    ensures
        token_of(token_bytes(token)[0], token_bytes(token)[1]) == token,
{
}

} // verus!
