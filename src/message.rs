//! The message frame: onward route, return route, then the body, which runs
//! to the end of the buffer.
use vstd::prelude::*;

use crate::address::AddressModel;
use crate::codec::{Codec, CodecError};
use crate::route::{lemma_route_round_trip, route_encodable, route_parse, route_wire, Route, ROUTE_CAPACITY};

verus! {

/// The framing version that a transport carries beside each message.
pub const WIRE_PROTOCOL_VERSION: u16 = 1;

/// A routed message.
///
/// The body has no length of its own: a decoder takes every byte after the
/// two routes as the body, so one encoded message fills a whole transport
/// frame. A decoded message whose frame ends right after its routes has an
/// empty body; a message built by `default` has the one-byte body `[0]`.
#[derive(Debug)]
pub struct Message {
    pub onward_route: Route,
    pub return_route: Route,
    pub message_body: Vec<u8>,
}

/// What a message stands for.
pub struct MessageModel {
    pub onward: Seq<AddressModel>,
    pub back: Seq<AddressModel>,
    pub body: Seq<u8>,
}

impl View for Message {
    type V = MessageModel;

    open spec fn view(&self) -> MessageModel {
        MessageModel {
            onward: self.onward_route@,
            back: self.return_route@,
            body: self.message_body@,
        }
    }
}

impl Message {
    /// Both routes are well formed.
    pub open spec fn wf(&self) -> bool {
        self.onward_route.wf() && self.return_route.wf()
    }
}

impl Default for Message {
    fn default() -> (r: Message)
        ensures
            r@.onward.len() == 0,
            r@.back.len() == 0,
            r@.body == seq![0u8],
            r.wf(),
    {
        let r = Message {
            onward_route: Route { addresses: Vec::new() },
            return_route: Route { addresses: Vec::new() },
            message_body: vec![0u8],
        };
        assert(r@.onward =~= Seq::empty());
        assert(r@.back =~= Seq::empty());
        r
    }
}

/// Whether both routes fit their count bytes.
pub open spec fn message_encodable(m: MessageModel) -> bool {
    route_encodable(m.onward) && route_encodable(m.back)
}

/// The onward route, the return route, then the body as it is.
pub open spec fn message_wire(m: MessageModel) -> Seq<u8> {
    route_wire(m.onward) + route_wire(m.back) + m.body
}

/// Reads both routes, then takes all that is left as the body.
pub open spec fn message_parse(s: Seq<u8>) -> Result<(MessageModel, nat), CodecError> {
    match route_parse(s) {
        Ok((onward, n)) => match route_parse(s.subrange(n as int, s.len() as int)) {
            Ok((back, m)) => Ok(
                (
                    MessageModel { onward, back, body: s.subrange(n + m as int, s.len() as int) },
                    s.len(),
                ),
            ),
            Err(e) => Err(e),
        },
        Err(e) => Err(e),
    }
}

impl Codec for Message {
    type Inner = Message;

    open spec fn well_formed(t: &Message) -> bool {
        t.wf()
    }

    open spec fn encodable(t: MessageModel) -> bool {
        message_encodable(t)
    }

    open spec fn wire(t: MessageModel) -> Seq<u8> {
        message_wire(t)
    }

    open spec fn parse(s: Seq<u8>) -> Result<(MessageModel, nat), CodecError> {
        message_parse(s)
    }

    fn encode(msg: &Message, u: &mut Vec<u8>) -> (r: Result<(), CodecError>) {
        if msg.onward_route.addresses.len() > ROUTE_CAPACITY
            || msg.return_route.addresses.len() > ROUTE_CAPACITY {
            return Err(CodecError::RangeExceeded);
        }
        let _ = Route::encode(&msg.onward_route, u);
        let _ = Route::encode(&msg.return_route, u);
        u.extend_from_slice(msg.message_body.as_slice());
        assert(u@ =~= old(u)@ + message_wire(msg@));
        Ok(())
    }

    fn decode(s: &[u8]) -> (r: Result<(Message, &[u8]), CodecError>) {
        let (onward_route, w) = match Route::decode(s) {
            Ok(p) => p,
            Err(e) => return Err(e),
        };
        let (return_route, w) = match Route::decode(w) {
            Ok(p) => p,
            Err(e) => return Err(e),
        };
        let message_body = vstd::slice::slice_to_vec(w);
        let end = vstd::slice::slice_subrange(w, w.len(), w.len());
        let msg = Message { onward_route, return_route, message_body };
        proof {
            let n = (s@.len() - w@.len()) as int;
            assert(msg@.body =~= s@.subrange(n, s@.len() as int));
            assert(end@ =~= s@.subrange(s@.len() as int, s@.len() as int));
        }
        Ok((msg, end))
    }

    open spec fn decodes_boxed() -> bool {
        true
    }

    fn decode_boxed(s: &[u8]) -> (r: Result<(Box<Message>, &[u8]), CodecError>) {
        match Message::decode(s) {
            Ok((msg, rest)) => Ok((Box::new(msg), rest)),
            Err(e) => Err(e),
        }
    }
}

/// A message whose routes hold at most `ROUTE_CAPACITY` addresses each, none
/// of them TCP, decodes from its wire form to the same routes and the same
/// body, consuming the whole of it.
pub proof fn lemma_message_round_trip(m: Message)
    requires
        m.onward_route.addresses@.len() <= ROUTE_CAPACITY,
        m.return_route.addresses@.len() <= ROUTE_CAPACITY,
        forall|i: int|
            0 <= i < m.onward_route.addresses@.len() ==> !(
            #[trigger] m.onward_route.addresses@[i] is TcpAddress),
        forall|i: int|
            0 <= i < m.return_route.addresses@.len() ==> !(
            #[trigger] m.return_route.addresses@[i] is TcpAddress),
    ensures
        message_parse(message_wire(m@)) == Ok::<(MessageModel, nat), CodecError>(
            (m@, message_wire(m@).len()),
        ),
{
    let s = message_wire(m@);
    let rest = route_wire(m@.back) + m@.body;
    assert(s =~= route_wire(m@.onward) + rest);
    lemma_route_round_trip(m.onward_route, rest);
    let n = route_wire(m@.onward).len();
    assert(s.subrange(n as int, s.len() as int) =~= route_wire(m@.back) + m@.body);
    lemma_route_round_trip(m.return_route, m@.body);
    let k = route_wire(m@.back).len();
    assert(s.subrange(n + k as int, s.len() as int) =~= m@.body);
}

/// Why the body of a message could not be read or written.
#[derive(Clone, Copy, Debug, PartialEq, Eq, Structural)]
pub enum BodyError {
    /// The buffer to read into is shorter than the body.
    BufferTooSmall,
    /// The message already has a body, which a write does not replace.
    BodyPresent,
}

impl Message {
    /// Copies the body to the front of `buf` and returns its length; the rest
    /// of `buf` is left as it was.
    pub fn read(&self, buf: &mut [u8]) -> (r: Result<usize, BodyError>)
        ensures
            old(buf)@.len() < self.message_body@.len() ==> r == Err::<usize, BodyError>(
                BodyError::BufferTooSmall,
            ) && final(buf)@ == old(buf)@,
            old(buf)@.len() >= self.message_body@.len() ==> r == Ok::<usize, BodyError>(
                self.message_body@.len() as usize,
            ) && final(buf)@ == self.message_body@ + old(buf)@.subrange(
                self.message_body@.len() as int,
                old(buf)@.len() as int,
            ),
    {
        let n: usize = self.message_body.len();
        if buf.len() < n {
            return Err(BodyError::BufferTooSmall);
        }
        for i in 0..n
            invariant
                n == self.message_body@.len(),
                n <= buf@.len(),
                buf@.len() == old(buf)@.len(),
                forall|j: int| 0 <= j < i ==> buf@[j] == self.message_body@[j],
                forall|j: int| n <= j < buf@.len() ==> buf@[j] == old(buf)@[j],
        {
            buf[i] = self.message_body[i];
        }
        assert(buf@ =~= self.message_body@ + old(buf)@.subrange(n as int, old(buf)@.len() as int));
        Ok(n)
    }

    /// Takes `buf` as the body of a message that has none, and returns the
    /// new body's length; a message that has a body is left as it was.
    pub fn write(&mut self, buf: &[u8]) -> (r: Result<usize, BodyError>)
        ensures
            old(self).message_body@.len() != 0 ==> r == Err::<usize, BodyError>(
                BodyError::BodyPresent,
            ) && final(self)@ == old(self)@,
            old(self).message_body@.len() == 0 ==> r == Ok::<usize, BodyError>(buf@.len() as usize)
                && final(self)@ == (MessageModel { body: buf@, ..old(self)@ }),
            final(self).onward_route == old(self).onward_route,
            final(self).return_route == old(self).return_route,
    {
        if self.message_body.len() != 0 {
            return Err(BodyError::BodyPresent);
        }
        self.message_body.extend_from_slice(buf);
        assert(self.message_body@ =~= buf@);
        Ok(self.message_body.len())
    }
}

/// The framing version in effect, carried by the transport beside the
/// message.
#[derive(Clone, Copy, Debug, PartialEq, Eq, Structural)]
pub struct WireProtocolVersion {
    pub v: u16,
}

impl Default for WireProtocolVersion {
    fn default() -> (r: WireProtocolVersion)
        ensures
            r.v == WIRE_PROTOCOL_VERSION,
    {
        WireProtocolVersion { v: WIRE_PROTOCOL_VERSION }
    }
}

} // verus!
