//! The frames a shard's WebSocket session yields, and which of them carry
//! a payload that is published to the broker.
use vstd::prelude::*;

verus! {

/// A WebSocket message, tagged with its opcode variant.
pub enum Frame {
    Binary(Vec<u8>),
    Text(Vec<u8>),
    Ping(Vec<u8>),
    Pong(Vec<u8>),
    Close(u16, Vec<u8>),
}

/// Whether a frame carries gateway event bytes to publish. Ping and pong
/// are handled by the gateway library; a close surfaces through the error
/// path as a connection-closed failure.
pub open spec fn is_payload_frame(f: Frame) -> bool {
    f is Binary || f is Text
}

/// The event bytes a payload frame carries. A text frame is published as
/// its raw bytes, whether or not they are valid text.
pub open spec fn payload_of(f: Frame) -> Seq<u8>
    recommends
        is_payload_frame(f),
{
    match f {
        Frame::Binary(b) => b@,
        Frame::Text(b) => b@,
        Frame::Ping(_) => Seq::empty(),
        Frame::Pong(_) => Seq::empty(),
        Frame::Close(_, _) => Seq::empty(),
    }
}

impl Frame {
    /// A borrow of the payload a binary or text frame carries; control
    /// frames carry none.
    pub fn payload_ref(&self) -> (r: Option<&Vec<u8>>)
        ensures
            r is Some <==> is_payload_frame(*self),
            r matches Some(b) ==> b@ == payload_of(*self),
    {
        match self {
            Frame::Binary(b) => Some(b),
            Frame::Text(b) => Some(b),
            Frame::Ping(_) => None,
            Frame::Pong(_) => None,
            Frame::Close(_, _) => None,
        }
    }

    /// The bytes to publish for this frame: exactly the payload of a
    /// binary or text frame; nothing for a control frame.
    pub fn into_payload(self) -> (r: Option<Vec<u8>>)
        ensures
            r is Some <==> is_payload_frame(self),
            r matches Some(b) ==> b@ == payload_of(self),
    {
        match self {
            Frame::Binary(b) => Some(b),
            Frame::Text(b) => Some(b),
            Frame::Ping(_) => None,
            Frame::Pong(_) => None,
            Frame::Close(_, _) => None,
        }
    }
}

}
