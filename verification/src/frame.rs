//! WebSocket frames as the gateway sees them: a kind and an opaque payload.

use vstd::prelude::*;

verus! {

/// One discrete WebSocket message unit.
///
/// Payloads are relayed as opaque bytes; a text payload is carried as its
/// UTF-8 encoding.
#[derive(Debug, PartialEq, Eq)]
pub enum Frame {
    Ping(Vec<u8>),
    Pong(Vec<u8>),
    Text(Vec<u8>),
    Binary(Vec<u8>),
    Close,
}

/// Mathematical value of a [`Frame`].
pub enum FrameView {
    Ping(Seq<u8>),
    Pong(Seq<u8>),
    Text(Seq<u8>),
    Binary(Seq<u8>),
    Close,
}

impl View for Frame {
    type V = FrameView;

    open spec fn view(&self) -> FrameView {
        match *self {
            Frame::Ping(p) => FrameView::Ping(p@),
            Frame::Pong(p) => FrameView::Pong(p@),
            Frame::Text(p) => FrameView::Text(p@),
            Frame::Binary(p) => FrameView::Binary(p@),
            Frame::Close => FrameView::Close,
        }
    }
}

impl DeepView for Frame {
    type V = FrameView;

    open spec fn deep_view(&self) -> FrameView {
        self@
    }
}

impl FrameView {
    /// Text and Binary frames carry relayed data; the rest is control traffic.
    pub open spec fn is_data(self) -> bool {
        self is Text || self is Binary
    }
}

/// Why an inbound message could not be taken as a [`Frame`].
#[derive(Debug, Clone, Copy, PartialEq, Eq, Structural)]
pub enum ProtocolError {
    /// The bytes on the wire did not form a valid frame.
    Malformed,
    /// A well-formed frame of a kind the gateway does not handle.
    Unrecognized,
}

/// Copies a payload byte for byte.
pub fn copy_payload(payload: &Vec<u8>) -> (copy: Vec<u8>)
    ensures
        copy@ == payload@,
{
    let mut copy: Vec<u8> = Vec::with_capacity(payload.len());
    let mut i: usize = 0;
    while i < payload.len()
        invariant
            i <= payload.len(),
            copy@ == payload@.take(i as int),
        decreases payload.len() - i,
    {
        copy.push(payload[i]);
        i = i + 1;
    }
    copy
}

impl Frame {
    /// True for Text and Binary frames.
    pub fn is_data(&self) -> (data: bool)
        ensures
            data == self@.is_data(),
    {
        match self {
            Frame::Text(_) => true,
            Frame::Binary(_) => true,
            _ => false,
        }
    }

    /// An independent copy of this frame with the same kind and payload.
    pub fn duplicate(&self) -> (copy: Frame)
        ensures
            copy@ == self@,
    {
        match self {
            Frame::Ping(p) => Frame::Ping(copy_payload(p)),
            Frame::Pong(p) => Frame::Pong(copy_payload(p)),
            Frame::Text(p) => Frame::Text(copy_payload(p)),
            Frame::Binary(p) => Frame::Binary(copy_payload(p)),
            Frame::Close => Frame::Close,
        }
    }
}

impl Clone for Frame {
    fn clone(&self) -> (copy: Frame)
        ensures
            copy@ == self@,
    {
        self.duplicate()
    }
}

} // verus!
