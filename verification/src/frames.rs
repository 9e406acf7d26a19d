//! Protocol messages, as the codec hands them over and takes them back.

use vstd::prelude::*;

verus! {

/// Opens a session: the client's protocol version and what it can speak.
#[derive(Clone, Debug, PartialEq, Eq)]
pub struct Hello {
    pub flags: u8,
    pub version: u8,
    pub encodings: Vec<String>,
    pub compressions: Vec<String>,
}

/// Answers a `Hello`: the negotiated settings of the session.
#[derive(Clone, Debug, PartialEq, Eq)]
pub struct HelloAck {
    pub flags: u8,
    pub ping_interval_ms: u32,
    pub encoding: String,
    pub compression: String,
}

/// A call: the payload is opaque to this layer.
#[derive(Clone, Debug, PartialEq, Eq)]
pub struct Request {
    pub flags: u8,
    pub sequence_id: u32,
    pub payload: Vec<u8>,
}

/// The answer to the `Request` of the same `sequence_id`.
#[derive(Clone, Debug, PartialEq, Eq)]
pub struct Response {
    pub flags: u8,
    pub sequence_id: u32,
    pub payload: Vec<u8>,
}

/// One protocol message.
#[derive(Clone, Debug, PartialEq, Eq)]
pub enum LoquiFrame {
    Hello(Hello),
    HelloAck(HelloAck),
    Request(Request),
    Response(Response),
    /// A frame of any other kind, carried whole and never interpreted here.
    Other { opcode: u8, flags: u8, body: Vec<u8> },
}

/// Mathematical value of a frame.
pub enum FrameView {
    Hello { flags: u8, version: u8, encodings: Seq<Seq<char>>, compressions: Seq<Seq<char>> },
    HelloAck { flags: u8, ping_interval_ms: u32, encoding: Seq<char>, compression: Seq<char> },
    Request { flags: u8, sequence_id: u32, payload: Seq<u8> },
    Response { flags: u8, sequence_id: u32, payload: Seq<u8> },
    Other { opcode: u8, flags: u8, body: Seq<u8> },
}

impl View for LoquiFrame {
    type V = FrameView;

    open spec fn view(&self) -> FrameView {
        match *self {
            LoquiFrame::Hello(hello) => FrameView::Hello {
                flags: hello.flags,
                version: hello.version,
                encodings: hello.encodings.deep_view(),
                compressions: hello.compressions.deep_view(),
            },
            LoquiFrame::HelloAck(ack) => FrameView::HelloAck {
                flags: ack.flags,
                ping_interval_ms: ack.ping_interval_ms,
                encoding: ack.encoding@,
                compression: ack.compression@,
            },
            LoquiFrame::Request(request) => FrameView::Request {
                flags: request.flags,
                sequence_id: request.sequence_id,
                payload: request.payload@,
            },
            LoquiFrame::Response(response) => FrameView::Response {
                flags: response.flags,
                sequence_id: response.sequence_id,
                payload: response.payload@,
            },
            LoquiFrame::Other { opcode, flags, body } => FrameView::Other {
                opcode,
                flags,
                body: body@,
            },
        }
    }
}

} // verus!
