//! Frame dispatch of the server: which frame, if any, answers an inbound one.

use crate::frames::{FrameView, HelloAck, LoquiFrame, Response};
use vstd::prelude::*;

verus! {

/// Ping interval that every `HelloAck` announces, in milliseconds.
pub const PING_INTERVAL_MS: u32 = 100;

/// The answer to an inbound frame. A `Request` is echoed as a `Response`
/// with the same flags, sequence id and payload. A `Hello` is acknowledged
/// with its own flags, the fixed ping interval and no encoding or
/// compression, whatever it offered. Nothing answers any other frame.
pub open spec fn reply_to(frame: FrameView) -> Option<FrameView> {
    match frame {
        FrameView::Request { flags, sequence_id, payload } => Some(
            FrameView::Response { flags, sequence_id, payload },
        ),
        FrameView::Hello { flags, .. } => Some(
            FrameView::HelloAck {
                flags,
                ping_interval_ms: PING_INTERVAL_MS,
                encoding: Seq::empty(),
                compression: Seq::empty(),
            },
        ),
        _ => None,
    }
}

/// Handles one inbound frame, independently of any frame before it.
pub fn handle_frame(frame: LoquiFrame) -> (reply: Option<LoquiFrame>)
    ensures
        match reply {
            Some(out) => reply_to(frame@) == Some(out@),
            None => reply_to(frame@) is None,
        },
        frame@ matches FrameView::Request { flags, sequence_id, payload } ==> reply matches Some(
            out,
        ) && out@ == (FrameView::Response { flags, sequence_id, payload }),
        frame@ matches FrameView::Hello { flags, .. } ==> reply matches Some(out) && out@ == (
            FrameView::HelloAck {
                flags,
                ping_interval_ms: 100,
                encoding: Seq::empty(),
                compression: Seq::empty(),
            }),
        !(frame@ is Request) && !(frame@ is Hello) ==> reply is None,
{
    match frame {
        LoquiFrame::Request(request) => Some(
            LoquiFrame::Response(
                Response {
                    flags: request.flags,
                    sequence_id: request.sequence_id,
                    payload: request.payload,
                },
            ),
        ),
        LoquiFrame::Hello(hello) => Some(
            LoquiFrame::HelloAck(
                HelloAck {
                    flags: hello.flags,
                    ping_interval_ms: PING_INTERVAL_MS,
                    encoding: String::new(),
                    compression: String::new(),
                },
            ),
        ),
        _ => None,
    }
}


} // verus!
