use loqui::dispatch::handle_frame;
use loqui::error::LoquiError;
use loqui::frames::{Hello, HelloAck, LoquiFrame, Request, Response};
use loqui::server::{
    Acceptor, AcceptorAction, AcceptorOutcome, AcceptorPhase, ConnectionAction,
    ConnectionOutcome, ConnectionPhase, ServerConnection, MAX_FRAME_SIZE,
};
use loqui::upgrade::upgrade_response;

const RESPONSE: &[u8] =
    b"HTTP/1.1 101 Switching Protocols\r\nUpgrade: loqui\r\nConnection: Upgrade\r\n\r\n";

fn upgraded() -> ServerConnection {
    let mut task = ServerConnection::new();
    task.step(ConnectionOutcome::Chunk(b"Upgrade: loqui".to_vec())).unwrap();
    task.step(ConnectionOutcome::Written).unwrap();
    assert_eq!(task.phase(), ConnectionPhase::AwaitingFrame);
    task
}

fn request(sequence_id: u32) -> LoquiFrame {
    LoquiFrame::Request(Request { flags: 1, sequence_id, payload: vec![1, 2, 3] })
}

#[test]
fn upgrade_request_gets_the_fixed_response_then_frames_are_read() {
    let mut task = ServerConnection::new();
    assert_eq!(task.phase(), ConnectionPhase::AwaitingUpgrade);
    let asked = task.step(ConnectionOutcome::Chunk(
        b"GET /ws HTTP/1.1\r\nUpgrade: loqui\r\n\r\n".to_vec(),
    ));
    assert_eq!(asked, Ok(ConnectionAction::SendUpgrade(RESPONSE.to_vec())));
    assert_eq!(task.phase(), ConnectionPhase::SendingUpgrade);
    assert_eq!(task.step(ConnectionOutcome::Written), Ok(ConnectionAction::ReadFrame));
    assert_eq!(task.phase(), ConnectionPhase::AwaitingFrame);
}

#[test]
fn upgrade_action_carries_what_upgrade_response_gives() {
    let mut task = ServerConnection::new();
    let asked = task.step(ConnectionOutcome::Chunk(b"UPGRADE".to_vec()));
    assert_eq!(asked, Ok(ConnectionAction::SendUpgrade(upgrade_response())));
}

#[test]
fn chunk_without_marker_is_followed_by_another_read() {
    let mut task = ServerConnection::new();
    let chunks: [&[u8]; 4] = [b"GET /ws HTTP/1.1\r\n", b"Host: example\r\n", b"Upgr", b"ade"];
    for chunk in chunks {
        assert_eq!(
            task.step(ConnectionOutcome::Chunk(chunk.to_vec())),
            Ok(ConnectionAction::ReadChunk)
        );
        assert_eq!(task.phase(), ConnectionPhase::AwaitingUpgrade);
    }
    assert_eq!(
        task.step(ConnectionOutcome::Chunk(b"Connection: upgrade\r\n".to_vec())),
        Ok(ConnectionAction::SendUpgrade(RESPONSE.to_vec()))
    );
}

#[test]
fn closed_socket_before_upgrade_ends_the_task() {
    let mut task = ServerConnection::new();
    assert_eq!(task.step(ConnectionOutcome::Chunk(Vec::new())), Ok(ConnectionAction::Close));
    assert_eq!(task.phase(), ConnectionPhase::Closed);
}

#[test]
fn failed_read_before_upgrade_ends_the_task() {
    let mut task = ServerConnection::new();
    task.step(ConnectionOutcome::Chunk(b"GET /".to_vec())).unwrap();
    assert_eq!(task.step(ConnectionOutcome::ReadFailed), Ok(ConnectionAction::Close));
    assert_eq!(task.phase(), ConnectionPhase::Closed);
}

#[test]
fn failed_write_of_the_upgrade_response_ends_the_task() {
    let mut task = ServerConnection::new();
    task.step(ConnectionOutcome::Chunk(b"upgrade".to_vec())).unwrap();
    assert_eq!(task.step(ConnectionOutcome::WriteFailed), Ok(ConnectionAction::Close));
    assert_eq!(task.phase(), ConnectionPhase::Closed);
}

#[test]
fn no_frame_is_dispatched_before_the_upgrade() {
    let mut task = ServerConnection::new();
    assert_eq!(
        task.step(ConnectionOutcome::Frame(request(1))),
        Err(ConnectionOutcome::Frame(request(1)))
    );
    assert_eq!(task.phase(), ConnectionPhase::AwaitingUpgrade);
    task.step(ConnectionOutcome::Chunk(b"upgrade".to_vec())).unwrap();
    assert_eq!(
        task.step(ConnectionOutcome::Frame(request(1))),
        Err(ConnectionOutcome::Frame(request(1)))
    );
    assert_eq!(task.phase(), ConnectionPhase::SendingUpgrade);
}

#[test]
fn request_is_answered_before_the_next_frame_is_read() {
    let mut task = upgraded();
    let asked = task.step(ConnectionOutcome::Frame(request(41)));
    assert_eq!(
        asked,
        Ok(ConnectionAction::SendFrame(LoquiFrame::Response(Response {
            flags: 1,
            sequence_id: 41,
            payload: vec![1, 2, 3],
        })))
    );
    assert_eq!(task.phase(), ConnectionPhase::SendingReply);
    assert_eq!(
        task.step(ConnectionOutcome::Frame(request(42))),
        Err(ConnectionOutcome::Frame(request(42)))
    );
    assert_eq!(task.step(ConnectionOutcome::Written), Ok(ConnectionAction::ReadFrame));
    assert_eq!(task.phase(), ConnectionPhase::AwaitingFrame);
}

#[test]
fn hello_is_answered_with_hello_ack() {
    let mut task = upgraded();
    let asked = task.step(ConnectionOutcome::Frame(LoquiFrame::Hello(Hello {
        flags: 6,
        version: 1,
        encodings: vec!["json".to_string()],
        compressions: vec!["gzip".to_string()],
    })));
    assert_eq!(
        asked,
        Ok(ConnectionAction::SendFrame(LoquiFrame::HelloAck(HelloAck {
            flags: 6,
            ping_interval_ms: 100,
            encoding: String::new(),
            compression: String::new(),
        })))
    );
}

#[test]
fn answers_are_those_of_the_dispatcher() {
    let frames = vec![
        request(1),
        LoquiFrame::Other { opcode: 3, flags: 0, body: vec![9] },
        LoquiFrame::Response(Response { flags: 0, sequence_id: 1, payload: Vec::new() }),
        request(2),
    ];
    let mut task = upgraded();
    for frame in frames {
        let asked = task.step(ConnectionOutcome::Frame(frame.clone())).unwrap();
        match handle_frame(frame) {
            Some(reply) => {
                assert_eq!(asked, ConnectionAction::SendFrame(reply));
                assert_eq!(task.step(ConnectionOutcome::Written), Ok(ConnectionAction::ReadFrame));
            }
            None => assert_eq!(asked, ConnectionAction::ReadFrame),
        }
        assert_eq!(task.phase(), ConnectionPhase::AwaitingFrame);
    }
}

#[test]
fn unhandled_frame_is_followed_by_the_next_read() {
    let mut task = upgraded();
    let frame = LoquiFrame::Other { opcode: 3, flags: 0, body: Vec::new() };
    assert_eq!(task.step(ConnectionOutcome::Frame(frame)), Ok(ConnectionAction::ReadFrame));
    assert_eq!(task.phase(), ConnectionPhase::AwaitingFrame);
}

#[test]
fn failed_write_of_an_answer_ends_the_task() {
    let mut task = upgraded();
    task.step(ConnectionOutcome::Frame(request(1))).unwrap();
    assert_eq!(task.step(ConnectionOutcome::WriteFailed), Ok(ConnectionAction::Close));
    assert_eq!(task.phase(), ConnectionPhase::Closed);
}

#[test]
fn failed_decode_ends_the_task() {
    let mut task = upgraded();
    assert_eq!(task.step(ConnectionOutcome::DecodeFailed), Ok(ConnectionAction::Close));
    assert_eq!(task.phase(), ConnectionPhase::Closed);
}

#[test]
fn end_of_stream_ends_the_task() {
    let mut task = upgraded();
    assert_eq!(task.step(ConnectionOutcome::StreamEnded), Ok(ConnectionAction::Close));
    assert_eq!(task.phase(), ConnectionPhase::Closed);
}

#[test]
fn closed_task_takes_nothing() {
    let mut task = upgraded();
    task.step(ConnectionOutcome::StreamEnded).unwrap();
    let outcomes = vec![
        ConnectionOutcome::Chunk(b"upgrade".to_vec()),
        ConnectionOutcome::ReadFailed,
        ConnectionOutcome::Written,
        ConnectionOutcome::WriteFailed,
        ConnectionOutcome::Frame(request(1)),
        ConnectionOutcome::DecodeFailed,
        ConnectionOutcome::StreamEnded,
    ];
    for outcome in outcomes {
        assert_eq!(task.step(outcome.clone()), Err(outcome));
        assert_eq!(task.phase(), ConnectionPhase::Closed);
    }
}

#[test]
fn task_hands_back_an_outcome_it_does_not_await() {
    let mut task = ServerConnection::new();
    for outcome in [
        ConnectionOutcome::Written,
        ConnectionOutcome::WriteFailed,
        ConnectionOutcome::DecodeFailed,
        ConnectionOutcome::StreamEnded,
    ] {
        assert_eq!(task.step(outcome.clone()), Err(outcome));
        assert_eq!(task.phase(), ConnectionPhase::AwaitingUpgrade);
    }
    let mut framed = upgraded();
    for outcome in [
        ConnectionOutcome::Chunk(b"upgrade".to_vec()),
        ConnectionOutcome::ReadFailed,
        ConnectionOutcome::Written,
        ConnectionOutcome::WriteFailed,
    ] {
        assert_eq!(framed.step(outcome.clone()), Err(outcome));
        assert_eq!(framed.phase(), ConnectionPhase::AwaitingFrame);
    }
}

#[test]
fn frame_cap_is_fifty_thousand_bytes() {
    assert_eq!(MAX_FRAME_SIZE, 50000);
}

#[test]
fn acceptor_starts_up_and_accepts_without_end() {
    let mut acceptor = Acceptor::new();
    assert_eq!(acceptor.phase(), AcceptorPhase::Parsing);
    assert_eq!(acceptor.step(AcceptorOutcome::AddressParsed), Some(AcceptorAction::Bind));
    assert_eq!(acceptor.phase(), AcceptorPhase::Binding);
    assert_eq!(acceptor.step(AcceptorOutcome::Bound), Some(AcceptorAction::Accept));
    assert_eq!(acceptor.phase(), AcceptorPhase::Accepting);
    for round in 0..100 {
        if round % 3 == 0 {
            assert_eq!(
                acceptor.step(AcceptorOutcome::AcceptFailed),
                Some(AcceptorAction::ReportAndAccept)
            );
        } else {
            assert_eq!(
                acceptor.step(AcceptorOutcome::Accepted),
                Some(AcceptorAction::SpawnConnection)
            );
        }
        assert_eq!(acceptor.phase(), AcceptorPhase::Accepting);
    }
}

#[test]
fn bad_address_aborts_startup() {
    let mut acceptor = Acceptor::new();
    assert_eq!(
        acceptor.step(AcceptorOutcome::AddressInvalid),
        Some(AcceptorAction::Abort(LoquiError::InvalidAddress))
    );
    assert_eq!(acceptor.phase(), AcceptorPhase::Failed);
}

#[test]
fn failed_bind_aborts_startup() {
    let mut acceptor = Acceptor::new();
    acceptor.step(AcceptorOutcome::AddressParsed);
    assert_eq!(
        acceptor.step(AcceptorOutcome::BindFailed),
        Some(AcceptorAction::Abort(LoquiError::BindFailed))
    );
    assert_eq!(acceptor.phase(), AcceptorPhase::Failed);
}

#[test]
fn acceptor_asks_nothing_on_an_outcome_it_does_not_await() {
    let all = [
        AcceptorOutcome::AddressParsed,
        AcceptorOutcome::AddressInvalid,
        AcceptorOutcome::Bound,
        AcceptorOutcome::BindFailed,
        AcceptorOutcome::Accepted,
        AcceptorOutcome::AcceptFailed,
    ];
    let mut fresh = Acceptor::new();
    for outcome in &all[2..] {
        assert_eq!(fresh.step(*outcome), None);
        assert_eq!(fresh.phase(), AcceptorPhase::Parsing);
    }
    let mut binding = Acceptor::new();
    binding.step(AcceptorOutcome::AddressParsed);
    for outcome in [all[0], all[1], all[4], all[5]] {
        assert_eq!(binding.step(outcome), None);
        assert_eq!(binding.phase(), AcceptorPhase::Binding);
    }
    let mut accepting = binding;
    accepting.step(AcceptorOutcome::Bound);
    for outcome in &all[..4] {
        assert_eq!(accepting.step(*outcome), None);
        assert_eq!(accepting.phase(), AcceptorPhase::Accepting);
    }
    let mut failed = Acceptor::new();
    failed.step(AcceptorOutcome::AddressInvalid);
    for outcome in all {
        assert_eq!(failed.step(outcome), None);
        assert_eq!(failed.phase(), AcceptorPhase::Failed);
    }
}
