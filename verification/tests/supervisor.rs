use futures::sync::mpsc::unbounded;
use futures::Stream;
use loqui::error::LoquiError;
use loqui::supervisor::{submission_outcome, ConnectionHandler, Supervisor};

struct Handler;

impl ConnectionHandler for Handler {
    type InternalEvent = String;
}

#[test]
fn events_reach_the_receiving_half_in_submission_order() {
    let (supervisor, receiver) = Supervisor::<Handler>::channel();
    assert_eq!(supervisor.event("first".to_string()), Ok(()));
    assert_eq!(supervisor.event("second".to_string()), Ok(()));
    assert_eq!(supervisor.event("third".to_string()), Ok(()));
    drop(supervisor);
    let received: Vec<String> = receiver.wait().map(|event| event.unwrap()).collect();
    assert_eq!(received, vec!["first", "second", "third"]);
}

#[test]
fn event_fails_once_the_loop_is_gone() {
    let (supervisor, receiver) = Supervisor::<Handler>::channel();
    assert_eq!(supervisor.event("kept".to_string()), Ok(()));
    drop(receiver);
    assert_eq!(
        supervisor.event("lost".to_string()),
        Err(LoquiError::ConnectionSupervisorDead)
    );
    assert_eq!(
        supervisor.event("lost again".to_string()),
        Err(LoquiError::ConnectionSupervisorDead)
    );
}

#[test]
fn each_channel_is_its_own_queue() {
    let (first, first_receiver) = Supervisor::<Handler>::channel();
    let (second, second_receiver) = Supervisor::<Handler>::channel();
    drop(first_receiver);
    assert_eq!(first.event("a".to_string()), Err(LoquiError::ConnectionSupervisorDead));
    assert_eq!(second.event("b".to_string()), Ok(()));
    drop(second);
    let received: Vec<String> = second_receiver.wait().map(|event| event.unwrap()).collect();
    assert_eq!(received, vec!["b"]);
}

#[test]
fn accepted_send_is_a_success() {
    let (sender, _receiver) = unbounded::<u8>();
    assert_eq!(submission_outcome(sender.unbounded_send(1)), Ok(()));
}

#[test]
fn refused_send_is_a_dead_supervisor() {
    let (sender, receiver) = unbounded::<u8>();
    drop(receiver);
    assert_eq!(
        submission_outcome(sender.unbounded_send(1)),
        Err(LoquiError::ConnectionSupervisorDead)
    );
}

#[test]
fn every_error_has_its_own_message() {
    assert_eq!(LoquiError::ConnectionSupervisorDead.message(), "connection supervisor dead");
    assert_eq!(LoquiError::InvalidAddress.message(), "invalid listen address");
    assert_eq!(LoquiError::BindFailed.message(), "could not bind the listen address");
}
