use middle_server::errors::HandlerError;
use middle_server::session::{Stage, Supervisor, SLIDE_SIZE, WINDOW_SIZE};

const ALL: [Stage; 4] =
    [Stage::ClientToServer, Stage::ServerToClient, Stage::PcmProcessing, Stage::WindowProcessing];

#[test]
fn first_stage_to_end_ends_the_session() {
    let mut s = Supervisor::new();
    assert!(!s.is_over());
    for stage in ALL {
        assert!(!s.must_stop(stage));
    }
    assert!(s.stage_finished(Stage::ServerToClient, Ok(())));
    assert!(s.is_over());
    assert!(!s.must_stop(Stage::ServerToClient));
    assert!(s.must_stop(Stage::ClientToServer));
    assert!(s.must_stop(Stage::PcmProcessing));
    assert!(s.must_stop(Stage::WindowProcessing));
    assert!(!s.stage_finished(Stage::PcmProcessing, Err(HandlerError::MpscVecU8SenderError)));
    assert_eq!(s.outcome(), Some(Ok(())));
}

#[test]
fn first_error_is_the_session_outcome() {
    let mut s = Supervisor::new();
    assert!(s.stage_finished(
        Stage::ClientToServer,
        Err(HandlerError::UnexpectedMessageError("hello".to_string()))
    ));
    assert!(!s.stage_finished(Stage::WindowProcessing, Ok(())));
    let outcome = s.outcome().expect("over").expect_err("failed");
    assert_eq!(outcome.status_code, 400);
    assert_eq!(outcome.message, "UnexpectedMessageError: hello");
}

#[test]
fn unfinished_session_has_no_outcome() {
    assert!(Supervisor::new().outcome().is_none());
}

#[test]
fn default_window_policy_overlaps_by_half() {
    assert_eq!(WINDOW_SIZE, 200);
    assert_eq!(SLIDE_SIZE, 100);
}
