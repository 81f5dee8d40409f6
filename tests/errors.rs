use middle_server::errors::{AppError, HandlerError};

#[test]
fn protocol_violations_are_bad_requests() {
    let a = AppError::from(HandlerError::UnexpectedMessageTypeError);
    assert_eq!(a.status_code, 400);
    assert_eq!(a.message, "UnexpectedMessageTypeError: unsupported message type received");
    let b = AppError::from(HandlerError::UnexpectedMessageError("hello".to_string()));
    assert_eq!(b.status_code, 400);
    assert_eq!(b.message, "UnexpectedMessageError: hello");
}

#[test]
fn other_errors_are_server_errors() {
    let cases = vec![
        (HandlerError::IoError("x".to_string()), "IoError: x"),
        (HandlerError::AxumError("x".to_string()), "AxumError: x"),
        (HandlerError::TokioTungsteniteError("x".to_string()), "TokioTungsteniteError: x"),
        (HandlerError::MpscVecU8SenderError, "MpscVecU8SenderError: channel closed"),
        (
            HandlerError::MpscWindowPacketSenderError,
            "MpscWindowPacketSenderError: channel closed",
        ),
        (HandlerError::TokioJoinError("x".to_string()), "TokioJoinError: x"),
        (HandlerError::RmpSerdeEncodeError("x".to_string()), "RmpSerdeEncodeError: x"),
        (
            HandlerError::ParseAudioInfoError("1 44100".to_string()),
            "ParseAudioInfoError: Invalid audio info format: 1 44100",
        ),
        (HandlerError::AudioInfoUndefinedError, "AudioInfoUndefinedError: Audio info is not set"),
        (HandlerError::PyError("x".to_string()), "PyError: x"),
    ];
    for (e, message) in cases {
        let a = AppError::from(e);
        assert_eq!(a.status_code, 500);
        assert_eq!(a.message, message);
    }
}
