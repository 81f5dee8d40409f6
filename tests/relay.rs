use middle_server::audio::AudioInfo;
use middle_server::errors::HandlerError;
use middle_server::relay::{
    handle_client_to_server, handle_server_to_client, CloseFrame, Frame, RelayAction,
};

#[test]
fn client_hello_is_a_protocol_violation() {
    let action = handle_client_to_server(Frame::Text("hello".to_string()));
    assert_eq!(
        action,
        RelayAction::Fail(HandlerError::UnexpectedMessageError("hello".to_string()))
    );
}

#[test]
fn client_control_words_are_forwarded() {
    for word in ["open", "accept"] {
        let action = handle_client_to_server(Frame::Text(word.to_string()));
        assert_eq!(action, RelayAction::Forward(Frame::Text(word.to_string())));
    }
    let near = handle_client_to_server(Frame::Text("open ".to_string()));
    assert!(matches!(near, RelayAction::Fail(HandlerError::UnexpectedMessageError(_))));
}

#[test]
fn client_binary_and_control_frames_are_refused() {
    assert_eq!(
        handle_client_to_server(Frame::Binary(vec![1, 2])),
        RelayAction::Fail(HandlerError::UnexpectedMessageTypeError)
    );
    assert_eq!(
        handle_client_to_server(Frame::Other),
        RelayAction::Fail(HandlerError::UnexpectedMessageTypeError)
    );
}

#[test]
fn close_frames_pass_through_both_legs() {
    let close = Some(CloseFrame { code: 1000, reason: "bye".to_string() });
    assert_eq!(
        handle_client_to_server(Frame::Close(close.clone())),
        RelayAction::ForwardClose(close.clone())
    );
    assert_eq!(
        handle_server_to_client(Frame::Close(close.clone())),
        RelayAction::ForwardClose(close)
    );
    assert_eq!(handle_server_to_client(Frame::Close(None)), RelayAction::ForwardClose(None));
}

#[test]
fn server_handshake_updates_format_and_is_forwarded() {
    let text = "2 44100 16 int".to_string();
    let expected = AudioInfo::from_handshake(&text).unwrap();
    assert_eq!(
        handle_server_to_client(Frame::Text(text.clone())),
        RelayAction::UpdateFormat(expected, text)
    );
}

#[test]
fn server_bad_handshake_ends_the_leg() {
    assert_eq!(
        handle_server_to_client(Frame::Text("1 44100".to_string())),
        RelayAction::Fail(HandlerError::ParseAudioInfoError("1 44100".to_string()))
    );
}

#[test]
fn server_binary_goes_to_the_aggregator() {
    assert_eq!(
        handle_server_to_client(Frame::Binary(vec![3, 4, 5])),
        RelayAction::Enqueue(vec![3, 4, 5])
    );
    assert_eq!(
        handle_server_to_client(Frame::Other),
        RelayAction::Fail(HandlerError::UnexpectedMessageTypeError)
    );
}
