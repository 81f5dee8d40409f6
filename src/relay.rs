use vstd::prelude::*;
use crate::audio::{chars_of, is_handshake, AudioInfo};
use crate::errors::HandlerError;

verus! {

/// A close frame: the numeric code and the reason, as either connection
/// carries them.
#[derive(Clone, Debug, PartialEq, Eq)]
pub struct CloseFrame {
    pub code: u16,
    pub reason: String,
}

/// A frame received on either connection of a session.
#[derive(Clone, Debug, PartialEq, Eq)]
pub enum Frame {
    Text(String),
    Binary(Vec<u8>),
    Close(Option<CloseFrame>),
    /// A ping, a pong, or a raw frame.
    Other,
}

/// What a relay leg does with one frame it received.
#[derive(Clone, Debug, PartialEq, Eq)]
pub enum RelayAction {
    /// Send this frame on the other connection and go on relaying.
    Forward(Frame),
    /// Send this close frame on the other connection, then end the leg normally.
    ForwardClose(Option<CloseFrame>),
    /// Replace the session's audio format with this one as a whole, then send
    /// the handshake text to the client.
    UpdateFormat(AudioInfo, String),
    /// Hand this PCM chunk to the aggregator.
    Enqueue(Vec<u8>),
    /// End the leg with this error; nothing is sent.
    Fail(HandlerError),
}

/// The two control words that a client may send upstream.
pub open spec fn is_control_word(s: Seq<char>) -> bool {
    s == seq!['o', 'p', 'e', 'n'] || s == seq!['a', 'c', 'c', 'e', 'p', 't']
}

fn control_word(text: &String) -> (r: bool)
    ensures
        r == is_control_word(text@),
{
    let c = chars_of(text.as_str());
    let open = c.len() == 4 && c[0] == 'o' && c[1] == 'p' && c[2] == 'e' && c[3] == 'n';
    let accept = c.len() == 6 && c[0] == 'a' && c[1] == 'c' && c[2] == 'c' && c[3] == 'e' && c[4]
        == 'p' && c[5] == 't';
    proof {
        if open {
            assert(c@ =~= seq!['o', 'p', 'e', 'n']);
        }
        if accept {
            assert(c@ =~= seq!['a', 'c', 'c', 'e', 'p', 't']);
        }
    }
    open || accept
}

/// The client-to-server leg: `open` and `accept` go upstream as they are, a
/// close frame goes upstream and ends the leg, any other text is a protocol
/// violation, and any other kind of frame is refused.
pub fn handle_client_to_server(message: Frame) -> (r: RelayAction)
    ensures
        match message {
            Frame::Text(t) => if is_control_word(t@) {
                r == RelayAction::Forward(Frame::Text(t))
            } else {
                r == RelayAction::Fail(HandlerError::UnexpectedMessageError(t))
            },
            Frame::Close(c) => r == RelayAction::ForwardClose(c),
            _ => r == RelayAction::Fail(HandlerError::UnexpectedMessageTypeError),
        },
{
    match message {
        Frame::Text(text) => {
            if control_word(&text) {
                RelayAction::Forward(Frame::Text(text))
            } else {
                RelayAction::Fail(HandlerError::UnexpectedMessageError(text))
            }
        },
        Frame::Close(close) => RelayAction::ForwardClose(close),
        _ => RelayAction::Fail(HandlerError::UnexpectedMessageTypeError),
    }
}

/// The server-to-client leg: a handshake text sets the audio format and goes
/// on to the client as it is, a text that is no handshake ends the leg, a
/// binary frame is a PCM chunk for the aggregator (it reaches the client only
/// inside an analysed window), a close frame goes to the client and ends the
/// leg, and any other kind of frame is refused.
pub fn handle_server_to_client(message: Frame) -> (r: RelayAction)
    ensures
        match message {
            Frame::Text(t) => if is_handshake(t@) {
                r matches RelayAction::UpdateFormat(info, fwd) && info.describes(t@) && fwd == t
            } else {
                r matches RelayAction::Fail(HandlerError::ParseAudioInfoError(m)) && m@ == t@
            },
            Frame::Binary(b) => r == RelayAction::Enqueue(b),
            Frame::Close(c) => r == RelayAction::ForwardClose(c),
            Frame::Other => r == RelayAction::Fail(HandlerError::UnexpectedMessageTypeError),
        },
{
    match message {
        Frame::Text(text) => match AudioInfo::from_handshake(text.as_str()) {
            Ok(info) => RelayAction::UpdateFormat(info, text),
            Err(e) => RelayAction::Fail(e),
        },
        Frame::Binary(binary) => RelayAction::Enqueue(binary),
        Frame::Close(close) => RelayAction::ForwardClose(close),
        Frame::Other => RelayAction::Fail(HandlerError::UnexpectedMessageTypeError),
    }
}

} // verus!
