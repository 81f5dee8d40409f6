use vstd::prelude::*;

verus! {

/// Why a stage of a session ended with an error.
///
/// Errors that come from transport, channel, encoding or analysis layers carry
/// the text that those layers reported.
#[derive(Clone, Debug, PartialEq, Eq)]
pub enum HandlerError {
    /// A frame of a kind that the leg does not carry (binary, ping, ...).
    UnexpectedMessageTypeError,
    /// A text frame from the client that is neither `open` nor `accept`.
    UnexpectedMessageError(String),
    /// An I/O failure on a socket.
    IoError(String),
    /// A failure on the client-facing connection.
    AxumError(String),
    /// A failure on the server-facing connection.
    TokioTungsteniteError(String),
    /// The queue of PCM chunks was closed by its consumer.
    MpscVecU8SenderError,
    /// The queue of windows was closed by its consumer.
    MpscWindowPacketSenderError,
    /// A stage's task could not be joined.
    TokioJoinError(String),
    /// A result frame could not be encoded.
    RmpSerdeEncodeError(String),
    /// A handshake text that does not describe an audio format.
    ParseAudioInfoError(String),
    /// The audio format was read before any handshake set it.
    AudioInfoUndefinedError,
    /// The analysis of a window failed.
    PyError(String),
}

/// HTTP status: the request was malformed.
pub const BAD_REQUEST: u16 = 400;

/// HTTP status: the server failed.
pub const INTERNAL_SERVER_ERROR: u16 = 500;

/// What a client is told when a session fails.
#[derive(Clone, Debug, PartialEq, Eq)]
pub struct AppError {
    pub status_code: u16,
    pub message: String,
}

/// Protocol violations are the client's fault; everything else is the server's.
pub open spec fn status_of(error: HandlerError) -> u16 {
    match error {
        HandlerError::UnexpectedMessageTypeError => BAD_REQUEST,
        HandlerError::UnexpectedMessageError(_) => BAD_REQUEST,
        _ => INTERNAL_SERVER_ERROR,
    }
}

/// The message of an error: the variant's name, then what it carries.
pub open spec fn message_of(error: HandlerError) -> Seq<char> {
    match error {
        HandlerError::UnexpectedMessageTypeError =>
            "UnexpectedMessageTypeError: unsupported message type received"@,
        HandlerError::UnexpectedMessageError(e) => "UnexpectedMessageError: "@ + e@,
        HandlerError::IoError(e) => "IoError: "@ + e@,
        HandlerError::AxumError(e) => "AxumError: "@ + e@,
        HandlerError::TokioTungsteniteError(e) => "TokioTungsteniteError: "@ + e@,
        HandlerError::MpscVecU8SenderError => "MpscVecU8SenderError: channel closed"@,
        HandlerError::MpscWindowPacketSenderError =>
            "MpscWindowPacketSenderError: channel closed"@,
        HandlerError::TokioJoinError(e) => "TokioJoinError: "@ + e@,
        HandlerError::RmpSerdeEncodeError(e) => "RmpSerdeEncodeError: "@ + e@,
        HandlerError::ParseAudioInfoError(e) => "ParseAudioInfoError: Invalid audio info format: "@
            + e@,
        HandlerError::AudioInfoUndefinedError => "AudioInfoUndefinedError: Audio info is not set"@,
        HandlerError::PyError(e) => "PyError: "@ + e@,
    }
}

fn prefixed(prefix: &str, detail: &String) -> (r: String)
    ensures
        r@ == prefix@ + detail@,
{
    let mut r = String::from_str(prefix);
    r.append(detail.as_str());
    r
}

impl AppError {
    /// The status and message that a failed session reports.
    pub fn from(error: HandlerError) -> (r: AppError)
        ensures
            r.status_code == status_of(error),
            r.message@ == message_of(error),
    {
        match error {
            HandlerError::UnexpectedMessageTypeError => AppError {
                status_code: BAD_REQUEST,
                message: String::from_str(
                    "UnexpectedMessageTypeError: unsupported message type received",
                ),
            },
            HandlerError::UnexpectedMessageError(e) => AppError {
                status_code: BAD_REQUEST,
                message: prefixed("UnexpectedMessageError: ", &e),
            },
            HandlerError::IoError(e) => AppError {
                status_code: INTERNAL_SERVER_ERROR,
                message: prefixed("IoError: ", &e),
            },
            HandlerError::AxumError(e) => AppError {
                status_code: INTERNAL_SERVER_ERROR,
                message: prefixed("AxumError: ", &e),
            },
            HandlerError::TokioTungsteniteError(e) => AppError {
                status_code: INTERNAL_SERVER_ERROR,
                message: prefixed("TokioTungsteniteError: ", &e),
            },
            HandlerError::MpscVecU8SenderError => AppError {
                status_code: INTERNAL_SERVER_ERROR,
                message: String::from_str("MpscVecU8SenderError: channel closed"),
            },
            HandlerError::MpscWindowPacketSenderError => AppError {
                status_code: INTERNAL_SERVER_ERROR,
                message: String::from_str("MpscWindowPacketSenderError: channel closed"),
            },
            HandlerError::TokioJoinError(e) => AppError {
                status_code: INTERNAL_SERVER_ERROR,
                message: prefixed("TokioJoinError: ", &e),
            },
            HandlerError::RmpSerdeEncodeError(e) => AppError {
                status_code: INTERNAL_SERVER_ERROR,
                message: prefixed("RmpSerdeEncodeError: ", &e),
            },
            HandlerError::ParseAudioInfoError(e) => AppError {
                status_code: INTERNAL_SERVER_ERROR,
                message: prefixed("ParseAudioInfoError: Invalid audio info format: ", &e),
            },
            HandlerError::AudioInfoUndefinedError => AppError {
                status_code: INTERNAL_SERVER_ERROR,
                message: String::from_str("AudioInfoUndefinedError: Audio info is not set"),
            },
            HandlerError::PyError(e) => AppError {
                status_code: INTERNAL_SERVER_ERROR,
                message: prefixed("PyError: ", &e),
            },
        }
    }
}

} // verus!
