//! Error taxonomy of the protocol core: parse errors (a recognized field's
//! value has the wrong form), protocol errors (the peer's framing is
//! malformed), and structured server rejections (`ACK` lines).

use vstd::prelude::*;

verus! {

/// A recognized field's value failed to convert to its expected type.
#[derive(Debug, Clone, PartialEq, Eq)]
pub enum ParseError {
    /// integer text is malformed or out of range
    BadInteger,
    /// a timestamp does not match the protocol's time format
    BadTime,
    /// range text is not `<start>-<end>` with numeric sides
    BadRange,
    /// the audio format's sample rate is malformed
    BadRate,
    /// the audio format has no bit-depth part
    NoBits,
    /// the audio format's bit depth is malformed
    BadBits,
    /// the audio format has no channel-count part
    NoChans,
    /// the audio format's channel count is malformed
    BadChans,
    /// playback state text outside stop/play/pause
    BadState(String),
    /// value outside the field's fixed vocabulary
    BadValue(String),
    /// a keyed record field whose value is malformed: key, then raw value
    BadField(String, String),
    /// a line announced as an `ACK` does not match the `ACK` grammar
    NotAck,
}

/// Mathematical image of a [`ParseError`].
pub ghost enum ParseErrorModel {
    BadInteger,
    BadTime,
    BadRange,
    BadRate,
    NoBits,
    BadBits,
    NoChans,
    BadChans,
    BadState(Seq<char>),
    BadValue(Seq<char>),
    BadField(Seq<char>, Seq<char>),
    NotAck,
}

impl View for ParseError {
    type V = ParseErrorModel;

    open spec fn view(&self) -> ParseErrorModel {
        match self {
            ParseError::BadInteger => ParseErrorModel::BadInteger,
            ParseError::BadTime => ParseErrorModel::BadTime,
            ParseError::BadRange => ParseErrorModel::BadRange,
            ParseError::BadRate => ParseErrorModel::BadRate,
            ParseError::NoBits => ParseErrorModel::NoBits,
            ParseError::BadBits => ParseErrorModel::BadBits,
            ParseError::NoChans => ParseErrorModel::NoChans,
            ParseError::BadChans => ParseErrorModel::BadChans,
            ParseError::BadState(s) => ParseErrorModel::BadState(s@),
            ParseError::BadValue(s) => ParseErrorModel::BadValue(s@),
            ParseError::BadField(k, v) => ParseErrorModel::BadField(k@, v@),
            ParseError::NotAck => ParseErrorModel::NotAck,
        }
    }
}

/// The peer's framing violates the protocol grammar.
#[derive(Debug, Clone, PartialEq, Eq)]
pub enum ProtoError {
    /// a response line is neither a terminator nor a `KEY: VALUE` pair
    NotPair,
    /// the stream ended before a terminator line
    MissingTerminator,
    /// a required record key is absent; carries the key's name
    NoField(String),
    /// the connection banner is not `OK MPD <version>`
    BadBanner,
    /// an idle notification line has a key other than `changed`
    NotChanged,
}

/// Mathematical image of a [`ProtoError`].
pub ghost enum ProtoErrorModel {
    NotPair,
    MissingTerminator,
    NoField(Seq<char>),
    BadBanner,
    NotChanged,
}

impl View for ProtoError {
    type V = ProtoErrorModel;

    open spec fn view(&self) -> ProtoErrorModel {
        match self {
            ProtoError::NotPair => ProtoErrorModel::NotPair,
            ProtoError::MissingTerminator => ProtoErrorModel::MissingTerminator,
            ProtoError::NoField(k) => ProtoErrorModel::NoField(k@),
            ProtoError::BadBanner => ProtoErrorModel::BadBanner,
            ProtoError::NotChanged => ProtoErrorModel::NotChanged,
        }
    }
}

/// A well-formed server rejection, decoded from an
/// `ACK [<code>@<command_index>] {<current_command>} <message>` line.
#[derive(Debug, Clone, PartialEq, Eq)]
pub struct AckError {
    /// numeric error code
    pub code: u32,
    /// index of the failing command within a batched command list
    pub command_index: u32,
    /// name of the failing command
    pub current_command: String,
    /// human-readable message
    pub message: String,
}

/// Mathematical image of an [`AckError`].
pub ghost struct AckModel {
    pub code: u32,
    pub command_index: u32,
    pub current_command: Seq<char>,
    pub message: Seq<char>,
}

impl View for AckError {
    type V = AckModel;

    open spec fn view(&self) -> AckModel {
        AckModel {
            code: self.code,
            command_index: self.command_index,
            current_command: self.current_command@,
            message: self.message@,
        }
    }
}

/// Misuse of the idle/notification controller by the caller.
#[derive(Debug, Clone, Copy, PartialEq, Eq, Structural)]
pub enum MisuseError {
    /// cancellation requested while no idle wait is outstanding
    NotIdle,
    /// an idle wait requested while one is already outstanding
    AlreadyIdle,
}

/// Any failure the decoding core reports.
#[derive(Debug, Clone, PartialEq, Eq)]
pub enum Error {
    /// a recognized field's value failed to convert
    Parse(ParseError),
    /// the peer's framing violates the protocol grammar
    Proto(ProtoError),
    /// a well-formed rejection reported by the server
    Server(AckError),
    /// the caller drove the idle controller out of protocol
    Misuse(MisuseError),
}

/// Mathematical image of an [`Error`].
pub ghost enum ErrorModel {
    Parse(ParseErrorModel),
    Proto(ProtoErrorModel),
    Server(AckModel),
    Misuse(MisuseError),
}

impl View for Error {
    type V = ErrorModel;

    open spec fn view(&self) -> ErrorModel {
        match self {
            Error::Parse(e) => ErrorModel::Parse(e@),
            Error::Proto(e) => ErrorModel::Proto(e@),
            Error::Server(e) => ErrorModel::Server(e@),
            Error::Misuse(e) => ErrorModel::Misuse(*e),
        }
    }
}

} // verus!
