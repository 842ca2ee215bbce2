//! The failures that translation and synthesis report.

use vstd::prelude::*;
use vstd::string::*;

verus! {

/// Why a call failed. Nothing is retried: the first failure ends the call.
#[derive(Debug, Clone, PartialEq, Eq)]
pub enum I18nError {
    /// The text was empty once leading and trailing white space was removed.
    EmptyInput,
    /// The connection could not be made or broke; holds the transport's message.
    NetworkError(String),
    /// The provider answered with something that does not fit the protocol.
    ProtocolError(String),
    /// The provider answered in good form but no audio byte came out of it.
    NoAudioReceived,
    /// The audio text of a response could not be decoded.
    DecodeError(String),
}

/// What an [`I18nError`] says, with its detail as plain text.
pub enum Failure {
    EmptyInput,
    Network(Seq<char>),
    Protocol(Seq<char>),
    NoAudio,
    Decode(Seq<char>),
}

impl View for I18nError {
    type V = Failure;

    open spec fn view(&self) -> Failure {
        match *self {
            I18nError::EmptyInput => Failure::EmptyInput,
            I18nError::NetworkError(detail) => Failure::Network(detail@),
            I18nError::ProtocolError(detail) => Failure::Protocol(detail@),
            I18nError::NoAudioReceived => Failure::NoAudio,
            I18nError::DecodeError(detail) => Failure::Decode(detail@),
        }
    }
}

impl Failure {
    /// The line of text that describes the failure.
    pub open spec fn message_text(self) -> Seq<char> {
        match self {
            Failure::EmptyInput => "No text to speak"@,
            Failure::Network(detail) => "Network error: "@ + detail,
            Failure::Protocol(detail) => "Protocol error: "@ + detail,
            Failure::NoAudio => "No audio received"@,
            Failure::Decode(detail) => "Decode error: "@ + detail,
        }
    }
}

impl I18nError {
    /// A line of text that describes the failure.
    pub fn message(&self) -> (text: String)
        ensures
            text@ == self@.message_text(),
    {
        match self {
            I18nError::EmptyInput => String::from_str("No text to speak"),
            I18nError::NetworkError(detail) => String::from_str("Network error: ").concat(
                detail.as_str(),
            ),
            I18nError::ProtocolError(detail) => String::from_str("Protocol error: ").concat(
                detail.as_str(),
            ),
            I18nError::NoAudioReceived => String::from_str("No audio received"),
            I18nError::DecodeError(detail) => String::from_str("Decode error: ").concat(
                detail.as_str(),
            ),
        }
    }
}

} // verus!
