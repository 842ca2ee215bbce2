//! Text-to-speech request building and response decoding.

pub mod error;
pub mod text;
pub mod tts;

pub use error::I18nError;
