//! Text-to-speech through interchangeable providers.

pub mod base;
pub mod chunking;
pub mod constants;
pub mod edge;
pub mod google;

pub use base::TTSConfig;
pub use edge::EdgeTTS;
pub use google::GoogleTTS;
