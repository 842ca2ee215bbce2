//! What the speech providers have in common.

use crate::tts::constants::DEFAULT_VOICE;
use vstd::prelude::*;
use vstd::string::*;

verus! {

/// What is reported when a synthesis is asked for its audio before it has
/// ended.
pub const UNFINISHED: &'static str = "synthesis has not finished";

/// Voice and prosody of one synthesis.
#[derive(Debug, Clone, PartialEq, Eq)]
pub struct TTSConfig {
    /// Short name of the voice, such as `en-US-AriaNeural`.
    pub voice: String,
    /// Change of pitch, such as `+0Hz`.
    pub pitch: String,
    /// Change of speed, such as `+0%`.
    pub rate: String,
    /// Change of loudness, such as `+0%`.
    pub volume: String,
}

impl TTSConfig {
    /// Whether this is the given voice with unchanged pitch, rate and volume.
    pub open spec fn is_plain(self, voice: Seq<char>) -> bool {
        &&& self.voice@ == voice
        &&& self.pitch@ == "+0Hz"@
        &&& self.rate@ == "+0%"@
        &&& self.volume@ == "+0%"@
    }
}

impl Default for TTSConfig {
    /// The default voice with unchanged pitch, rate and volume.
    fn default() -> (config: Self)
        ensures
            config.is_plain(DEFAULT_VOICE@),
    {
        TTSConfig {
            voice: String::from_str(DEFAULT_VOICE),
            pitch: String::from_str("+0Hz"),
            rate: String::from_str("+0%"),
            volume: String::from_str("+0%"),
        }
    }
}

} // verus!
