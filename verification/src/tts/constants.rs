//! Endpoints and limits of the speech providers.

use vstd::prelude::*;

verus! {

pub const GOOGLE_TTS_URL: &'static str =
    "https://translate.google.com/_/TranslateWebserverUi/data/batchexecute";

/// The most characters Google takes in one request.
pub const GOOGLE_TTS_MAX_CHARS: usize = 100;

pub const GOOGLE_TTS_RPC: &'static str = "jQ1olc";

pub const EDGE_TTS_BASE_URL: &'static str = "speech.platform.bing.com";

pub const EDGE_TTS_WSS_URL: &'static str =
    "wss://speech.platform.bing.com/consumer/speech/synthesize/readaloud/edge/v1";

pub const EDGE_TTS_VOICE_LIST_URL: &'static str =
    "https://speech.platform.bing.com/consumer/speech/synthesize/readaloud/voices/list";

pub const DEFAULT_VOICE: &'static str = "en-US-AriaNeural";

} // verus!
