//! Microsoft Edge speech synthesis: the frames that go out, the frames that
//! come back, and the course of one synthesis over the connection.
//!
//! The connection itself is not made here. A caller performs each
//! [`EdgeAction`] and reports what happened as an [`EdgeEvent`].

use crate::error::{Failure, I18nError};
use crate::text::{contains, find, to_chars, to_text, trim, trimmed};
use crate::tts::base::{TTSConfig, UNFINISHED};
use crate::tts::constants::EDGE_TTS_WSS_URL;
use vstd::prelude::*;
use vstd::slice::slice_subrange;
use vstd::string::*;

verus! {

/// A voice that the provider offers.
#[derive(Debug, Clone, PartialEq, Eq)]
pub struct Voice {
    pub name: String,
    pub short_name: String,
    pub gender: String,
    pub locale: String,
}

/// Microsoft Edge TTS.
#[derive(Debug, Clone)]
pub struct EdgeTTS {
    config: TTSConfig,
}

/// The text frame after which no more audio follows.
pub const TURN_END: &'static str = "Path:turn.end";

/// What is reported when an event cannot follow the state a session is in.
pub const UNEXPECTED_EVENT: &'static str = "unexpected event";

// ---------------------------------------------------------------------------
// Identifiers
// ---------------------------------------------------------------------------

/// A digit `0`-`9` or a letter `a`-`f`.
pub open spec fn is_lower_hex(c: char) -> bool {
    ('0' <= c && c <= '9') || ('a' <= c && c <= 'f')
}

/// A UUID as text: 32 lower-case hex digits in groups of 8, 4, 4, 4 and 12
/// with a hyphen between the groups.
pub open spec fn is_hyphenated_uuid(s: Seq<char>) -> bool {
    &&& s.len() == 36
    &&& forall|i: int|
        0 <= i < 36 ==> if i == 8 || i == 13 || i == 18 || i == 23 {
            s[i] == '-'
        } else {
            is_lower_hex(#[trigger] s[i])
        }
}

/// An identifier as the provider takes it: 32 lower-case hex digits.
pub open spec fn is_hex_id(s: Seq<char>) -> bool {
    &&& s.len() == 32
    &&& forall|i: int| 0 <= i < 32 ==> is_lower_hex(#[trigger] s[i])
}

/// `s` with every hyphen taken out.
pub open spec fn without_hyphens(s: Seq<char>) -> Seq<char> {
    s.filter(|c: char| c != '-')
}

/// `Uuid::new_v4` draws a random UUID, and its `Display` writes it as 32
/// lower-case hex digits in groups of 8, 4, 4, 4 and 12 with hyphens between
/// them. Which digits come is left open. The call fails only where the system
/// has no random numbers to give.
#[verifier::external_body]
fn random_uuid() -> (text: String)
    ensures
        is_hyphenated_uuid(text@),
{
    uuid::Uuid::new_v4().to_string()
}

/// `Utc::now` reads the clock and `format("%+")` writes the moment as an
/// ISO 8601 date and time. Nothing is claimed about the text.
#[verifier::external_body]
fn utc_timestamp() -> (text: String) {
    chrono::Utc::now().format("%+").to_string()
}

proof fn lemma_filter_keeps_all(s: Seq<char>, pred: spec_fn(char) -> bool)
    requires
        forall|i: int| 0 <= i < s.len() ==> pred(#[trigger] s[i]),
    ensures
        s.filter(pred) == s,
    decreases s.len(),
{
    reveal(Seq::filter);
    if s.len() > 0 {
        lemma_filter_keeps_all(s.drop_last(), pred);
        assert(s.drop_last().push(s.last()) =~= s);
    }
}

/// A UUID without its hyphens is an identifier of 32 hex digits.
pub proof fn lemma_compact_uuid(s: Seq<char>)
    requires
        is_hyphenated_uuid(s),
    ensures
        is_hex_id(without_hyphens(s)),
        without_hyphens(s) == s.subrange(0, 8) + s.subrange(9, 13) + s.subrange(14, 18)
            + s.subrange(19, 23) + s.subrange(24, 36),
{
    let pred = |c: char| c != '-';
    let dash = seq!['-'];
    let a = s.subrange(0, 8);
    let b = s.subrange(9, 13);
    let c = s.subrange(14, 18);
    let d = s.subrange(19, 23);
    let e = s.subrange(24, 36);
    assert(dash.filter(pred) =~= Seq::<char>::empty()) by {
        reveal_with_fuel(Seq::filter, 2);
    }
    assert forall|i: int| 0 <= i < a.len() implies pred(#[trigger] a[i]) by {
        assert(is_lower_hex(s[i]));
    }
    assert forall|i: int| 0 <= i < b.len() implies pred(#[trigger] b[i]) by {
        assert(is_lower_hex(s[9 + i]));
    }
    assert forall|i: int| 0 <= i < c.len() implies pred(#[trigger] c[i]) by {
        assert(is_lower_hex(s[14 + i]));
    }
    assert forall|i: int| 0 <= i < d.len() implies pred(#[trigger] d[i]) by {
        assert(is_lower_hex(s[19 + i]));
    }
    assert forall|i: int| 0 <= i < e.len() implies pred(#[trigger] e[i]) by {
        assert(is_lower_hex(s[24 + i]));
    }
    lemma_filter_keeps_all(a, pred);
    lemma_filter_keeps_all(b, pred);
    lemma_filter_keeps_all(c, pred);
    lemma_filter_keeps_all(d, pred);
    lemma_filter_keeps_all(e, pred);
    let s1 = a + dash;
    let s2 = s1 + b;
    let s3 = s2 + dash;
    let s4 = s3 + c;
    let s5 = s4 + dash;
    let s6 = s5 + d;
    let s7 = s6 + dash;
    let s8 = s7 + e;
    assert(s8 =~= s);
    Seq::filter_distributes_over_add(a, dash, pred);
    Seq::filter_distributes_over_add(s1, b, pred);
    Seq::filter_distributes_over_add(s2, dash, pred);
    Seq::filter_distributes_over_add(s3, c, pred);
    Seq::filter_distributes_over_add(s4, dash, pred);
    Seq::filter_distributes_over_add(s5, d, pred);
    Seq::filter_distributes_over_add(s6, dash, pred);
    Seq::filter_distributes_over_add(s7, e, pred);
    let r = a + b + c + d + e;
    assert(s8.filter(pred) =~= r);
    assert forall|i: int| 0 <= i < 32 implies is_lower_hex(#[trigger] r[i]) by {
        if i < 8 {
            assert(r[i] == s[i]);
        } else if i < 12 {
            assert(r[i] == s[i + 1]);
        } else if i < 16 {
            assert(r[i] == s[i + 2]);
        } else if i < 20 {
            assert(r[i] == s[i + 3]);
        } else {
            assert(r[i] == s[i + 4]);
        }
    }
}

/// Takes the hyphens out of `uuid`.
pub fn compact_id(uuid: &str) -> (id: String)
    ensures
        id@ == without_hyphens(uuid@),
{
    let chars = to_chars(uuid);
    let mut id = String::new();
    let mut i: usize = 0;
    while i < chars.len()
        invariant
            i <= chars@.len(),
            id@ == without_hyphens(chars@.take(i as int)),
        decreases chars@.len() - i,
    {
        proof {
            reveal(Seq::filter);
            assert(chars@.take(i + 1).drop_last() =~= chars@.take(i as int));
        }
        if chars[i] != '-' {
            id.push(chars[i]);
        }
        i += 1;
    }
    proof {
        reveal(Seq::filter);
        assert(chars@.take(chars@.len() as int) =~= chars@);
    }
    id
}

/// A fresh random identifier of 32 hex digits.
pub fn fresh_id() -> (id: String)
    ensures
        is_hex_id(id@),
{
    let uuid = random_uuid();
    proof {
        lemma_compact_uuid(uuid@);
    }
    compact_id(uuid.as_str())
}

// ---------------------------------------------------------------------------
// Outbound frames
// ---------------------------------------------------------------------------

/// What one character becomes in the text of an HTML element.
pub open spec fn escaped_char(c: char) -> Seq<char> {
    if c == '&' {
        "&amp;"@
    } else if c == '<' {
        "&lt;"@
    } else if c == '>' {
        "&gt;"@
    } else {
        seq![c]
    }
}

/// `text` as it stands inside an HTML element: `&`, `<` and `>` are written
/// as entities and every other character stays.
pub open spec fn escaped_text(text: Seq<char>) -> Seq<char> {
    text.map_values(|c: char| escaped_char(c)).flatten()
}

/// `html_escape::encode_text` writes `&` as `&amp;`, `<` as `&lt;` and `>` as
/// `&gt;`, and copies every other character.
#[verifier::external_body]
fn escape_text(text: &str) -> (escaped: String)
    ensures
        escaped@ == escaped_text(text@),
{
    html_escape::encode_text(text).into_owned()
}

/// The frame that asks for MP3 audio without word or sentence marks, stamped
/// with `timestamp`.
pub open spec fn config_message_text(timestamp: Seq<char>) -> Seq<char> {
    "X-Timestamp:"@ + timestamp
        + "\r\nContent-Type:application/json; charset=utf-8\r\nPath:speech.config\r\n\r\n{\"context\":{\"synthesis\":{\"audio\":{\"metadataoptions\":{\"sentenceBoundaryEnabled\":\"false\",\"wordBoundaryEnabled\":\"false\"},\"outputFormat\":\"audio-24khz-48kbitrate-mono-mp3\"}}}}\r\n"@
}

/// The frame that carries the text to speak: a header block with the request
/// identifier and the time, then an SSML document that wraps `escaped` in the
/// voice and prosody of `config`.
pub open spec fn ssml_message_text(
    request_id: Seq<char>,
    timestamp: Seq<char>,
    config: TTSConfig,
    escaped: Seq<char>,
) -> Seq<char> {
    "X-RequestId:"@ + request_id + "\r\nContent-Type:application/ssml+xml\r\nX-Timestamp:"@
        + timestamp
        + "Z\r\nPath:ssml\r\n\r\n<speak version='1.0' xmlns='http://www.w3.org/2001/10/synthesis' xml:lang='en-US'><voice name='"@
        + config.voice@ + "'><prosody pitch='"@ + config.pitch@ + "' rate='"@ + config.rate@
        + "' volume='"@ + config.volume@ + "'>"@ + escaped + "</prosody></voice></speak>"@
}

/// The address to connect to under the connection identifier `id`.
pub open spec fn connection_url_text(id: Seq<char>) -> Seq<char> {
    EDGE_TTS_WSS_URL@ + "?ConnectionId="@ + id
}

/// A configuration frame, whatever its time stamp.
pub open spec fn is_config_message(message: Seq<char>) -> bool {
    exists|timestamp: Seq<char>| message == config_message_text(timestamp)
}

/// A frame that carries `text` under `config`, whatever its time stamp and
/// whichever identifier of 32 hex digits it bears.
pub open spec fn is_ssml_message(message: Seq<char>, config: TTSConfig, text: Seq<char>) -> bool {
    exists|request_id: Seq<char>, timestamp: Seq<char>|
        is_hex_id(request_id) && message == #[trigger] ssml_message_text(
            request_id,
            timestamp,
            config,
            escaped_text(text),
        )
}

/// An address to connect to, whichever identifier of 32 hex digits it bears.
pub open spec fn is_connection_url(url: Seq<char>) -> bool {
    exists|id: Seq<char>| is_hex_id(id) && url == #[trigger] connection_url_text(id)
}

/// The configuration frame stamped with `timestamp`.
pub fn config_message(timestamp: &str) -> (message: String)
    ensures
        message@ == config_message_text(timestamp@),
{
    let mut message = String::from_str("X-Timestamp:");
    message.append(timestamp);
    message.append(
        "\r\nContent-Type:application/json; charset=utf-8\r\nPath:speech.config\r\n\r\n{\"context\":{\"synthesis\":{\"audio\":{\"metadataoptions\":{\"sentenceBoundaryEnabled\":\"false\",\"wordBoundaryEnabled\":\"false\"},\"outputFormat\":\"audio-24khz-48kbitrate-mono-mp3\"}}}}\r\n",
    );
    message
}

/// The address to connect to under the connection identifier `id`.
pub fn connection_url(id: &str) -> (url: String)
    ensures
        url@ == connection_url_text(id@),
{
    let mut url = String::from_str(EDGE_TTS_WSS_URL);
    url.append("?ConnectionId=");
    url.append(id);
    url
}

// ---------------------------------------------------------------------------
// Inbound frames
// ---------------------------------------------------------------------------

/// The length of a binary frame's header block, which its first two bytes
/// give with the high byte first.
pub open spec fn header_length(frame: Seq<u8>) -> int
    recommends
        frame.len() >= 2,
{
    frame[0] as int * 256 + frame[1] as int
}

/// The audio that a binary frame carries: what follows the two length bytes
/// and the header block. A frame too short for its length bytes, or for the
/// header block they announce, carries none.
pub open spec fn audio_payload(frame: Seq<u8>) -> Seq<u8> {
    if frame.len() >= 2 && header_length(frame) + 2 <= frame.len() {
        frame.subrange(header_length(frame) + 2, frame.len() as int)
    } else {
        Seq::empty()
    }
}

/// Whether a text frame says that the turn is over.
pub open spec fn ends_turn(text: Seq<char>) -> bool {
    contains(text, TURN_END@)
}

/// The audio that a binary frame carries.
pub fn frame_audio(frame: &[u8]) -> (audio: &[u8])
    ensures
        audio@ == audio_payload(frame@),
        frame@.len() >= 2 && header_length(frame@) + 2 > frame@.len() ==> audio@.len() == 0,
{
    let n = frame.len();
    if n < 2 {
        return slice_subrange(frame, 0, 0);
    }
    let header: usize = (frame[0] as usize) * 256 + (frame[1] as usize);
    if header <= n - 2 {
        slice_subrange(frame, header + 2, n)
    } else {
        slice_subrange(frame, 0, 0)
    }
}

/// Whether a text frame says that the turn is over.
pub fn is_turn_end(text: &str) -> (end: bool)
    ensures
        end == ends_turn(text@),
{
    let hay = to_chars(text);
    let needle = to_chars(TURN_END);
    match find(hay.as_slice(), needle.as_slice(), 0) {
        Some(at) => true,
        None => false,
    }
}

impl EdgeTTS {
    /// The configuration that this provider speaks with.
    pub closed spec fn settings(&self) -> TTSConfig {
        self.config
    }

    /// A provider that speaks with `voice` at unchanged pitch, rate and volume.
    pub fn new(voice: &str) -> (tts: Self)
        ensures
            tts.settings().is_plain(voice@),
    {
        let plain = TTSConfig::default();
        EdgeTTS {
            config: TTSConfig {
                voice: String::from_str(voice),
                pitch: plain.pitch,
                rate: plain.rate,
                volume: plain.volume,
            },
        }
    }

    /// A provider that speaks with `config`.
    pub fn with_config(config: TTSConfig) -> (tts: Self)
        ensures
            tts.settings() == config,
    {
        EdgeTTS { config }
    }

    /// The configuration that this provider speaks with.
    pub fn config(&self) -> (config: &TTSConfig)
        ensures
            *config == self.settings(),
    {
        &self.config
    }

    /// The frame that carries `text`, under the given identifier and time.
    pub fn ssml_message(&self, request_id: &str, timestamp: &str, text: &str) -> (message: String)
        ensures
            message@ == ssml_message_text(
                request_id@,
                timestamp@,
                self.settings(),
                escaped_text(text@),
            ),
    {
        let escaped = escape_text(text);
        let mut message = String::from_str("X-RequestId:");
        message.append(request_id);
        message.append("\r\nContent-Type:application/ssml+xml\r\nX-Timestamp:");
        message.append(timestamp);
        message.append(
            "Z\r\nPath:ssml\r\n\r\n<speak version='1.0' xmlns='http://www.w3.org/2001/10/synthesis' xml:lang='en-US'><voice name='",
        );
        message.append(self.config.voice.as_str());
        message.append("'><prosody pitch='");
        message.append(self.config.pitch.as_str());
        message.append("' rate='");
        message.append(self.config.rate.as_str());
        message.append("' volume='");
        message.append(self.config.volume.as_str());
        message.append("'>");
        message.append(escaped.as_str());
        message.append("</prosody></voice></speak>");
        message
    }

    /// The frame that carries `text`, under a fresh identifier and the
    /// present time.
    pub fn create_ssml(&self, text: &str) -> (message: String)
        ensures
            is_ssml_message(message@, self.settings(), text@),
    {
        let request_id = fresh_id();
        let timestamp = utc_timestamp();
        self.ssml_message(request_id.as_str(), timestamp.as_str(), text)
    }

    /// The configuration frame, stamped with the present time.
    pub fn create_config_message(&self) -> (message: String)
        ensures
            is_config_message(message@),
    {
        let timestamp = utc_timestamp();
        config_message(timestamp.as_str())
    }

    /// The locales that the provider is known to speak.
    pub fn get_supported_languages(&self) -> (languages: Vec<&'static str>)
        ensures
            languages@.len() == 20,
            languages@.map_values(|l: &'static str| l@) == edge_languages(),
    {
        let languages = vec![
            "en-US", "en-GB", "en-AU", "en-CA", "en-IN", "es-ES", "es-MX", "fr-FR", "fr-CA",
            "de-DE", "it-IT", "pt-BR", "pt-PT", "ru-RU", "ja-JP", "ko-KR", "zh-CN", "zh-TW",
            "ar-SA", "hi-IN",
        ];
        assert(languages@.map_values(|l: &'static str| l@) =~= edge_languages());
        languages
    }
}

/// The locales that the Edge provider is known to speak, in the order in
/// which it lists them.
pub open spec fn edge_languages() -> Seq<Seq<char>> {
    seq![
        "en-US"@, "en-GB"@, "en-AU"@, "en-CA"@, "en-IN"@, "es-ES"@, "es-MX"@, "fr-FR"@, "fr-CA"@,
        "de-DE"@, "it-IT"@, "pt-BR"@, "pt-PT"@, "ru-RU"@, "ja-JP"@, "ko-KR"@, "zh-CN"@, "zh-TW"@,
        "ar-SA"@, "hi-IN"@,
    ]
}

// ---------------------------------------------------------------------------
// The course of one synthesis
// ---------------------------------------------------------------------------

/// Where a synthesis stands.
#[derive(Debug, Clone, PartialEq, Eq)]
pub enum EdgeState {
    /// The connection is being opened.
    Connecting,
    /// The configuration frame is on its way.
    ConfigSent,
    /// The frame with the text is on its way.
    TextSent,
    /// Frames are being read.
    Receiving,
    /// The turn ended with audio.
    Done,
    /// The synthesis failed.
    Failed(I18nError),
}

/// Where a synthesis stands, with a failure's detail as plain text.
pub enum EdgePhase {
    Connecting,
    ConfigSent,
    TextSent,
    Receiving,
    Done,
    Failed(Failure),
}

impl View for EdgeState {
    type V = EdgePhase;

    open spec fn view(&self) -> EdgePhase {
        match *self {
            EdgeState::Connecting => EdgePhase::Connecting,
            EdgeState::ConfigSent => EdgePhase::ConfigSent,
            EdgeState::TextSent => EdgePhase::TextSent,
            EdgeState::Receiving => EdgePhase::Receiving,
            EdgeState::Done => EdgePhase::Done,
            EdgeState::Failed(error) => EdgePhase::Failed(error@),
        }
    }
}

/// What happened on the connection since the last action.
#[derive(Debug, Clone, PartialEq, Eq)]
pub enum EdgeEvent {
    /// The connection is open.
    Connected,
    /// The frame handed out for sending was written.
    Sent,
    /// A binary frame came in.
    Binary(Vec<u8>),
    /// A text frame came in.
    Text(String),
    /// A frame of another kind came in.
    Other,
    /// The stream ended.
    Closed,
    /// The transport failed; holds its message.
    TransportError(String),
}

/// What the caller is to do next.
#[derive(Debug, Clone, PartialEq, Eq)]
pub enum EdgeAction {
    /// Open a connection to this address, then report `Connected`.
    Connect(String),
    /// Send this text frame, then report `Sent`.
    Send(String),
    /// Read the next frame and report it.
    Receive,
    /// Close the connection; [`EdgeSession::finish`] holds the result.
    Finish,
}

/// One synthesis under way.
#[derive(Debug)]
pub struct EdgeSession {
    state: EdgeState,
    text: String,
    audio: Vec<u8>,
}

/// One synthesis under way, as plain values.
pub struct EdgeSessionView {
    pub phase: EdgePhase,
    /// The text to speak, trimmed.
    pub text: Seq<char>,
    /// The audio gathered so far.
    pub audio: Seq<u8>,
}

impl EdgeSessionView {
    /// The same synthesis in another phase.
    pub open spec fn moved(self, phase: EdgePhase) -> EdgeSessionView {
        EdgeSessionView { phase, ..self }
    }

    /// The synthesis after an event that its phase does not allow: a failing
    /// transport is a network failure, anything else breaks the protocol.
    pub open spec fn rejected(self, event: EdgeEvent) -> EdgeSessionView {
        match event {
            EdgeEvent::TransportError(detail) => self.moved(
                EdgePhase::Failed(Failure::Network(detail@)),
            ),
            _ => self.moved(EdgePhase::Failed(Failure::Protocol(UNEXPECTED_EVENT@))),
        }
    }

    /// The synthesis once no more frames follow: done where audio was
    /// gathered, failed where none was.
    pub open spec fn closed(self) -> EdgeSessionView {
        if self.audio.len() > 0 {
            self.moved(EdgePhase::Done)
        } else {
            self.moved(EdgePhase::Failed(Failure::NoAudio))
        }
    }

    /// The synthesis after `event`.
    pub open spec fn after(self, event: EdgeEvent) -> EdgeSessionView {
        match self.phase {
            EdgePhase::Connecting => match event {
                EdgeEvent::Connected => self.moved(EdgePhase::ConfigSent),
                _ => self.rejected(event),
            },
            EdgePhase::ConfigSent => match event {
                EdgeEvent::Sent => self.moved(EdgePhase::TextSent),
                _ => self.rejected(event),
            },
            EdgePhase::TextSent => match event {
                EdgeEvent::Sent => self.moved(EdgePhase::Receiving),
                _ => self.rejected(event),
            },
            EdgePhase::Receiving => match event {
                EdgeEvent::Binary(frame) => EdgeSessionView {
                    audio: self.audio + audio_payload(frame@),
                    ..self
                },
                EdgeEvent::Text(text) => if ends_turn(text@) {
                    self.closed()
                } else {
                    self
                },
                EdgeEvent::Other => self,
                EdgeEvent::Closed => self.closed(),
                _ => self.rejected(event),
            },
            EdgePhase::Done => self,
            EdgePhase::Failed(_) => self,
        }
    }

    /// The synthesis after each of `events` in turn.
    pub open spec fn after_all(self, events: Seq<EdgeEvent>) -> EdgeSessionView
        decreases events.len(),
    {
        if events.len() == 0 {
            self
        } else {
            self.after_all(events.drop_last()).after(events.last())
        }
    }

    /// What the synthesis has to show: the audio once it is done, the failure
    /// once it has failed, a protocol failure as long as it is under way.
    pub open spec fn outcome(self) -> Result<Seq<u8>, Failure> {
        match self.phase {
            EdgePhase::Done => Ok(self.audio),
            EdgePhase::Failed(failure) => Err(failure),
            _ => Err(Failure::Protocol(UNFINISHED@)),
        }
    }

    /// Whether `action` is what a caller is to do once the synthesis stands
    /// here, speaking with `config`.
    pub open spec fn calls_for(self, action: EdgeAction, config: TTSConfig) -> bool {
        match self.phase {
            EdgePhase::Connecting => action matches EdgeAction::Connect(url) && is_connection_url(
                url@,
            ),
            EdgePhase::ConfigSent => action matches EdgeAction::Send(message) && is_config_message(
                message@,
            ),
            EdgePhase::TextSent => action matches EdgeAction::Send(message) && is_ssml_message(
                message@,
                config,
                self.text,
            ),
            EdgePhase::Receiving => action is Receive,
            EdgePhase::Done => action is Finish,
            EdgePhase::Failed(_) => action is Finish,
        }
    }
}

/// Whether a frame, read while receiving, leaves the synthesis receiving.
pub open spec fn keeps_receiving(event: EdgeEvent) -> bool {
    match event {
        EdgeEvent::Binary(_) => true,
        EdgeEvent::Text(text) => !ends_turn(text@),
        EdgeEvent::Other => true,
        _ => false,
    }
}

/// Whether an event, read while receiving, says that no more frames follow.
pub open spec fn ends_receiving(event: EdgeEvent) -> bool {
    match event {
        EdgeEvent::Text(text) => ends_turn(text@),
        EdgeEvent::Closed => true,
        _ => false,
    }
}

/// The audio that a run of frames carries: the payloads of its binary
/// frames, in the order in which they came.
pub open spec fn frames_audio(frames: Seq<EdgeEvent>) -> Seq<u8>
    decreases frames.len(),
{
    if frames.len() == 0 {
        Seq::empty()
    } else {
        frames_audio(frames.drop_last()) + match frames.last() {
            EdgeEvent::Binary(frame) => audio_payload(frame@),
            _ => Seq::empty(),
        }
    }
}

/// While frames are read, the audio gathered is the audio that was there,
/// followed by the payload of each binary frame in the order of arrival.
pub proof fn lemma_receiving_gathers_audio(start: EdgeSessionView, frames: Seq<EdgeEvent>)
    requires
        start.phase == EdgePhase::Receiving,
        forall|i: int| 0 <= i < frames.len() ==> keeps_receiving(#[trigger] frames[i]),
    ensures
        start.after_all(frames).phase == EdgePhase::Receiving,
        start.after_all(frames).text == start.text,
        start.after_all(frames).audio == start.audio + frames_audio(frames),
    decreases frames.len(),
{
    if frames.len() > 0 {
        lemma_receiving_gathers_audio(start, frames.drop_last());
        assert(keeps_receiving(frames[frames.len() - 1]));
    }
}

/// When the turn ends or the stream closes, the synthesis yields the audio
/// gathered, and fails for want of audio where none was gathered.
pub proof fn lemma_end_of_turn(session: EdgeSessionView, end: EdgeEvent)
    requires
        session.phase == EdgePhase::Receiving,
        ends_receiving(end),
    ensures
        session.audio.len() > 0 ==> session.after(end).outcome() == Ok::<Seq<u8>, Failure>(
            session.audio,
        ),
        session.audio.len() == 0 ==> session.after(end).outcome() == Err::<Seq<u8>, Failure>(
            Failure::NoAudio,
        ),
{
}

/// A synthesis in which no binary frame carried audio fails for want of
/// audio when the turn ends.
pub proof fn lemma_no_audio_received(frames: Seq<EdgeEvent>, end: EdgeEvent, text: Seq<char>)
    requires
        forall|i: int| 0 <= i < frames.len() ==> keeps_receiving(#[trigger] frames[i]),
        frames_audio(frames).len() == 0,
        ends_receiving(end),
    ensures
        (EdgeSessionView { phase: EdgePhase::Receiving, text, audio: Seq::empty() }).after_all(
            frames,
        ).after(end).outcome() == Err::<Seq<u8>, Failure>(Failure::NoAudio),
{
    let start = EdgeSessionView { phase: EdgePhase::Receiving, text, audio: Seq::empty() };
    lemma_receiving_gathers_audio(start, frames);
    lemma_end_of_turn(start.after_all(frames), end);
}

impl View for EdgeSession {
    type V = EdgeSessionView;

    closed spec fn view(&self) -> EdgeSessionView {
        EdgeSessionView { phase: self.state@, text: self.text@, audio: self.audio@ }
    }
}

impl EdgeSession {
    /// Where the synthesis stands.
    pub fn state(&self) -> (state: &EdgeState)
        ensures
            state@ == self@.phase,
    {
        &self.state
    }

    /// Ends the synthesis and hands out what it has to show.
    pub fn finish(self) -> (res: Result<Vec<u8>, I18nError>)
        ensures
            match res {
                Ok(audio) => self@.outcome() == Ok::<Seq<u8>, Failure>(audio@),
                Err(error) => self@.outcome() == Err::<Seq<u8>, Failure>(error@),
            },
    {
        match self.state {
            EdgeState::Done => Ok(self.audio),
            EdgeState::Failed(error) => Err(error),
            _ => Err(I18nError::ProtocolError(String::from_str(UNFINISHED))),
        }
    }

    /// Fails the synthesis over an event that its state does not allow.
    fn reject(&mut self, event: EdgeEvent) -> (action: EdgeAction)
        ensures
            final(self)@ == old(self)@.rejected(event),
            action is Finish,
    {
        match event {
            EdgeEvent::TransportError(detail) => {
                self.state = EdgeState::Failed(I18nError::NetworkError(detail));
            },
            _ => {
                self.state = EdgeState::Failed(
                    I18nError::ProtocolError(String::from_str(UNEXPECTED_EVENT)),
                );
            },
        }
        EdgeAction::Finish
    }

    /// Ends the reading of frames.
    fn close(&mut self) -> (action: EdgeAction)
        ensures
            final(self)@ == old(self)@.closed(),
            action is Finish,
    {
        if self.audio.len() > 0 {
            self.state = EdgeState::Done;
        } else {
            self.state = EdgeState::Failed(I18nError::NoAudioReceived);
        }
        EdgeAction::Finish
    }
}

impl EdgeTTS {
    /// Starts a synthesis of `text`. Text that is empty once trimmed is
    /// refused, and nothing is to be done for it; for any other text the
    /// caller is to connect under a fresh connection identifier.
    pub fn begin(&self, text: &str) -> (res: Result<(EdgeSession, EdgeAction), I18nError>)
        ensures
            match res {
                Ok((session, action)) => {
                    &&& trimmed(text@).len() > 0
                    &&& session@ == (EdgeSessionView {
                        phase: EdgePhase::Connecting,
                        text: trimmed(text@),
                        audio: Seq::empty(),
                    })
                    &&& session@.calls_for(action, self.settings())
                },
                Err(error) => trimmed(text@).len() == 0 && error@ == Failure::EmptyInput,
            },
    {
        let chars = to_chars(text);
        let body = trim(chars.as_slice());
        if body.len() == 0 {
            return Err(I18nError::EmptyInput);
        }
        let id = fresh_id();
        let url = connection_url(id.as_str());
        let session = EdgeSession {
            state: EdgeState::Connecting,
            text: to_text(body),
            audio: Vec::new(),
        };
        Ok((session, EdgeAction::Connect(url)))
    }

    /// Takes in what happened on the connection and says what to do next.
    pub fn advance(&self, session: &mut EdgeSession, event: EdgeEvent) -> (action: EdgeAction)
        ensures
            final(session)@ == old(session)@.after(event),
            final(session)@.calls_for(action, self.settings()),
    {
        match session.state {
            EdgeState::Connecting => match event {
                EdgeEvent::Connected => {
                    session.state = EdgeState::ConfigSent;
                    EdgeAction::Send(self.create_config_message())
                },
                _ => session.reject(event),
            },
            EdgeState::ConfigSent => match event {
                EdgeEvent::Sent => {
                    session.state = EdgeState::TextSent;
                    EdgeAction::Send(self.create_ssml(session.text.as_str()))
                },
                _ => session.reject(event),
            },
            EdgeState::TextSent => match event {
                EdgeEvent::Sent => {
                    session.state = EdgeState::Receiving;
                    EdgeAction::Receive
                },
                _ => session.reject(event),
            },
            EdgeState::Receiving => match event {
                EdgeEvent::Binary(frame) => {
                    session.audio.extend_from_slice(frame_audio(frame.as_slice()));
                    assert(session.audio@ =~= old(session).audio@ + audio_payload(frame@));
                    EdgeAction::Receive
                },
                EdgeEvent::Text(text) => {
                    if is_turn_end(text.as_str()) {
                        session.close()
                    } else {
                        EdgeAction::Receive
                    }
                },
                EdgeEvent::Other => EdgeAction::Receive,
                EdgeEvent::Closed => session.close(),
                _ => session.reject(event),
            },
            EdgeState::Done => EdgeAction::Finish,
            EdgeState::Failed(_) => EdgeAction::Finish,
        }
    }
}

} // verus!
