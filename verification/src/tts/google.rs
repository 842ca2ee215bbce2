//! Google speech synthesis: the chunks of a text, the request that carries
//! one chunk, the audio in a response, and the course of one synthesis over
//! its requests.
//!
//! No request is sent from here. A caller performs each [`GoogleAction`] and
//! reports what came back as a [`GoogleEvent`].

use crate::error::{Failure, I18nError};
use crate::text::{
    contains, find, first_occurrence, lemma_absent_has_no_occurrence, to_chars, to_text, trim,
    trimmed,
};
use crate::tts::base::UNFINISHED;
use crate::tts::chunking::{chunk_text, chunks_of};
use crate::tts::constants::{GOOGLE_TTS_MAX_CHARS, GOOGLE_TTS_RPC};
use vstd::prelude::*;
use vstd::slice::slice_subrange;
use vstd::string::*;
use vstd::utf8::encode_utf8;

verus! {

/// Google Text-to-Speech.
#[derive(Debug, Clone)]
pub struct GoogleTTS {
    lang: String,
    tld: String,
    slow: bool,
}

/// What a [`GoogleTTS`] was made with.
pub struct GoogleSettings {
    /// Language code, such as `en`.
    pub lang: Seq<char>,
    /// Top-level domain of the endpoint, such as `com`.
    pub tld: Seq<char>,
    /// Whether to speak slowly.
    pub slow: bool,
}

impl View for GoogleTTS {
    type V = GoogleSettings;

    closed spec fn view(&self) -> GoogleSettings {
        GoogleSettings { lang: self.lang@, tld: self.tld@, slow: self.slow }
    }
}

pub const GOOGLE_TTS_CONTENT_TYPE: &'static str =
    "application/x-www-form-urlencoded;charset=utf-8";

pub const GOOGLE_TTS_USER_AGENT: &'static str =
    "Mozilla/5.0 (Windows NT 10.0; WOW64) AppleWebKit/537.36";

pub const GOOGLE_TTS_REFERER: &'static str = "http://translate.google.com/";

/// What stands before the audio text in a response: the call's name, then
/// an opening bracket and an escaped quotation mark.
pub const AUDIO_OPEN: &'static str = "jQ1olc\",\"[\\\"";

/// What stands behind the audio text in a response: an escaped quotation
/// mark and a closing bracket.
pub const AUDIO_CLOSE: &'static str = "\\\"]";

/// What a decoding failure's detail starts with.
pub const DECODE_PREFIX: &'static str = "Base64 decode error: ";

// ---------------------------------------------------------------------------
// The request
// ---------------------------------------------------------------------------

/// The JSON text of an array whose items are strings, or `null` where an
/// item is `None`; the serializer's message where it fails.
pub uninterp spec fn json_array_text(items: Seq<Option<Seq<char>>>) -> Result<
    Seq<char>,
    Seq<char>,
>;

/// `serde_json::to_string` writes a value as compact JSON text: here an
/// array of strings and nulls. Text and failure depend on the items alone,
/// so they are given the name [`json_array_text`].
#[verifier::external_body]
fn to_json_array(items: &Vec<Option<String>>) -> (res: Result<String, String>)
    ensures
        match res {
            Ok(text) => json_array_text(items.deep_view()) == Ok::<Seq<char>, Seq<char>>(text@),
            Err(detail) => json_array_text(items.deep_view()) == Err::<Seq<char>, Seq<char>>(
                detail@,
            ),
        },
{
    match serde_json::to_string(items) {
        Ok(text) => Ok(text),
        Err(error) => Err(error.to_string()),
    }
}

/// A byte that stands for itself in a URL: an ASCII letter or digit, `-`,
/// `.`, `_` or `~`.
pub open spec fn is_unreserved(byte: u8) -> bool {
    ||| 0x30 <= byte <= 0x39
    ||| 0x41 <= byte <= 0x5a
    ||| 0x61 <= byte <= 0x7a
    ||| byte == 0x2d
    ||| byte == 0x2e
    ||| byte == 0x5f
    ||| byte == 0x7e
}

/// What one byte becomes in a URL: itself where it is unreserved, else `%`
/// and its two hex digits in upper case.
pub open spec fn percent_encoded_byte(byte: u8) -> Seq<char> {
    if is_unreserved(byte) {
        seq![byte as char]
    } else {
        seq!['%', "0123456789ABCDEF"@[byte as int / 16], "0123456789ABCDEF"@[byte as int % 16]]
    }
}

/// `bytes` as they stand in a URL.
pub open spec fn percent_encoded(bytes: Seq<u8>) -> Seq<char> {
    bytes.map_values(|byte: u8| percent_encoded_byte(byte)).flatten()
}

/// `urlencoding::encode` percent-encodes every byte of the text's UTF-8
/// form except ASCII letters and digits, `-`, `.`, `_` and `~`, with
/// upper-case hex digits.
#[verifier::external_body]
fn url_encode(text: &str) -> (encoded: String)
    ensures
        encoded@ == percent_encoded(encode_utf8(text@)),
{
    urlencoding::encode(text).into_owned()
}

/// The items of the call's argument list: the text, the language, whether to
/// speak slowly, and a fixed fourth item.
pub open spec fn rpc_parameter_items(text: Seq<char>, lang: Seq<char>, slow: bool) -> Seq<
    Option<Seq<char>>,
> {
    seq![
        Some(text),
        Some(lang),
        Some(
            if slow {
                "true"@
            } else {
                "null"@
            },
        ),
        Some("null"@),
    ]
}

/// The items of the call: its name, its argument list as JSON text, a null
/// and a fixed fourth item.
pub open spec fn rpc_call_items(parameter: Seq<char>) -> Seq<Option<Seq<char>>> {
    seq![Some(GOOGLE_TTS_RPC@), Some(parameter), None, Some("generic"@)]
}

/// The envelope round the call: an array that holds an array that holds
/// the call.
pub open spec fn rpc_envelope(call: Seq<char>) -> Seq<char> {
    "[["@ + call + "]]"@
}

/// The form-encoded body that carries `envelope`.
pub open spec fn form_body(envelope: Seq<char>) -> Seq<char> {
    "f.req="@ + percent_encoded(encode_utf8(envelope)) + "&"@
}

/// The body of the request that asks for `text` to be spoken; a protocol
/// failure where the call cannot be written as JSON.
pub open spec fn rpc_body(text: Seq<char>, lang: Seq<char>, slow: bool) -> Result<
    Seq<char>,
    Failure,
> {
    match json_array_text(rpc_parameter_items(text, lang, slow)) {
        Err(detail) => Err(Failure::Protocol(detail)),
        Ok(parameter) => match json_array_text(rpc_call_items(parameter)) {
            Err(detail) => Err(Failure::Protocol(detail)),
            Ok(call) => Ok(form_body(rpc_envelope(call))),
        },
    }
}

/// The address of the endpoint under the top-level domain `tld`.
pub open spec fn endpoint_text(tld: Seq<char>) -> Seq<char> {
    "https://translate.google."@ + tld + "/_/TranslateWebserverUi/data/batchexecute"@
}

/// A request to post.
#[derive(Debug, Clone, PartialEq, Eq)]
pub struct GoogleRequest {
    pub url: String,
    pub content_type: &'static str,
    pub user_agent: &'static str,
    pub referer: &'static str,
    pub body: String,
}

/// Whether `request` asks the endpoint of `settings` to speak `chunk`.
pub open spec fn is_request_for(
    request: GoogleRequest,
    chunk: Seq<char>,
    settings: GoogleSettings,
) -> bool {
    &&& request.url@ == endpoint_text(settings.tld)
    &&& request.content_type@ == GOOGLE_TTS_CONTENT_TYPE@
    &&& request.user_agent@ == GOOGLE_TTS_USER_AGENT@
    &&& request.referer@ == GOOGLE_TTS_REFERER@
    &&& rpc_body(chunk, settings.lang, settings.slow) == Ok::<Seq<char>, Failure>(request.body@)
}

/// The items of the call's argument list.
pub fn rpc_parameter(text: &str, lang: &str, slow: bool) -> (items: Vec<Option<String>>)
    ensures
        items.deep_view() == rpc_parameter_items(text@, lang@, slow),
{
    let speed = if slow {
        "true"
    } else {
        "null"
    };
    let mut items: Vec<Option<String>> = Vec::new();
    items.push(Some(String::from_str(text)));
    items.push(Some(String::from_str(lang)));
    items.push(Some(String::from_str(speed)));
    items.push(Some(String::from_str("null")));
    assert(items.deep_view() =~= rpc_parameter_items(text@, lang@, slow));
    items
}

/// The items of the call whose argument list is `parameter`.
pub fn rpc_call(parameter: &str) -> (items: Vec<Option<String>>)
    ensures
        items.deep_view() == rpc_call_items(parameter@),
{
    let mut items: Vec<Option<String>> = Vec::new();
    items.push(Some(String::from_str(GOOGLE_TTS_RPC)));
    items.push(Some(String::from_str(parameter)));
    items.push(None);
    items.push(Some(String::from_str("generic")));
    assert(items.deep_view() =~= rpc_call_items(parameter@));
    items
}

/// The form-encoded body that carries the call `call` in its envelope.
pub fn rpc_form_body(call: &str) -> (body: String)
    ensures
        body@ == form_body(rpc_envelope(call@)),
{
    let mut envelope = String::from_str("[[");
    envelope.append(call);
    envelope.append("]]");
    let encoded = url_encode(envelope.as_str());
    let mut body = String::from_str("f.req=");
    body.append(encoded.as_str());
    body.append("&");
    body
}

// ---------------------------------------------------------------------------
// The response
// ---------------------------------------------------------------------------

/// The bytes that base64 text stands for; the decoder's message where the
/// text is not well-formed.
pub uninterp spec fn base64_decoded(text: Seq<char>) -> Result<Seq<u8>, Seq<char>>;

/// `Engine::decode` of the standard engine reads padded base64 text in the
/// standard alphabet. Bytes and failure depend on the text alone, so they
/// are given the name [`base64_decoded`].
#[verifier::external_body]
fn base64_decode(text: &str) -> (res: Result<Vec<u8>, String>)
    ensures
        match res {
            Ok(bytes) => base64_decoded(text@) == Ok::<Seq<u8>, Seq<char>>(bytes@),
            Err(detail) => base64_decoded(text@) == Err::<Seq<u8>, Seq<char>>(detail@),
        },
{
    match base64::Engine::decode(&base64::engine::general_purpose::STANDARD, text) {
        Ok(bytes) => Ok(bytes),
        Err(error) => Err(error.to_string()),
    }
}

/// The audio text of a response: what stands between the first
/// [`AUDIO_OPEN`] and the first [`AUDIO_CLOSE`] after it. A response that
/// lacks either has none.
pub open spec fn audio_text(body: Seq<char>) -> Option<Seq<char>> {
    match first_occurrence(body, AUDIO_OPEN@, 0) {
        None => None,
        Some(open) => {
            let start = open + AUDIO_OPEN@.len();
            match first_occurrence(body, AUDIO_CLOSE@, start) {
                None => None,
                Some(close) => Some(body.subrange(start, close)),
            }
        },
    }
}

/// What decoded audio text comes to: the bytes where there are any, a
/// failure for want of audio where there are none, a decoding failure where
/// the text could not be decoded.
pub open spec fn accepted_audio(decoded: Result<Seq<u8>, Seq<char>>) -> Result<Seq<u8>, Failure> {
    match decoded {
        Ok(audio) => if audio.len() > 0 {
            Ok(audio)
        } else {
            Err(Failure::NoAudio)
        },
        Err(detail) => Err(Failure::Decode(DECODE_PREFIX@ + detail)),
    }
}

/// The audio in a response: a failure for want of audio where the response
/// holds no audio text, else what its audio text decodes to.
pub open spec fn response_audio(body: Seq<char>) -> Result<Seq<u8>, Failure> {
    match audio_text(body) {
        None => Err(Failure::NoAudio),
        Some(text) => accepted_audio(base64_decoded(text)),
    }
}

/// A response in which the opening marker stands nowhere holds no audio.
pub proof fn lemma_no_marker_no_audio(body: Seq<char>)
    requires
        !contains(body, AUDIO_OPEN@),
    ensures
        audio_text(body) is None,
        response_audio(body) == Err::<Seq<u8>, Failure>(Failure::NoAudio),
{
    lemma_absent_has_no_occurrence(body, AUDIO_OPEN@);
}

/// The audio text of a response.
pub fn find_audio_text(body: &str) -> (found: Option<String>)
    ensures
        match found {
            Some(text) => audio_text(body@) == Some(text@),
            None => audio_text(body@) is None,
        },
{
    let hay = to_chars(body);
    let open = to_chars(AUDIO_OPEN);
    let close = to_chars(AUDIO_CLOSE);
    match find(hay.as_slice(), open.as_slice(), 0) {
        None => None,
        Some(at) => {
            assert(at + open@.len() <= hay.len());
            let start = at + open.len();
            match find(hay.as_slice(), close.as_slice(), start) {
                None => None,
                Some(end) => Some(to_text(slice_subrange(hay.as_slice(), start, end))),
            }
        },
    }
}

/// What decoded audio text comes to.
pub fn accept_audio(decoded: Result<Vec<u8>, String>) -> (res: Result<Vec<u8>, I18nError>)
    ensures
        match res {
            Ok(audio) => decoded matches Ok(bytes) && accepted_audio(
                Ok::<Seq<u8>, Seq<char>>(bytes@),
            ) == Ok::<Seq<u8>, Failure>(audio@),
            Err(error) => match decoded {
                Ok(bytes) => accepted_audio(Ok::<Seq<u8>, Seq<char>>(bytes@)) == Err::<
                    Seq<u8>,
                    Failure,
                >(error@),
                Err(detail) => accepted_audio(Err::<Seq<u8>, Seq<char>>(detail@)) == Err::<
                    Seq<u8>,
                    Failure,
                >(error@),
            },
        },
{
    match decoded {
        Ok(bytes) => {
            if bytes.len() > 0 {
                Ok(bytes)
            } else {
                Err(I18nError::NoAudioReceived)
            }
        },
        Err(detail) => Err(
            I18nError::DecodeError(String::from_str(DECODE_PREFIX).concat(detail.as_str())),
        ),
    }
}

/// The audio in a response.
pub fn extract_audio(body: &str) -> (res: Result<Vec<u8>, I18nError>)
    ensures
        match res {
            Ok(audio) => response_audio(body@) == Ok::<Seq<u8>, Failure>(audio@),
            Err(error) => response_audio(body@) == Err::<Seq<u8>, Failure>(error@),
        },
        !contains(body@, AUDIO_OPEN@) ==> (res matches Err(error) && error@ == Failure::NoAudio),
{
    proof {
        if !contains(body@, AUDIO_OPEN@) {
            lemma_no_marker_no_audio(body@);
        }
    }
    match find_audio_text(body) {
        None => Err(I18nError::NoAudioReceived),
        Some(text) => accept_audio(base64_decode(text.as_str())),
    }
}

/// The views of a sequence of byte vectors.
pub open spec fn parts_view(parts: Seq<Vec<u8>>) -> Seq<Seq<u8>> {
    parts.map_values(|part: Vec<u8>| part@)
}

/// The lengths of `parts` added up.
pub open spec fn total_len(parts: Seq<Seq<u8>>) -> nat
    decreases parts.len(),
{
    if parts.len() == 0 {
        0
    } else {
        total_len(parts.drop_last()) + parts.last().len()
    }
}

/// Audio put end to end is as long as its parts together, and a part put
/// behind it stands at its end.
pub proof fn lemma_joined_audio(parts: Seq<Seq<u8>>)
    ensures
        parts.flatten().len() == total_len(parts),
        parts.len() > 0 ==> parts.flatten() == parts.drop_last().flatten() + parts.last(),
    decreases parts.len(),
{
    if parts.len() > 0 {
        lemma_joined_audio(parts.drop_last());
        parts.drop_last().lemma_flatten_push(parts.last());
        assert(parts.drop_last().push(parts.last()) =~= parts);
    }
}

/// The audio of `parts` put end to end, in their order.
pub fn concat_audio(parts: &Vec<Vec<u8>>) -> (audio: Vec<u8>)
    ensures
        audio@ == parts_view(parts@).flatten(),
        audio@.len() == total_len(parts_view(parts@)),
{
    let ghost all = parts_view(parts@);
    let mut audio: Vec<u8> = Vec::new();
    let mut i: usize = 0;
    assert(all.take(0) =~= Seq::<Seq<u8>>::empty());
    while i < parts.len()
        invariant
            i <= parts@.len(),
            all == parts_view(parts@),
            audio@ == all.take(i as int).flatten(),
        decreases parts@.len() - i,
    {
        let ghost before = audio@;
        audio.extend_from_slice(parts[i].as_slice());
        proof {
            assert(audio@ =~= before + parts@[i as int]@);
            assert(all.take(i + 1) =~= all.take(i as int).push(parts@[i as int]@));
            all.take(i as int).lemma_flatten_push(parts@[i as int]@);
        }
        i += 1;
    }
    proof {
        assert(all.take(parts@.len() as int) =~= all);
        lemma_joined_audio(all);
    }
    audio
}

// ---------------------------------------------------------------------------
// The provider
// ---------------------------------------------------------------------------

/// The languages that the Google provider is known to speak, in the order
/// in which it lists them.
pub open spec fn google_languages() -> Seq<Seq<char>> {
    seq![
        "en"@, "es"@, "fr"@, "de"@, "it"@, "pt"@, "ru"@, "ja"@, "ko"@, "zh"@, "ar"@, "hi"@, "nl"@,
        "pl"@, "tr"@, "sv"@, "da"@, "no"@, "fi"@, "cs"@,
    ]
}

impl GoogleTTS {
    /// A provider that speaks `lang` through the endpoint under `tld`,
    /// slowly where `slow` is set.
    pub fn new(lang: &str, tld: &str, slow: bool) -> (tts: Self)
        ensures
            tts@ == (GoogleSettings { lang: lang@, tld: tld@, slow }),
    {
        GoogleTTS { lang: String::from_str(lang), tld: String::from_str(tld), slow }
    }

    /// The chunks that `text` is spoken in: the trimmed text alone where it
    /// has at most [`GOOGLE_TTS_MAX_CHARS`] characters, its sentences packed
    /// into chunks where it has more.
    pub fn tokenize(&self, text: &str) -> (chunks: Vec<String>)
        ensures
            chunks.deep_view() == chunks_of(text@, GOOGLE_TTS_MAX_CHARS as int),
            trimmed(text@).len() <= GOOGLE_TTS_MAX_CHARS ==> chunks.deep_view() == seq![
                trimmed(text@),
            ],
    {
        chunk_text(text, GOOGLE_TTS_MAX_CHARS)
    }

    /// The body of the request that asks for `text` to be spoken.
    pub fn package_rpc(&self, text: &str) -> (res: Result<String, I18nError>)
        ensures
            match res {
                Ok(body) => rpc_body(text@, self@.lang, self@.slow) == Ok::<Seq<char>, Failure>(
                    body@,
                ),
                Err(error) => rpc_body(text@, self@.lang, self@.slow) == Err::<
                    Seq<char>,
                    Failure,
                >(error@),
            },
    {
        let parameter_items = rpc_parameter(text, self.lang.as_str(), self.slow);
        match to_json_array(&parameter_items) {
            Err(detail) => Err(I18nError::ProtocolError(detail)),
            Ok(parameter) => {
                let call_items = rpc_call(parameter.as_str());
                match to_json_array(&call_items) {
                    Err(detail) => Err(I18nError::ProtocolError(detail)),
                    Ok(call) => Ok(rpc_form_body(call.as_str())),
                }
            },
        }
    }

    /// The address of the endpoint.
    pub fn endpoint(&self) -> (url: String)
        ensures
            url@ == endpoint_text(self@.tld),
    {
        let mut url = String::from_str("https://translate.google.");
        url.append(self.tld.as_str());
        url.append("/_/TranslateWebserverUi/data/batchexecute");
        url
    }

    /// The request that asks for `chunk` to be spoken.
    pub fn request(&self, chunk: &str) -> (res: Result<GoogleRequest, I18nError>)
        ensures
            match res {
                Ok(request) => is_request_for(request, chunk@, self@),
                Err(error) => rpc_body(chunk@, self@.lang, self@.slow) == Err::<
                    Seq<char>,
                    Failure,
                >(error@),
            },
    {
        match self.package_rpc(chunk) {
            Err(error) => Err(error),
            Ok(body) => Ok(
                GoogleRequest {
                    url: self.endpoint(),
                    content_type: GOOGLE_TTS_CONTENT_TYPE,
                    user_agent: GOOGLE_TTS_USER_AGENT,
                    referer: GOOGLE_TTS_REFERER,
                    body,
                },
            ),
        }
    }

    /// The languages that the provider is known to speak.
    pub fn get_supported_languages(&self) -> (languages: Vec<&'static str>)
        ensures
            languages@.len() == 20,
            languages@.map_values(|l: &'static str| l@) == google_languages(),
    {
        let languages = vec![
            "en", "es", "fr", "de", "it", "pt", "ru", "ja", "ko", "zh", "ar", "hi", "nl", "pl",
            "tr", "sv", "da", "no", "fi", "cs",
        ];
        assert(languages@.map_values(|l: &'static str| l@) =~= google_languages());
        languages
    }
}

// ---------------------------------------------------------------------------
// The course of one synthesis
// ---------------------------------------------------------------------------

/// Where a synthesis stands.
#[derive(Debug, Clone, PartialEq, Eq)]
pub enum GoogleState {
    /// A request for the next chunk is under way.
    Requesting,
    /// Every chunk has been answered with audio.
    Done,
    /// The synthesis failed.
    Failed(I18nError),
}

/// Where a synthesis stands, with a failure's detail as plain text.
pub enum GooglePhase {
    Requesting,
    Done,
    Failed(Failure),
}

impl View for GoogleState {
    type V = GooglePhase;

    open spec fn view(&self) -> GooglePhase {
        match *self {
            GoogleState::Requesting => GooglePhase::Requesting,
            GoogleState::Done => GooglePhase::Done,
            GoogleState::Failed(error) => GooglePhase::Failed(error@),
        }
    }
}

/// What came of the request handed out last.
#[derive(Debug, Clone, PartialEq, Eq)]
pub enum GoogleEvent {
    /// The endpoint answered; holds the text of the response.
    Response(String),
    /// The request failed on the way; holds the transport's message.
    TransportError(String),
}

/// What the caller is to do next.
#[derive(Debug, Clone, PartialEq, Eq)]
pub enum GoogleAction {
    /// Post this request, then report what came back.
    Post(GoogleRequest),
    /// Stop; [`GoogleSession::finish`] holds the result.
    Finish,
}

/// One synthesis under way.
#[derive(Debug)]
pub struct GoogleSession {
    state: GoogleState,
    chunks: Vec<String>,
    parts: Vec<Vec<u8>>,
}

/// One synthesis under way, as plain values.
pub struct GoogleSessionView {
    pub phase: GooglePhase,
    /// The chunks of the text, in order.
    pub chunks: Seq<Seq<char>>,
    /// The audio of the chunks answered so far, in the order of the chunks.
    pub parts: Seq<Seq<u8>>,
}

impl GoogleSessionView {
    /// The same synthesis in another phase.
    pub open spec fn moved(self, phase: GooglePhase) -> GoogleSessionView {
        GoogleSessionView { phase, ..self }
    }

    /// The synthesis as it goes on from the parts it has: done where every
    /// chunk has its part, requesting the next chunk where its request can
    /// be written, failed where it cannot.
    pub open spec fn resumed(self, settings: GoogleSettings) -> GoogleSessionView {
        if self.parts.len() >= self.chunks.len() {
            self.moved(GooglePhase::Done)
        } else {
            match rpc_body(self.chunks[self.parts.len() as int], settings.lang, settings.slow) {
                Ok(_) => self.moved(GooglePhase::Requesting),
                Err(failure) => self.moved(GooglePhase::Failed(failure)),
            }
        }
    }

    /// The synthesis after `event`. A response with audio adds a part, and
    /// the synthesis goes on from there; a response without, or a failing
    /// transport, fails the synthesis as a whole.
    pub open spec fn after(self, event: GoogleEvent, settings: GoogleSettings) -> GoogleSessionView {
        match self.phase {
            GooglePhase::Requesting => match event {
                GoogleEvent::Response(body) => match response_audio(body@) {
                    Ok(audio) => (GoogleSessionView {
                        parts: self.parts.push(audio),
                        ..self
                    }).resumed(settings),
                    Err(failure) => self.moved(GooglePhase::Failed(failure)),
                },
                GoogleEvent::TransportError(detail) => self.moved(
                    GooglePhase::Failed(Failure::Network(detail@)),
                ),
            },
            GooglePhase::Done => self,
            GooglePhase::Failed(_) => self,
        }
    }

    /// What the synthesis has to show: the parts put end to end once it is
    /// done, the failure once it has failed, a protocol failure as long as
    /// it is under way.
    pub open spec fn outcome(self) -> Result<Seq<u8>, Failure> {
        match self.phase {
            GooglePhase::Done => Ok(self.parts.flatten()),
            GooglePhase::Failed(failure) => Err(failure),
            GooglePhase::Requesting => Err(Failure::Protocol(UNFINISHED@)),
        }
    }

    /// Whether `action` is what a caller is to do once the synthesis stands
    /// here: post the request for the first chunk without a part while
    /// requesting, stop otherwise.
    pub open spec fn calls_for(self, action: GoogleAction, settings: GoogleSettings) -> bool {
        match self.phase {
            GooglePhase::Requesting => {
                &&& action matches GoogleAction::Post(request)
                &&& self.parts.len() < self.chunks.len()
                &&& is_request_for(request, self.chunks[self.parts.len() as int], settings)
            },
            GooglePhase::Done => action is Finish,
            GooglePhase::Failed(_) => action is Finish,
        }
    }
}

/// A response with audio puts its audio behind the parts gathered before
/// it, and the audio of a finished synthesis ends with it.
pub proof fn lemma_response_adds_part(
    session: GoogleSessionView,
    body: String,
    settings: GoogleSettings,
)
    requires
        session.phase == GooglePhase::Requesting,
        response_audio(body@) is Ok,
    ensures
        session.after(GoogleEvent::Response(body), settings).parts == session.parts.push(
            response_audio(body@)->Ok_0,
        ),
        session.after(GoogleEvent::Response(body), settings).chunks == session.chunks,
        session.after(GoogleEvent::Response(body), settings).phase == GooglePhase::Done
            ==> session.after(GoogleEvent::Response(body), settings).outcome() == Ok::<
            Seq<u8>,
            Failure,
        >(session.parts.flatten() + response_audio(body@)->Ok_0),
{
    session.parts.lemma_flatten_push(response_audio(body@)->Ok_0);
}

impl View for GoogleSession {
    type V = GoogleSessionView;

    closed spec fn view(&self) -> GoogleSessionView {
        GoogleSessionView {
            phase: self.state@,
            chunks: self.chunks.deep_view(),
            parts: parts_view(self.parts@),
        }
    }
}

impl GoogleSession {
    /// Where the synthesis stands.
    pub fn state(&self) -> (state: &GoogleState)
        ensures
            state@ == self@.phase,
    {
        &self.state
    }

    /// Ends the synthesis and hands out what it has to show.
    pub fn finish(self) -> (res: Result<Vec<u8>, I18nError>)
        ensures
            match res {
                Ok(audio) => self@.outcome() == Ok::<Seq<u8>, Failure>(audio@),
                Err(error) => self@.outcome() == Err::<Seq<u8>, Failure>(error@),
            },
    {
        match self.state {
            GoogleState::Done => Ok(concat_audio(&self.parts)),
            GoogleState::Failed(error) => Err(error),
            GoogleState::Requesting => Err(
                I18nError::ProtocolError(String::from_str(UNFINISHED)),
            ),
        }
    }
}

impl GoogleTTS {
    /// Goes on from the parts that `session` has.
    fn resume(&self, session: &mut GoogleSession) -> (action: GoogleAction)
        ensures
            final(session)@ == old(session)@.resumed(self@),
            final(session)@.calls_for(action, self@),
    {
        let done = session.parts.len();
        if done >= session.chunks.len() {
            session.state = GoogleState::Done;
            return GoogleAction::Finish;
        }
        match self.request(session.chunks[done].as_str()) {
            Ok(request) => {
                session.state = GoogleState::Requesting;
                GoogleAction::Post(request)
            },
            Err(error) => {
                session.state = GoogleState::Failed(error);
                GoogleAction::Finish
            },
        }
    }

    /// Starts a synthesis of `text`. Text that is empty once trimmed is
    /// refused, and nothing is to be done for it; any other text is cut
    /// into chunks, and the caller is to post the request for the first.
    pub fn begin(&self, text: &str) -> (res: Result<(GoogleSession, GoogleAction), I18nError>)
        ensures
            match res {
                Ok((session, action)) => {
                    &&& trimmed(text@).len() > 0
                    &&& session@ == (GoogleSessionView {
                        phase: GooglePhase::Requesting,
                        chunks: chunks_of(text@, GOOGLE_TTS_MAX_CHARS as int),
                        parts: Seq::empty(),
                    }).resumed(self@)
                    &&& session@.calls_for(action, self@)
                },
                Err(error) => trimmed(text@).len() == 0 && error@ == Failure::EmptyInput,
            },
    {
        let chars = to_chars(text);
        if trim(chars.as_slice()).len() == 0 {
            return Err(I18nError::EmptyInput);
        }
        let mut session = GoogleSession {
            state: GoogleState::Requesting,
            chunks: self.tokenize(text),
            parts: Vec::new(),
        };
        assert(parts_view(session.parts@) =~= Seq::<Seq<u8>>::empty());
        let action = self.resume(&mut session);
        Ok((session, action))
    }

    /// Takes in what came of the last request and says what to do next.
    pub fn advance(&self, session: &mut GoogleSession, event: GoogleEvent) -> (action: GoogleAction)
        ensures
            final(session)@ == old(session)@.after(event, self@),
            final(session)@.calls_for(action, self@),
    {
        match session.state {
            GoogleState::Requesting => match event {
                GoogleEvent::Response(body) => match extract_audio(body.as_str()) {
                    Ok(audio) => {
                        let ghost before = parts_view(session.parts@);
                        session.parts.push(audio);
                        assert(parts_view(session.parts@) =~= before.push(audio@));
                        self.resume(session)
                    },
                    Err(error) => {
                        session.state = GoogleState::Failed(error);
                        GoogleAction::Finish
                    },
                },
                GoogleEvent::TransportError(detail) => {
                    session.state = GoogleState::Failed(I18nError::NetworkError(detail));
                    GoogleAction::Finish
                },
            },
            GoogleState::Done => GoogleAction::Finish,
            GoogleState::Failed(_) => GoogleAction::Finish,
        }
    }
}

} // verus!
