use i18n::error::I18nError;
use i18n::tts::base::TTSConfig;
use i18n::tts::edge::{
    compact_id, config_message, connection_url, frame_audio, fresh_id, is_turn_end, EdgeAction,
    EdgeEvent, EdgeSession, EdgeState, EdgeTTS, Voice,
};

const CONFIG_TAIL: &str = "\r\nContent-Type:application/json; charset=utf-8\r\nPath:speech.config\r\n\r\n{\"context\":{\"synthesis\":{\"audio\":{\"metadataoptions\":{\"sentenceBoundaryEnabled\":\"false\",\"wordBoundaryEnabled\":\"false\"},\"outputFormat\":\"audio-24khz-48kbitrate-mono-mp3\"}}}}\r\n";

const WSS_URL: &str = "wss://speech.platform.bing.com/consumer/speech/synthesize/readaloud/edge/v1";

fn is_hex_id(id: &str) -> bool {
    id.len() == 32 && id.chars().all(|c| matches!(c, '0'..='9' | 'a'..='f'))
}

fn binary_frame(header: &str, audio: &[u8]) -> Vec<u8> {
    let mut frame = (header.len() as u16).to_be_bytes().to_vec();
    frame.extend_from_slice(header.as_bytes());
    frame.extend_from_slice(audio);
    frame
}

fn receiving(tts: &EdgeTTS, text: &str) -> EdgeSession {
    let (mut session, _) = tts.begin(text).unwrap();
    tts.advance(&mut session, EdgeEvent::Connected);
    tts.advance(&mut session, EdgeEvent::Sent);
    assert_eq!(tts.advance(&mut session, EdgeEvent::Sent), EdgeAction::Receive);
    session
}

#[test]
fn new_takes_the_voice_and_leaves_prosody_unchanged() {
    let tts = EdgeTTS::new("en-GB-SoniaNeural");
    let config = tts.config();
    assert_eq!(config.voice, "en-GB-SoniaNeural");
    assert_eq!(config.pitch, "+0Hz");
    assert_eq!(config.rate, "+0%");
    assert_eq!(config.volume, "+0%");
}

#[test]
fn default_config_speaks_with_the_default_voice() {
    let config = TTSConfig::default();
    assert_eq!(config.voice, "en-US-AriaNeural");
    assert_eq!(config.pitch, "+0Hz");
    assert_eq!(config.rate, "+0%");
    assert_eq!(config.volume, "+0%");
    assert_eq!(EdgeTTS::new("en-US-AriaNeural").config(), &config);
}

#[test]
fn with_config_keeps_the_config() {
    let config = TTSConfig {
        voice: "de-DE-KatjaNeural".to_string(),
        pitch: "-5Hz".to_string(),
        rate: "+20%".to_string(),
        volume: "-10%".to_string(),
    };
    assert_eq!(EdgeTTS::with_config(config.clone()).config(), &config);
}

#[test]
fn voice_holds_its_four_names() {
    let voice = Voice {
        name: "Microsoft Aria Online (Natural) - English (United States)".to_string(),
        short_name: "en-US-AriaNeural".to_string(),
        gender: "Female".to_string(),
        locale: "en-US".to_string(),
    };
    assert_eq!(voice.clone(), voice);
    assert_eq!(voice.short_name, "en-US-AriaNeural");
}

#[test]
fn compact_id_takes_the_hyphens_out() {
    assert_eq!(
        compact_id("a1a2a3a4-b1b2-c1c2-d1d2-d3d4d5d6d7d8"),
        "a1a2a3a4b1b2c1c2d1d2d3d4d5d6d7d8"
    );
    assert_eq!(compact_id("--a--b-"), "ab");
    assert_eq!(compact_id(""), "");
    assert_eq!(compact_id("no hyphen"), "no hyphen");
}

#[test]
fn fresh_id_is_thirty_two_hex_digits() {
    for _ in 0..16 {
        let id = fresh_id();
        assert!(is_hex_id(&id), "{}", id);
    }
}

#[test]
fn connection_url_carries_the_identifier() {
    assert_eq!(
        connection_url("0123456789abcdef0123456789abcdef"),
        format!("{}?ConnectionId=0123456789abcdef0123456789abcdef", WSS_URL)
    );
}

#[test]
fn config_message_is_headers_then_json() {
    assert_eq!(
        config_message("2024-05-06T07:08:09.123456+00:00"),
        format!("X-Timestamp:2024-05-06T07:08:09.123456+00:00{}", CONFIG_TAIL)
    );
}

#[test]
fn create_config_message_stamps_the_frame() {
    let message = EdgeTTS::new("en-US-AriaNeural").create_config_message();
    let rest = message.strip_prefix("X-Timestamp:").unwrap();
    let timestamp = rest.strip_suffix(CONFIG_TAIL).unwrap();
    assert_eq!(message, config_message(timestamp));
    assert!(!timestamp.contains('\r'));
}

#[test]
fn ssml_message_wraps_the_escaped_text_in_voice_and_prosody() {
    let tts = EdgeTTS::with_config(TTSConfig {
        voice: "en-US-GuyNeural".to_string(),
        pitch: "+2Hz".to_string(),
        rate: "-10%".to_string(),
        volume: "+5%".to_string(),
    });
    let message = tts.ssml_message("id0", "2024-01-02T03:04:05+00:00", "a < b && c > d");
    assert_eq!(
        message,
        "X-RequestId:id0\r\nContent-Type:application/ssml+xml\r\nX-Timestamp:2024-01-02T03:04:05+00:00Z\r\nPath:ssml\r\n\r\n<speak version='1.0' xmlns='http://www.w3.org/2001/10/synthesis' xml:lang='en-US'><voice name='en-US-GuyNeural'><prosody pitch='+2Hz' rate='-10%' volume='+5%'>a &lt; b &amp;&amp; c &gt; d</prosody></voice></speak>"
    );
}

#[test]
fn ssml_message_leaves_other_characters_as_they_are() {
    let tts = EdgeTTS::new("v");
    let message = tts.ssml_message("i", "t", "\"quoted\" 'single' é 👾 /");
    assert!(message.ends_with(">\"quoted\" 'single' é 👾 /</prosody></voice></speak>"));
}

#[test]
fn create_ssml_bears_a_fresh_identifier() {
    let tts = EdgeTTS::new("en-US-AriaNeural");
    let message = tts.create_ssml("Tom & Jerry");
    let rest = message.strip_prefix("X-RequestId:").unwrap();
    let (id, rest) = rest.split_once("\r\n").unwrap();
    assert!(is_hex_id(id), "{}", id);
    let rest = rest.strip_prefix("Content-Type:application/ssml+xml\r\nX-Timestamp:").unwrap();
    let (timestamp, _) = rest.split_once("Z\r\nPath:ssml\r\n\r\n").unwrap();
    assert_eq!(message, tts.ssml_message(id, timestamp, "Tom & Jerry"));
    assert!(message.ends_with(
        "<voice name='en-US-AriaNeural'><prosody pitch='+0Hz' rate='+0%' volume='+0%'>Tom &amp; Jerry</prosody></voice></speak>"
    ));
}

#[test]
fn frame_audio_is_what_follows_the_header_block() {
    let frame = binary_frame("Path:audio\r\n", &[1, 2, 3, 4]);
    assert_eq!(frame_audio(&frame), &[1, 2, 3, 4]);
    assert_eq!(frame_audio(&[0, 2, b'h', b'i', 9, 8, 7]), &[9, 8, 7]);
    assert_eq!(frame_audio(&[0, 0, 5, 6]), &[5, 6]);
}

#[test]
fn frame_audio_reads_the_length_with_the_high_byte_first() {
    let mut frame = vec![1, 2];
    frame.extend(std::iter::repeat(b'h').take(258));
    frame.extend_from_slice(&[42, 43]);
    assert_eq!(frame_audio(&frame), &[42, 43]);
    let mut swapped = vec![2, 1];
    swapped.extend(std::iter::repeat(b'h').take(258));
    swapped.extend_from_slice(&[42, 43]);
    assert!(frame_audio(&swapped).is_empty());
}

#[test]
fn frame_with_a_header_longer_than_itself_carries_nothing() {
    assert!(frame_audio(&[0, 5, 1, 2, 3]).is_empty());
    assert!(frame_audio(&[0, 4, 1, 2, 3]).is_empty());
    assert!(frame_audio(&[255, 255]).is_empty());
    assert!(frame_audio(&[0, 1]).is_empty());
}

#[test]
fn frame_that_is_all_header_carries_nothing() {
    assert!(frame_audio(&[0, 3, 1, 2, 3]).is_empty());
    assert!(frame_audio(&[0, 0]).is_empty());
}

#[test]
fn frame_shorter_than_its_length_bytes_carries_nothing() {
    assert!(frame_audio(&[]).is_empty());
    assert!(frame_audio(&[7]).is_empty());
}

#[test]
fn turn_end_is_seen_anywhere_in_the_frame() {
    assert!(is_turn_end("Path:turn.end\r\n"));
    assert!(is_turn_end("X-RequestId:abc\r\nContent-Type:application/json\r\nPath:turn.end\r\n\r\n{}"));
    assert!(is_turn_end("Path:turn.end"));
    assert!(!is_turn_end("Path:turn.start\r\n"));
    assert!(!is_turn_end("Path:turn.en"));
    assert!(!is_turn_end("path:turn.end"));
    assert!(!is_turn_end(""));
}

#[test]
fn begin_refuses_blank_text() {
    let tts = EdgeTTS::new("en-US-AriaNeural");
    assert_eq!(tts.begin("").err(), Some(I18nError::EmptyInput));
    assert_eq!(tts.begin("  \t\r\n ").err(), Some(I18nError::EmptyInput));
}

#[test]
fn begin_asks_to_connect_under_a_fresh_identifier() {
    let tts = EdgeTTS::new("en-US-AriaNeural");
    let (session, action) = tts.begin("Hello").unwrap();
    assert_eq!(session.state(), &EdgeState::Connecting);
    match action {
        EdgeAction::Connect(url) => {
            let id = url.strip_prefix(&format!("{}?ConnectionId=", WSS_URL)).unwrap();
            assert!(is_hex_id(id), "{}", id);
        }
        other => panic!("{:?}", other),
    }
}

#[test]
fn session_sends_config_then_text_then_reads() {
    let tts = EdgeTTS::new("en-US-AriaNeural");
    let (mut session, _) = tts.begin("  Hi <there>  ").unwrap();
    match tts.advance(&mut session, EdgeEvent::Connected) {
        EdgeAction::Send(message) => {
            assert!(message.starts_with("X-Timestamp:"));
            assert!(message.ends_with(CONFIG_TAIL));
        }
        other => panic!("{:?}", other),
    }
    assert_eq!(session.state(), &EdgeState::ConfigSent);
    match tts.advance(&mut session, EdgeEvent::Sent) {
        EdgeAction::Send(message) => {
            assert!(message.starts_with("X-RequestId:"));
            assert!(message.ends_with(">Hi &lt;there&gt;</prosody></voice></speak>"));
        }
        other => panic!("{:?}", other),
    }
    assert_eq!(session.state(), &EdgeState::TextSent);
    assert_eq!(tts.advance(&mut session, EdgeEvent::Sent), EdgeAction::Receive);
    assert_eq!(session.state(), &EdgeState::Receiving);
}

#[test]
fn turn_end_after_one_audio_frame_returns_its_payload() {
    let tts = EdgeTTS::new("en-US-AriaNeural");
    let mut session = receiving(&tts, "Hello");
    let frame = binary_frame("X-RequestId:abc\r\nContent-Type:audio/mpeg\r\nPath:audio\r\n", &[10, 20, 30]);
    assert_eq!(tts.advance(&mut session, EdgeEvent::Binary(frame)), EdgeAction::Receive);
    assert_eq!(
        tts.advance(&mut session, EdgeEvent::Text("Path:turn.end\r\n".to_string())),
        EdgeAction::Finish
    );
    assert_eq!(session.state(), &EdgeState::Done);
    assert_eq!(session.finish(), Ok(vec![10, 20, 30]));
}

#[test]
fn audio_is_gathered_in_the_order_of_arrival() {
    let tts = EdgeTTS::new("en-US-AriaNeural");
    let mut session = receiving(&tts, "Hello");
    let frames = vec![
        EdgeEvent::Text("Path:turn.start\r\n".to_string()),
        EdgeEvent::Binary(binary_frame("Path:audio\r\n", &[1, 2])),
        EdgeEvent::Other,
        EdgeEvent::Binary(vec![0]),
        EdgeEvent::Binary(binary_frame("Path:audio\r\n", &[])),
        EdgeEvent::Binary(vec![0, 9, 1]),
        EdgeEvent::Binary(binary_frame("Path:audio\r\n", &[3])),
        EdgeEvent::Binary(binary_frame("", &[4, 5, 6])),
    ];
    for frame in frames {
        assert_eq!(tts.advance(&mut session, frame), EdgeAction::Receive);
        assert_eq!(session.state(), &EdgeState::Receiving);
    }
    assert_eq!(tts.advance(&mut session, EdgeEvent::Closed), EdgeAction::Finish);
    assert_eq!(session.finish(), Ok(vec![1, 2, 3, 4, 5, 6]));
}

#[test]
fn turn_end_without_audio_fails_for_want_of_audio() {
    let tts = EdgeTTS::new("en-US-AriaNeural");
    let mut session = receiving(&tts, "Hello");
    tts.advance(&mut session, EdgeEvent::Binary(binary_frame("Path:audio\r\n", &[])));
    tts.advance(&mut session, EdgeEvent::Binary(vec![0, 200, 1, 2, 3]));
    tts.advance(&mut session, EdgeEvent::Binary(vec![1]));
    assert_eq!(
        tts.advance(&mut session, EdgeEvent::Text("Path:turn.end\r\n".to_string())),
        EdgeAction::Finish
    );
    assert_eq!(session.state(), &EdgeState::Failed(I18nError::NoAudioReceived));
    assert_eq!(session.finish(), Err(I18nError::NoAudioReceived));
}

#[test]
fn closed_stream_without_any_frame_fails_for_want_of_audio() {
    let tts = EdgeTTS::new("en-US-AriaNeural");
    let mut session = receiving(&tts, "Hello");
    assert_eq!(tts.advance(&mut session, EdgeEvent::Closed), EdgeAction::Finish);
    assert_eq!(session.finish(), Err(I18nError::NoAudioReceived));
}

#[test]
fn transport_failure_fails_the_synthesis_in_every_state() {
    let tts = EdgeTTS::new("en-US-AriaNeural");
    let events_before: Vec<Vec<EdgeEvent>> = vec![
        vec![],
        vec![EdgeEvent::Connected],
        vec![EdgeEvent::Connected, EdgeEvent::Sent],
        vec![
            EdgeEvent::Connected,
            EdgeEvent::Sent,
            EdgeEvent::Sent,
            EdgeEvent::Binary(binary_frame("Path:audio\r\n", &[1, 2, 3])),
        ],
    ];
    for events in events_before {
        let (mut session, _) = tts.begin("Hello").unwrap();
        for event in events {
            tts.advance(&mut session, event);
        }
        assert_eq!(
            tts.advance(&mut session, EdgeEvent::TransportError("broken pipe".to_string())),
            EdgeAction::Finish
        );
        assert_eq!(session.finish(), Err(I18nError::NetworkError("broken pipe".to_string())));
    }
}

#[test]
fn event_out_of_turn_breaks_the_protocol() {
    let tts = EdgeTTS::new("en-US-AriaNeural");
    let unexpected = I18nError::ProtocolError("unexpected event".to_string());

    let (mut session, _) = tts.begin("Hello").unwrap();
    assert_eq!(tts.advance(&mut session, EdgeEvent::Sent), EdgeAction::Finish);
    assert_eq!(session.finish(), Err(unexpected.clone()));

    let (mut session, _) = tts.begin("Hello").unwrap();
    tts.advance(&mut session, EdgeEvent::Connected);
    assert_eq!(tts.advance(&mut session, EdgeEvent::Binary(vec![0, 0, 1])), EdgeAction::Finish);
    assert_eq!(session.finish(), Err(unexpected.clone()));

    let (mut session, _) = tts.begin("Hello").unwrap();
    tts.advance(&mut session, EdgeEvent::Connected);
    tts.advance(&mut session, EdgeEvent::Sent);
    assert_eq!(tts.advance(&mut session, EdgeEvent::Closed), EdgeAction::Finish);
    assert_eq!(session.finish(), Err(unexpected.clone()));

    let mut session = receiving(&tts, "Hello");
    assert_eq!(tts.advance(&mut session, EdgeEvent::Connected), EdgeAction::Finish);
    assert_eq!(session.finish(), Err(unexpected));
}

#[test]
fn finish_before_the_end_reports_an_unfinished_synthesis() {
    let tts = EdgeTTS::new("en-US-AriaNeural");
    let unfinished = I18nError::ProtocolError("synthesis has not finished".to_string());
    let (session, _) = tts.begin("Hello").unwrap();
    assert_eq!(session.finish(), Err(unfinished.clone()));
    let mut session = receiving(&tts, "Hello");
    tts.advance(&mut session, EdgeEvent::Binary(binary_frame("", &[1])));
    assert_eq!(session.finish(), Err(unfinished));
}

#[test]
fn a_finished_synthesis_takes_no_more_events() {
    let tts = EdgeTTS::new("en-US-AriaNeural");
    let mut session = receiving(&tts, "Hello");
    tts.advance(&mut session, EdgeEvent::Binary(binary_frame("", &[1, 2])));
    tts.advance(&mut session, EdgeEvent::Closed);
    assert_eq!(
        tts.advance(&mut session, EdgeEvent::Binary(binary_frame("", &[3]))),
        EdgeAction::Finish
    );
    assert_eq!(
        tts.advance(&mut session, EdgeEvent::TransportError("late".to_string())),
        EdgeAction::Finish
    );
    assert_eq!(session.state(), &EdgeState::Done);
    assert_eq!(session.finish(), Ok(vec![1, 2]));

    let mut failed = receiving(&tts, "Hello");
    tts.advance(&mut failed, EdgeEvent::Closed);
    assert_eq!(tts.advance(&mut failed, EdgeEvent::Closed), EdgeAction::Finish);
    assert_eq!(
        tts.advance(&mut failed, EdgeEvent::Binary(binary_frame("", &[3]))),
        EdgeAction::Finish
    );
    assert_eq!(failed.finish(), Err(I18nError::NoAudioReceived));
}

#[test]
fn edge_lists_its_twenty_locales() {
    assert_eq!(
        EdgeTTS::new("en-US-AriaNeural").get_supported_languages(),
        vec![
            "en-US", "en-GB", "en-AU", "en-CA", "en-IN", "es-ES", "es-MX", "fr-FR", "fr-CA",
            "de-DE", "it-IT", "pt-BR", "pt-PT", "ru-RU", "ja-JP", "ko-KR", "zh-CN", "zh-TW",
            "ar-SA", "hi-IN",
        ]
    );
}
