use tts_gateway::backend::{check_mp3_length, polly_ssml, AudioEncoding, PollyFormat, TTSMode};
use tts_gateway::errors::Error;

#[test]
fn rate_above_max_fails_for_every_finite_backend() {
    for mode in [TTSMode::Polly, TTSMode::eSpeak, TTSMode::gCloud] {
        let max = mode.max_speaking_rate().expect("finite maximum");
        let r = mode.check_speaking_rate(Some(max + 1));
        assert!(matches!(r, Err(Error::InvalidSpeakingRate(x)) if x == max + 1));
    }
}

#[test]
fn rate_at_or_below_max_never_fails() {
    for mode in [TTSMode::Polly, TTSMode::eSpeak, TTSMode::gCloud] {
        let max = mode.max_speaking_rate().unwrap();
        assert!(mode.check_speaking_rate(Some(max)).is_ok());
        assert!(mode.check_speaking_rate(Some(max - 1)).is_ok());
        assert!(mode.check_speaking_rate(None).is_ok());
    }
}

#[test]
fn unconstrained_backend_accepts_any_rate() {
    assert!(TTSMode::gTTS.max_speaking_rate().is_none());
    assert!(TTSMode::gTTS.check_speaking_rate(Some(u32::MAX)).is_ok());
}

#[test]
fn max_rates_are_the_documented_ones() {
    // Hundredths of each backend's unit: 500%, 400 words per minute, a
    // multiplier of 4.
    assert_eq!(TTSMode::Polly.max_speaking_rate(), Some(50000));
    assert_eq!(TTSMode::eSpeak.max_speaking_rate(), Some(40000));
    assert_eq!(TTSMode::gCloud.max_speaking_rate(), Some(400));
}

#[test]
fn fractional_rates_are_ordinary_values() {
    // A gCloud multiplier of 1.5 (150 hundredths) is within the maximum of
    // 4 (400 hundredths); 4.5 is not.
    assert!(TTSMode::gCloud.check_speaking_rate(Some(150)).is_ok());
    assert!(matches!(
        TTSMode::gCloud.check_speaking_rate(Some(450)),
        Err(Error::InvalidSpeakingRate(450))
    ));
}

#[test]
fn mode_names() {
    assert_eq!(TTSMode::gTTS.as_str(), "gTTS");
    assert_eq!(TTSMode::Polly.as_str(), "Polly");
    assert_eq!(TTSMode::eSpeak.as_str(), "eSpeak");
    assert_eq!(TTSMode::gCloud.as_str(), "gCloud");
}

#[test]
fn default_content_types() {
    assert_eq!(TTSMode::gTTS.default_content_type(), "audio/mpeg");
    assert_eq!(TTSMode::eSpeak.default_content_type(), "audio/wav");
    assert_eq!(TTSMode::gCloud.default_content_type(), "audio/opus");
    assert_eq!(TTSMode::Polly.default_content_type(), "audio/ogg");
}

#[test]
fn undecodable_mp3_gets_benefit_of_the_doubt() {
    assert!(check_mp3_length(None, 1));
}

#[test]
fn decoded_mp3_duration_is_compared_strictly() {
    assert!(check_mp3_length(Some(2), 3));
    assert!(!check_mp3_length(Some(3), 3));
}

#[test]
fn gtts_length_check_uses_the_decoded_duration() {
    let audio = vec![0u8; 16];
    assert!(TTSMode::gTTS.check_length(&audio, Some(3), Some(2)).is_ok());
    assert!(matches!(
        TTSMode::gTTS.check_length(&audio, Some(2), Some(3)),
        Err(Error::AudioTooLong)
    ));
    assert!(TTSMode::gTTS.check_length(&audio, Some(1), None).is_ok());
}

#[test]
fn length_check_is_trivial_for_compressed_backends() {
    assert!(TTSMode::gCloud.check_length(&vec![0u8; 4], Some(0), None).is_ok());
    assert!(TTSMode::Polly.check_length(&vec![0u8; 4], Some(0), None).is_ok());
}

#[test]
fn length_check_absent_maximum_always_passes() {
    assert!(TTSMode::eSpeak.check_length(&vec![0u8; 4], None, None).is_ok());
}

#[test]
fn espeak_length_check_rejects_overlong_wav() {
    // 8000 Hz-field * 1 * 8 bits / 8 = 8000 bytes per second; 16000 bytes
    // is 2 seconds.
    let mut wav = vec![0u8; 16_000];
    wav[22..24].copy_from_slice(&8000u16.to_le_bytes());
    wav[24..28].copy_from_slice(&1u32.to_le_bytes());
    wav[34..36].copy_from_slice(&8u16.to_le_bytes());
    assert!(matches!(
        TTSMode::eSpeak.check_length(&wav, Some(2), None),
        Err(Error::AudioTooLong)
    ));
    assert!(TTSMode::eSpeak.check_length(&wav, Some(3), None).is_ok());
}

#[test]
fn encoding_from_str_exact_names() {
    assert_eq!(AudioEncoding::from_str("LINEAR16"), Some(AudioEncoding::LINEAR16));
    assert_eq!(AudioEncoding::from_str("OGG_OPUS"), Some(AudioEncoding::OGG_OPUS));
    assert_eq!(AudioEncoding::from_str("MULAW"), Some(AudioEncoding::MULAW));
    assert_eq!(AudioEncoding::from_str("ALAW"), Some(AudioEncoding::ALAW));
    assert_eq!(AudioEncoding::from_str("MP3"), Some(AudioEncoding::MP3));
    assert_eq!(AudioEncoding::from_str("mp3"), None);
    assert_eq!(AudioEncoding::from_str("FLAC"), None);
}

#[test]
fn encoding_preference_is_case_insensitive_with_opus_default() {
    let mp3 = String::from("mp3");
    let linear = String::from("Linear16");
    let junk = String::from("flac");
    assert_eq!(AudioEncoding::preference(Some(&mp3)), AudioEncoding::MP3);
    assert_eq!(AudioEncoding::preference(Some(&linear)), AudioEncoding::LINEAR16);
    assert_eq!(AudioEncoding::preference(Some(&junk)), AudioEncoding::OGG_OPUS);
    assert_eq!(AudioEncoding::preference(None), AudioEncoding::OGG_OPUS);
}

#[test]
fn encoding_content_types() {
    assert_eq!(AudioEncoding::LINEAR16.content_type(), "audio/wav");
    assert_eq!(AudioEncoding::ALAW.content_type(), "audio/wav");
    assert_eq!(AudioEncoding::MULAW.content_type(), "audio/wav");
    assert_eq!(AudioEncoding::OGG_OPUS.content_type(), "audio/opus");
    assert_eq!(AudioEncoding::MP3.content_type(), "audio/mpeg");
}

#[test]
fn polly_format_preference() {
    let mp3 = String::from("MP3");
    let pcm = String::from("pcm");
    let junk = String::from("wav");
    assert_eq!(PollyFormat::preference(Some(&mp3)), PollyFormat::Mp3);
    assert_eq!(PollyFormat::preference(Some(&pcm)), PollyFormat::Pcm);
    assert_eq!(PollyFormat::preference(Some(&junk)), PollyFormat::OggVorbis);
    assert_eq!(PollyFormat::preference(None), PollyFormat::OggVorbis);
    assert_eq!(PollyFormat::OggVorbis.as_str(), "ogg_vorbis");
}

#[test]
fn polly_ssml_wraps_text_with_rate() {
    assert_eq!(
        polly_ssml("hello world", 12000),
        "<speak><prosody rate=\"120%\">hello world</prosody></speak>"
    );
    assert_eq!(
        polly_ssml("x", 12050),
        "<speak><prosody rate=\"120.5%\">x</prosody></speak>"
    );
}

#[test]
fn error_codes_statuses_and_messages() {
    let cases: Vec<(Error, u8, u16, String)> = vec![
        (Error::TranslationDisabled, 5, 400, String::from("Translation requested but no key has been provided")),
        (Error::Unauthorized, 4, 403, String::from("Unauthorized request")),
        (Error::InvalidSpeakingRate(32100), 3, 400, String::from("Invalid speaking rate: 321")),
        (Error::InvalidSpeakingRate(450), 3, 400, String::from("Invalid speaking rate: 4.5")),
        (Error::AudioTooLong, 2, 400, String::from("Max length exceeded!")),
        (Error::UnknownVoice(String::from("xx")), 1, 400, String::from("Unknown voice: xx")),
        (Error::UpstreamFailure(String::from("boom")), 0, 500, String::from("Unknown error: boom")),
    ];
    for (error, code, status, message) in cases {
        assert_eq!(error.code(), code);
        assert_eq!(error.status(), status);
        assert_eq!(error.message(), message);
    }
}
