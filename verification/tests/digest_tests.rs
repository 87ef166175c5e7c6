use sha2::Digest;
use tts_gateway::backend::TTSMode;
use tts_gateway::digest::SynthesisRequest;

fn request(text: &str, voice: &str, mode: TTSMode, rate: Option<u32>) -> SynthesisRequest {
    SynthesisRequest {
        text: String::from(text),
        voice: String::from(voice),
        mode,
        speaking_rate: rate,
        preferred_format: None,
        translation_lang: None,
    }
}

#[test]
fn fingerprint_is_32_bytes() {
    let req = request("hello", "en1", TTSMode::eSpeak, Some(17500));
    assert_eq!(req.fingerprint().len(), 32);
}

#[test]
fn fingerprint_matches_digest_of_canonical_text() {
    let req = request("hello", "en1", TTSMode::eSpeak, Some(17500));
    assert_eq!(req.canonical(), "5:hello3:en16:eSpeak+5:17500--");
    let expected = sha2::Sha256::digest("5:hello3:en16:eSpeak+5:17500--".as_bytes());
    assert_eq!(req.fingerprint(), expected.to_vec());
}

#[test]
fn fingerprint_deterministic_across_constructions() {
    let a = request("some text", "voice", TTSMode::gTTS, None);
    let b = request("some text", "voice", TTSMode::gTTS, None);
    assert_eq!(a.fingerprint(), b.fingerprint());
}

#[test]
fn fingerprint_differs_when_any_field_differs() {
    let base = request("text", "voice", TTSMode::gTTS, Some(300));
    let fp = base.fingerprint();
    assert_ne!(request("texT", "voice", TTSMode::gTTS, Some(300)).fingerprint(), fp);
    assert_ne!(request("text", "voicE", TTSMode::gTTS, Some(300)).fingerprint(), fp);
    assert_ne!(request("text", "voice", TTSMode::gCloud, Some(300)).fingerprint(), fp);
    assert_ne!(request("text", "voice", TTSMode::gTTS, Some(400)).fingerprint(), fp);
    let mut with_format = request("text", "voice", TTSMode::gTTS, Some(300));
    with_format.preferred_format = Some(String::from("mp3"));
    assert_ne!(with_format.fingerprint(), fp);
    let mut with_lang = request("text", "voice", TTSMode::gTTS, Some(300));
    with_lang.translation_lang = Some(String::from("de"));
    assert_ne!(with_lang.fingerprint(), fp);
}

#[test]
fn absent_rate_differs_from_rate_zero() {
    let none = request("t", "v", TTSMode::gTTS, None);
    let zero = request("t", "v", TTSMode::gTTS, Some(0));
    assert_ne!(none.canonical(), zero.canonical());
    assert_ne!(none.fingerprint(), zero.fingerprint());
}

#[test]
fn optional_fields_cannot_stand_in_for_each_other() {
    // A present format with no translation target, against no format with
    // the same text as translation target.
    let mut with_format = request("t", "v", TTSMode::gTTS, None);
    with_format.preferred_format = Some(String::from("x"));
    let mut with_lang = request("t", "v", TTSMode::gTTS, None);
    with_lang.translation_lang = Some(String::from("x"));
    assert_ne!(with_format.canonical(), with_lang.canonical());
    assert_ne!(with_format.fingerprint(), with_lang.fingerprint());
}

#[test]
fn spaces_in_fields_cannot_shift_field_boundaries() {
    let a = request("a b", "c", TTSMode::gTTS, None);
    let b = request("a", "b c", TTSMode::gTTS, None);
    assert_ne!(a.canonical(), b.canonical());
    assert_ne!(a.fingerprint(), b.fingerprint());
}

#[test]
fn canonical_includes_optional_fields_when_present() {
    let mut req = request("t", "v", TTSMode::Polly, Some(10000));
    req.preferred_format = Some(String::from("pcm"));
    req.translation_lang = Some(String::from("fr"));
    assert_eq!(req.canonical(), "1:t1:v5:Polly+5:10000+3:pcm+2:fr");
}

#[test]
fn canonical_marks_missing_fields() {
    let req = request("t", "v", TTSMode::gTTS, None);
    assert_eq!(req.canonical(), "1:t1:v4:gTTS---");
}
