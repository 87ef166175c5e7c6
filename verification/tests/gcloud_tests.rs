use tts_gateway::backend::AudioEncoding;
use tts_gateway::errors::Error;
use tts_gateway::gcloud::{decode_audio_content, request_body, voice_label};

#[test]
fn request_body_exact_shape() {
    // A rate of 400 hundredths is the provider's multiplier 4.
    let body = request_body("hi there", "en-US A", 400, AudioEncoding::OGG_OPUS).unwrap();
    assert_eq!(
        body,
        "{\"input\":{\"text\":\"hi there\"},\
         \"voice\":{\"languageCode\":\"en-US\",\"name\":\"en-US-Standard-A\"},\
         \"audioConfig\":{\"audioEncoding\":\"OGG_OPUS\",\"speakingRate\":4}}"
    );
}

#[test]
fn request_body_renders_fractional_rates() {
    let body = request_body("hi", "en-US A", 150, AudioEncoding::OGG_OPUS).unwrap();
    assert!(body.contains("\"speakingRate\":1.5}}"));
    let parsed: serde_json::Value = serde_json::from_str(&body).unwrap();
    assert_eq!(parsed["audioConfig"]["speakingRate"], 1.5);
}

#[test]
fn request_body_escapes_the_text() {
    let body = request_body("say \"hi\"\n", "en-US A", 100, AudioEncoding::MP3).unwrap();
    assert!(body.contains("\"text\":\"say \\\"hi\\\"\\u000a\""));
    // The body itself stays valid JSON.
    let parsed: serde_json::Value = serde_json::from_str(&body).unwrap();
    assert_eq!(parsed["input"]["text"], "say \"hi\"\n");
    assert_eq!(parsed["voice"]["name"], "en-US-Standard-A");
    assert_eq!(parsed["audioConfig"]["speakingRate"], 1);
}

#[test]
fn request_body_rejects_voice_without_variant() {
    let r = request_body("hi", "en-US", 1, AudioEncoding::OGG_OPUS);
    match r {
        Err(Error::UpstreamFailure(m)) => {
            assert_eq!(m, "en-US cannot be parsed into lang and variant");
        },
        other => panic!("expected an upstream failure, got {other:?}"),
    }
}

#[test]
fn audio_content_decodes_base64() {
    assert_eq!(decode_audio_content("aGVsbG8=").unwrap(), b"hello".to_vec());
    assert!(matches!(
        decode_audio_content("not base64!!!"),
        Err(Error::UpstreamFailure(_))
    ));
}

#[test]
fn voice_label_keeps_standard_voices_only() {
    assert_eq!(voice_label("en-US-Standard-A", "en-US"), Some(String::from("en-US A")));
    assert_eq!(voice_label("en-US-Wavenet-B", "en-US"), None);
    assert_eq!(voice_label("en-US", "en-US"), None);
    assert_eq!(voice_label("nodashes", "en-US"), None);
}
