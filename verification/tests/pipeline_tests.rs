use tts_gateway::pipeline::{
    assess_output, is_benign_warning, phoneme_voice_arg, voice_from_filename,
    waveform_voice_path, PipelineVerdict,
};

const TRANSIENT: &[u8] = b"mbrowrap error: unable to get .wav header from mbrola";

#[test]
fn bare_header_with_transient_marker_retries() {
    let mut stderr = b"noise before ".to_vec();
    stderr.extend_from_slice(TRANSIENT);
    stderr.extend_from_slice(b" and after");
    assert_eq!(assess_output(44, &stderr), PipelineVerdict::Retry);
}

#[test]
fn bare_header_without_marker_is_corrupt() {
    assert_eq!(assess_output(44, &b"some other error".to_vec()), PipelineVerdict::Corrupt);
    assert_eq!(assess_output(44, &Vec::new()), PipelineVerdict::Corrupt);
}

#[test]
fn short_payload_is_corrupt() {
    assert_eq!(assess_output(0, &Vec::new()), PipelineVerdict::Corrupt);
    assert_eq!(assess_output(43, &TRANSIENT.to_vec()), PipelineVerdict::Corrupt);
}

#[test]
fn non_empty_payload_is_accepted() {
    assert_eq!(assess_output(45, &TRANSIENT.to_vec()), PipelineVerdict::Accept);
    assert_eq!(assess_output(1_000_000, &Vec::new()), PipelineVerdict::Accept);
}

#[test]
fn benign_warning_detection() {
    assert!(is_benign_warning(&b"voice xx unknown, replaced with yy".to_vec()));
    assert!(!is_benign_warning(&b"a real error".to_vec()));
}

#[test]
fn subprocess_voice_arguments() {
    assert_eq!(phoneme_voice_arg("en1"), "mb/mb-en1");
    assert_eq!(waveform_voice_path("en1"), "/usr/share/mbrola/en1/en1");
}

#[test]
fn voice_from_filename_accepts_single_dash_names() {
    assert_eq!(voice_from_filename("mb-en1"), Some(String::from("en1")));
    assert_eq!(voice_from_filename("mb-de-grola"), None);
    assert_eq!(voice_from_filename("mben"), None);
    assert_eq!(voice_from_filename(""), None);
}
