use base64::Engine;
use keero_core::voices::{
    decode_voice_payload, is_valid_wav_header, sanitize_voice_id, validate_voice_wav,
    voice_file_path, MAX_VOICE_SIZE,
};

fn wav_bytes() -> Vec<u8> {
    let mut v = Vec::new();
    v.extend_from_slice(b"RIFF");
    v.extend_from_slice(&[0, 0, 0, 0]);
    v.extend_from_slice(b"WAVE");
    v.extend_from_slice(&[1, 2, 3]);
    v
}

fn encode(bytes: &[u8]) -> String {
    base64::engine::general_purpose::STANDARD.encode(bytes)
}

#[test]
fn wav_header_is_checked_exactly() {
    assert!(is_valid_wav_header(&wav_bytes()));
    assert!(!is_valid_wav_header(b"RIFF1234WAV"));
    assert!(!is_valid_wav_header(b"RIFX1234WAVE"));
    assert!(!is_valid_wav_header(b"RIFF1234EVAW"));
    assert!(!is_valid_wav_header(b""));
}

#[test]
fn voice_ids_accept_word_characters_only() {
    assert_eq!(sanitize_voice_id("abc-123_X"), Ok("abc-123_X".to_string()));
    assert!(sanitize_voice_id("héllo").is_ok());
    assert!(sanitize_voice_id("").is_err());
    assert!(sanitize_voice_id("bad id").is_err());
    assert!(sanitize_voice_id("dot.dot").is_err());
    assert!(sanitize_voice_id("slash/like").is_err());
    let long = "a".repeat(256);
    assert!(sanitize_voice_id(&long).is_err());
    let fits = "a".repeat(255);
    assert!(sanitize_voice_id(&fits).is_ok());
}

#[test]
fn voice_id_errors_name_the_reason() {
    assert_eq!(sanitize_voice_id("").unwrap_err(), "Voice ID cannot be empty");
    assert_eq!(
        sanitize_voice_id(&"x".repeat(300)).unwrap_err(),
        "Voice ID too long (max 255 characters)"
    );
    assert!(sanitize_voice_id("a b").unwrap_err().contains("invalid character"));
}

#[test]
fn bare_base64_payload_round_trips() {
    let bytes = wav_bytes();
    let decoded = decode_voice_payload(&encode(&bytes)).unwrap();
    assert_eq!(decoded, bytes);
}

#[test]
fn data_url_payload_round_trips() {
    let bytes = wav_bytes();
    let url = format!("data:audio/wav;base64,{}", encode(&bytes));
    let decoded = decode_voice_payload(&url).unwrap();
    assert_eq!(decoded, bytes);
}

#[test]
fn payload_with_surrounding_whitespace_decodes() {
    let bytes = wav_bytes();
    let padded = format!("  {}\n", encode(&bytes));
    assert_eq!(decode_voice_payload(&padded).unwrap(), bytes);
}

#[test]
fn data_url_without_comma_is_rejected() {
    assert_eq!(
        decode_voice_payload("data:audio/wav;base64").unwrap_err(),
        "Invalid data URL format"
    );
}

#[test]
fn malformed_base64_is_rejected() {
    assert_eq!(
        decode_voice_payload("!!!not base64!!!").unwrap_err(),
        "Failed to decode base64 data"
    );
}

#[test]
fn non_wav_bytes_are_rejected() {
    assert_eq!(
        decode_voice_payload(&encode(b"plain text, not a container")).unwrap_err(),
        "Invalid WAV file: missing RIFF/WAVE header"
    );
}

#[test]
fn oversized_payloads_are_rejected() {
    let mut bytes = wav_bytes();
    bytes.resize(MAX_VOICE_SIZE + 1, 0);
    assert_eq!(decode_voice_payload(&encode(&bytes)).unwrap_err(), "Voice file too large");
    let mut bytes = wav_bytes();
    bytes.resize(MAX_VOICE_SIZE, 0);
    assert!(decode_voice_payload(&encode(&bytes)).is_ok());
}

#[test]
fn validation_rejects_the_identifier_first() {
    let bytes = wav_bytes();
    let ok = validate_voice_wav("voice-1", &encode(&bytes)).unwrap();
    assert_eq!(ok.0, "voice-1");
    assert_eq!(ok.1, bytes);
    assert_eq!(
        validate_voice_wav("", "!!!").unwrap_err(),
        "Voice ID cannot be empty"
    );
    assert_eq!(
        validate_voice_wav("voice-1", "!!!").unwrap_err(),
        "Failed to decode base64 data"
    );
}

#[test]
fn voice_files_live_under_the_voices_directory() {
    assert_eq!(
        voice_file_path(&"/data/voices".to_string(), &"v1".to_string()),
        "/data/voices/v1.wav"
    );
}
