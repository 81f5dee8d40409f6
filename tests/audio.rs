use middle_server::audio::{AudioInfo, UnwrappedAudioInfo};
use middle_server::errors::HandlerError;

#[test]
fn handshake_resolves_all_four_fields() {
    let info = AudioInfo::from_handshake("2 44100 16 int").expect("handshake");
    assert_eq!(info.channels, Some(2));
    assert_eq!(info.sample_rate, Some(44100));
    assert_eq!(info.bits_per_sample, Some(16));
    assert_eq!(info.pcm_format, Some("int".to_string()));
    let resolved = info.get_audio_info().expect("resolved");
    assert_eq!(
        resolved,
        UnwrappedAudioInfo {
            channels: 2,
            sample_rate: 44100,
            bits_per_sample: 16,
            pcm_format: "int".to_string(),
        }
    );
}

#[test]
fn handshake_with_unknown_encoding_fails() {
    let r = AudioInfo::from_handshake("2 44100 16 unknown");
    assert_eq!(r, Err(HandlerError::ParseAudioInfoError("2 44100 16 unknown".to_string())));
}

#[test]
fn handshake_with_wrong_arity_fails() {
    let r = AudioInfo::from_handshake("1 44100");
    assert_eq!(r, Err(HandlerError::ParseAudioInfoError("1 44100".to_string())));
}

#[test]
fn handshake_float_and_extra_whitespace() {
    let info = AudioInfo::from_handshake("  1\t48000\n32   float ").expect("handshake");
    assert_eq!(info.channels, Some(1));
    assert_eq!(info.sample_rate, Some(48000));
    assert_eq!(info.bits_per_sample, Some(32));
    assert_eq!(info.pcm_format, Some("float".to_string()));
}

#[test]
fn handshake_numbers_follow_unsigned_parsing() {
    assert!(AudioInfo::from_handshake("+2 44100 16 int").is_ok());
    assert!(AudioInfo::from_handshake("65535 4294967295 65535 int").is_ok());
    assert!(AudioInfo::from_handshake("65536 44100 16 int").is_err());
    assert!(AudioInfo::from_handshake("2 4294967296 16 int").is_err());
    assert!(AudioInfo::from_handshake("-2 44100 16 int").is_err());
    assert!(AudioInfo::from_handshake("+ 44100 16 int").is_err());
    assert!(AudioInfo::from_handshake("2 44.1 16 int").is_err());
    assert!(AudioInfo::from_handshake("2 44100 16 int extra").is_err());
    assert!(AudioInfo::from_handshake("").is_err());
    assert!(AudioInfo::from_handshake("2 44100 16 INT").is_err());
}

#[test]
fn initial_format_is_undefined() {
    let info = AudioInfo::default();
    assert_eq!(info, AudioInfo::new());
    assert_eq!(info.channels, None);
    assert_eq!(info.pcm_format, None);
    match info.get_audio_info() {
        Err(e) => assert_eq!(*e, HandlerError::AudioInfoUndefinedError),
        Ok(_) => panic!("an unset format resolved"),
    }
}

#[test]
fn partly_set_format_does_not_resolve() {
    let info = AudioInfo {
        channels: Some(2),
        sample_rate: Some(44100),
        bits_per_sample: Some(16),
        pcm_format: None,
    };
    assert!(info.get_audio_info().is_err());
}
