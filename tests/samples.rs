use middle_server::audio::{AudioInfo, UnwrappedAudioInfo};
use middle_server::errors::HandlerError;
use middle_server::samples::{binary_transformer, window_data_processing};
use middle_server::window::WindowPacket;

fn cd_format() -> UnwrappedAudioInfo {
    UnwrappedAudioInfo {
        channels: 2,
        sample_rate: 44100,
        bits_per_sample: 16,
        pcm_format: "int".to_string(),
    }
}

#[test]
fn samples_are_little_endian_i16() {
    let bytes = vec![0x01, 0x00, 0xFF, 0xFF, 0x00, 0x80, 0xFF, 0x7F, 0x34, 0x12, 0x05];
    let samples = binary_transformer(&bytes, &cd_format());
    assert_eq!(samples, vec![1, -1, i16::MIN, i16::MAX, 0x1234]);
}

#[test]
fn empty_window_has_no_samples() {
    assert!(binary_transformer(&Vec::new(), &cd_format()).is_empty());
    assert!(binary_transformer(&vec![7], &cd_format()).is_empty());
}

#[test]
fn window_processing_needs_a_format() {
    let packet = WindowPacket(vec![1, 0, 2, 0]);
    match window_data_processing(&packet, &AudioInfo::new()) {
        Err(e) => assert_eq!(*e, HandlerError::AudioInfoUndefinedError),
        Ok(_) => panic!("analysis before the handshake"),
    }
}

#[test]
fn window_processing_gives_samples_and_rate() {
    let packet = WindowPacket(vec![1, 0, 2, 0, 0xFE, 0xFF]);
    let info = AudioInfo::from_handshake("1 22050 16 int").unwrap();
    let input = window_data_processing(&packet, &info).expect("format is set");
    assert_eq!(input.samples, vec![1, 2, -2]);
    assert_eq!(input.sample_rate, 22050);
}
