use zxzedesk::audio::AudioHandler;
use zxzedesk::capture::{encode_frame, fallback_monitor, primary_monitor};

#[test]
fn first_primary_display_is_chosen() {
    assert_eq!(primary_monitor(&vec![false, true, true]), Some(1));
    assert_eq!(primary_monitor(&vec![true]), Some(0));
    assert_eq!(primary_monitor(&vec![false, false]), None);
    assert_eq!(primary_monitor(&vec![]), None);
}

#[test]
fn fallback_is_the_first_display() {
    assert_eq!(fallback_monitor(0), None);
    assert_eq!(fallback_monitor(3), Some(0));
}

#[test]
fn frames_are_jpeg_files() {
    let rgba: Vec<u8> = (0..(4 * 8 * 6)).map(|i| (i * 7 % 256) as u8).collect();
    let jpeg = encode_frame(8, 6, rgba).unwrap();
    assert!(jpeg.len() > 4);
    assert_eq!(&jpeg[..2], &[0xFF, 0xD8]);
    assert_eq!(&jpeg[jpeg.len() - 2..], &[0xFF, 0xD9]);
}

#[test]
fn oversized_frames_are_refused_with_the_encoders_text() {
    let rgba = vec![0u8; 4 * 70_000];
    let err = encode_frame(70_000, 1, rgba).unwrap_err();
    assert!(!err.is_empty());
}

#[test]
fn audio_is_accepted_and_does_nothing() {
    let mut a = AudioHandler::new();
    assert_eq!(a.start_capture(|_b: &[u8]| {}), Ok(()));
    assert_eq!(a.start_playback(), Ok(()));
}
