use studio_core::recording::{
    check_recording_rate, encode_pcm, new_marker, recovery_header, wav_header, MarkerError, RecoveryError,
};

#[test]
fn wav_header_layout() {
    let h = wav_header(8);
    assert_eq!(&h[0..4], b"RIFF");
    assert_eq!(&h[4..8], &44u32.to_le_bytes());
    assert_eq!(&h[8..16], b"WAVEfmt ");
    assert_eq!(&h[16..20], &16u32.to_le_bytes());
    assert_eq!(&h[20..22], &1u16.to_le_bytes());
    assert_eq!(&h[22..24], &2u16.to_le_bytes());
    assert_eq!(&h[24..28], &48_000u32.to_le_bytes());
    assert_eq!(&h[28..32], &192_000u32.to_le_bytes());
    assert_eq!(&h[32..34], &4u16.to_le_bytes());
    assert_eq!(&h[34..36], &16u16.to_le_bytes());
    assert_eq!(&h[36..40], b"data");
    assert_eq!(&h[40..44], &8u32.to_le_bytes());
}

#[test]
fn pcm_is_little_endian() {
    assert_eq!(encode_pcm(&[0, 0, 1, -1]), vec![0, 0, 0, 0, 1, 0, 255, 255]);
    assert_eq!(encode_pcm(&[i16::MIN, 0x1234]), vec![0x00, 0x80, 0x34, 0x12]);
    let mut file = wav_header(8).to_vec();
    file.extend(encode_pcm(&[0, 0, 1, -1]));
    assert_eq!(&file[0..4], b"RIFF");
    assert_eq!(file.len(), 52);
}

#[test]
fn recovery_rewrites_the_clean_header() {
    assert_eq!(recovery_header(52), Ok(wav_header(8)));
    assert_eq!(recovery_header(44), Ok(wav_header(0)));
    assert_eq!(recovery_header(43), Err(RecoveryError::TooShort));
    assert_eq!(RecoveryError::TooShort.message(), "WAV is too short");
}

#[test]
fn chapter_markers() {
    let m = new_marker("  Interview one \n", 2, 1_500).unwrap();
    assert_eq!(m.id, "chapter-3");
    assert_eq!(m.title, "Interview one");
    assert_eq!(m.at_ms, 1_500);
    assert_eq!(new_marker(" \t ", 0, 0).err(), Some(MarkerError::EmptyTitle));
}

#[test]
fn recording_needs_48k() {
    assert_eq!(check_recording_rate(48_000), Ok(()));
    assert_eq!(
        check_recording_rate(44_100),
        Err("Input is 44100 Hz. This build records only native 48 kHz devices until the resampler is bundled.".to_string())
    );
}
