use remote_desktop::codec::annexb::{
    annexb_to_length_prefixed, classify_h264, classify_hevc, iter_nalus, length_prefixed_to_annexb,
    BitstreamError, NaluClass,
};

#[test]
fn length_prefix_roundtrip() {
    let nalus: [&[u8]; 3] = [&[0x67, 1, 2, 3], &[0x68, 9], &[0x65, 4, 5, 6, 7, 8]];
    let mut prefixed = Vec::new();
    annexb_to_length_prefixed(&nalus, &mut prefixed);

    let mut annexb = Vec::new();
    length_prefixed_to_annexb(&prefixed, &mut annexb).unwrap();

    let parsed: Vec<&[u8]> = iter_nalus(&annexb).collect();
    assert_eq!(parsed, nalus);
}

#[test]
fn iter_handles_three_byte_start_codes() {
    let data = [0, 0, 0, 1, 0x67, 0xAA, 0, 0, 1, 0x65, 0xBB, 0xCC];
    let parsed: Vec<&[u8]> = iter_nalus(&data).collect();
    assert_eq!(parsed, vec![&[0x67u8, 0xAA][..], &[0x65u8, 0xBB, 0xCC][..]]);
}

#[test]
fn truncated_input_is_rejected_not_panicking() {
    let src = [0, 0, 0, 100, 0xAA, 0xBB];
    let mut out = Vec::new();
    assert_eq!(
        length_prefixed_to_annexb(&src, &mut out),
        Err(BitstreamError::LengthOverflow(100, 2))
    );
}

#[test]
fn classification_matches_spec_bits() {
    assert_eq!(classify_hevc(&[32 << 1]), NaluClass::ParameterSet);
    assert_eq!(classify_hevc(&[34 << 1]), NaluClass::ParameterSet);
    assert_eq!(classify_hevc(&[19 << 1]), NaluClass::Keyframe);
    assert_eq!(classify_hevc(&[1 << 1]), NaluClass::Delta);

    assert_eq!(classify_h264(&[0x67]), NaluClass::ParameterSet);
    assert_eq!(classify_h264(&[0x65]), NaluClass::Keyframe);
    assert_eq!(classify_h264(&[0x41]), NaluClass::Delta);
}
