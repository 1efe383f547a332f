use neonsnake::wav::encode_wav;

#[test]
fn wav_header_and_samples() {
    let bytes = encode_wav(&[0, -1, 0x1234, i16::MIN], 44_100);
    assert_eq!(bytes.len(), 44 + 8);
    assert_eq!(&bytes[0..4], b"RIFF");
    assert_eq!(&bytes[4..8], &(36u32 + 8).to_le_bytes());
    assert_eq!(&bytes[8..12], b"WAVE");
    assert_eq!(&bytes[12..16], b"fmt ");
    assert_eq!(&bytes[16..20], &16u32.to_le_bytes());
    assert_eq!(&bytes[20..22], &1u16.to_le_bytes());
    assert_eq!(&bytes[22..24], &1u16.to_le_bytes());
    assert_eq!(&bytes[24..28], &44_100u32.to_le_bytes());
    assert_eq!(&bytes[28..32], &88_200u32.to_le_bytes());
    assert_eq!(&bytes[32..34], &2u16.to_le_bytes());
    assert_eq!(&bytes[34..36], &16u16.to_le_bytes());
    assert_eq!(&bytes[36..40], b"data");
    assert_eq!(&bytes[40..44], &8u32.to_le_bytes());
    assert_eq!(&bytes[44..], &[0x00, 0x00, 0xFF, 0xFF, 0x34, 0x12, 0x00, 0x80]);
}

#[test]
fn wav_without_samples() {
    let bytes = encode_wav(&[], 8_000);
    assert_eq!(bytes.len(), 44);
    assert_eq!(&bytes[4..8], &36u32.to_le_bytes());
    assert_eq!(&bytes[40..44], &0u32.to_le_bytes());
    assert_eq!(&bytes[28..32], &16_000u32.to_le_bytes());
}
