use tts_gateway::wav::{check_length, repair_wav_header};

fn header_with(sample_rate: u16, channels: u32, bits: u16, total_len: usize) -> Vec<u8> {
    let mut wav = vec![0u8; total_len];
    wav[22..24].copy_from_slice(&sample_rate.to_le_bytes());
    wav[24..28].copy_from_slice(&channels.to_le_bytes());
    wav[34..36].copy_from_slice(&bits.to_le_bytes());
    wav
}

#[test]
fn repair_sets_both_size_fields() {
    let mut wav = vec![0xABu8; 100];
    repair_wav_header(&mut wav);
    assert_eq!(u32::from_le_bytes([wav[4], wav[5], wav[6], wav[7]]), 92);
    assert_eq!(u32::from_le_bytes([wav[40], wav[41], wav[42], wav[43]]), 56);
}

#[test]
fn repair_overwrites_whatever_was_there() {
    let mut wav = vec![0u8; 200];
    wav[4..8].copy_from_slice(&0xDEAD_BEEFu32.to_le_bytes());
    wav[40..44].copy_from_slice(&0x1234_5678u32.to_le_bytes());
    repair_wav_header(&mut wav);
    assert_eq!(u32::from_le_bytes([wav[4], wav[5], wav[6], wav[7]]), 192);
    assert_eq!(u32::from_le_bytes([wav[40], wav[41], wav[42], wav[43]]), 156);
}

#[test]
fn repair_leaves_other_bytes_alone() {
    let mut wav: Vec<u8> = (0..100u8).collect();
    let before = wav.clone();
    repair_wav_header(&mut wav);
    for i in 0..100 {
        if (4..8).contains(&i) || (40..44).contains(&i) {
            continue;
        }
        assert_eq!(wav[i], before[i], "byte {i} changed");
    }
}

#[test]
fn repair_on_bare_header() {
    let mut wav = vec![0xFFu8; 44];
    repair_wav_header(&mut wav);
    assert_eq!(u32::from_le_bytes([wav[4], wav[5], wav[6], wav[7]]), 36);
    assert_eq!(u32::from_le_bytes([wav[40], wav[41], wav[42], wav[43]]), 0);
}

#[test]
fn check_length_exact_boundary() {
    // 22050 Hz * 1 channel * 16 bits / 8 = 44100 bytes per second.
    // 88200 bytes is exactly 2 seconds.
    let wav = header_with(22050, 1, 16, 88_200);
    assert!(check_length(&wav, 3));
    assert!(!check_length(&wav, 2));
}

#[test]
fn check_length_rejects_short_payloads() {
    let wav = vec![0u8; 43];
    assert!(!check_length(&wav, 1_000_000));
}

#[test]
fn check_length_rejects_zero_rate_fields() {
    let wav = header_with(0, 0, 0, 44);
    assert!(!check_length(&wav, 1_000_000));
}
