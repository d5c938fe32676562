use airtalk::engine::asr::audio::{pcm16_to_wav_16k_mono, AudioError, AudioFormat};
use airtalk::engine::asr::ogg::{derive_serial, opus_frames, opus_to_ogg, OpusEncoded};

/// A stand-in for the codec: one short packet per frame.
fn coded(pcm: &[u8]) -> OpusEncoded {
    let packets = opus_frames(pcm)
        .iter()
        .enumerate()
        .map(|(i, frame)| {
            assert_eq!(frame.len(), 320);
            vec![i as u8; 3]
        })
        .collect();
    OpusEncoded { lookahead: 104, packets, serial: 0x01020304 }
}

fn encode(format: AudioFormat, pcm: &[u8]) -> Vec<u8> {
    format.encode(pcm, &coded(pcm)).unwrap()
}

/// The checksum that Ogg prescribes, bit by bit.
fn crc_bit_by_bit(bytes: &[u8]) -> u32 {
    let mut crc: u32 = 0;
    for b in bytes {
        crc ^= (*b as u32) << 24;
        for _ in 0..8 {
            crc = if crc & 0x8000_0000 != 0 { (crc << 1) ^ 0x04C1_1DB7 } else { crc << 1 };
        }
    }
    crc
}

/// The pages of a stream: flag, position, number, and the packets.
fn pages(stream: &[u8]) -> Vec<(u8, u64, u32, Vec<Vec<u8>>)> {
    let mut found = Vec::new();
    let mut at = 0;
    while at < stream.len() {
        let page = &stream[at..];
        assert_eq!(&page[0..4], b"OggS");
        assert_eq!(page[4], 0);
        let position = u64::from_le_bytes(page[6..14].try_into().unwrap());
        let serial = u32::from_le_bytes(page[14..18].try_into().unwrap());
        assert_eq!(serial, 0x01020304);
        let number = u32::from_le_bytes(page[18..22].try_into().unwrap());
        let crc = u32::from_le_bytes(page[22..26].try_into().unwrap());
        let count = page[26] as usize;
        let table = &page[27..27 + count];
        let mut packets = Vec::new();
        let mut packet = Vec::new();
        let mut from = 27 + count;
        for size in table {
            packet.extend_from_slice(&page[from..from + *size as usize]);
            from += *size as usize;
            if *size < 255 {
                packets.push(packet);
                packet = Vec::new();
            }
        }
        assert!(packet.is_empty());
        let mut blank = page[..from].to_vec();
        blank[22..26].copy_from_slice(&[0; 4]);
        assert_eq!(crc, crc_bit_by_bit(&blank));
        found.push((page[5], position, number, packets));
        at += from;
    }
    found
}

#[test]
fn parse_wav() {
    assert_eq!(AudioFormat::from_str("wav").unwrap(), AudioFormat::Wav);
    assert_eq!(AudioFormat::from_str("WAV").unwrap(), AudioFormat::Wav);
}

#[test]
fn parse_opus_default() {
    assert_eq!(
        AudioFormat::from_str("opus").unwrap(),
        AudioFormat::Opus { bitrate_bps: 24_000 }
    );
}

#[test]
fn parse_opus_with_bitrate() {
    assert_eq!(
        AudioFormat::from_str("opus:16k").unwrap(),
        AudioFormat::Opus { bitrate_bps: 16_000 }
    );
    assert_eq!(
        AudioFormat::from_str("opus:24k").unwrap(),
        AudioFormat::Opus { bitrate_bps: 24_000 }
    );
    assert_eq!(
        AudioFormat::from_str("opus:32000").unwrap(),
        AudioFormat::Opus { bitrate_bps: 32_000 }
    );
}

#[test]
fn parse_unknown_format_errors() {
    assert!(AudioFormat::from_str("mp3").is_err());
    assert!(AudioFormat::from_str("opus:").is_err());
    assert!(AudioFormat::from_str("opus:abc").is_err());
    assert!(AudioFormat::from_str("opus:-1").is_err());
}

#[test]
fn wav_header_is_correct() {
    let pcm: Vec<u8> = vec![0x00, 0x01, 0x02, 0x03, 0x04, 0x05, 0x06, 0x07];
    let wav = encode(AudioFormat::Wav, &pcm);
    assert_eq!(wav.len(), 44 + pcm.len());
    assert_eq!(&wav[0..4], b"RIFF");
    assert_eq!(&wav[8..12], b"WAVE");
    assert_eq!(&wav[36..40], b"data");
    let sr = u32::from_le_bytes(wav[24..28].try_into().unwrap());
    assert_eq!(sr, 16_000);
}

#[test]
fn opus_output_starts_with_ogg_and_opushead() {
    // One second of silence.
    let pcm = vec![0u8; 32_000];
    let opus = encode(AudioFormat::Opus { bitrate_bps: 24_000 }, &pcm);

    assert_eq!(&opus[0..4], b"OggS", "first page magic");
    assert_eq!(opus[5], 0x02, "first page header_type BOS");
    let head_pos = opus
        .windows(8)
        .position(|w| w == b"OpusHead")
        .expect("OpusHead not found");
    assert!(head_pos < 60, "OpusHead should be in the first page");
}

#[test]
fn opus_stream_has_tags_and_eos() {
    let pcm = vec![0u8; 32_000];
    let opus = encode(AudioFormat::Opus { bitrate_bps: 16_000 }, &pcm);

    assert!(
        opus.windows(8).any(|w| w == b"OpusTags"),
        "OpusTags not found in Opus stream"
    );

    let mut found_eos = false;
    let mut i = 0;
    while i + 27 <= opus.len() {
        if &opus[i..i + 4] == b"OggS" {
            let header_type = opus[i + 5];
            if header_type & 0x04 != 0 {
                found_eos = true;
            }
            let n_segments = opus[i + 26] as usize;
            if i + 27 + n_segments > opus.len() {
                break;
            }
            let payload: usize = opus[i + 27..i + 27 + n_segments]
                .iter()
                .map(|&b| b as usize)
                .sum();
            i += 27 + n_segments + payload;
        } else {
            i += 1;
        }
    }
    assert!(found_eos, "no EOS page in Opus stream");
}

#[test]
fn mime_types() {
    assert_eq!(AudioFormat::Wav.mime(), "audio/wav");
    assert_eq!(AudioFormat::Opus { bitrate_bps: 24_000 }.mime(), "audio/ogg");
}

#[test]
fn format_errors_name_the_input() {
    let message = |s: &str| AudioFormat::from_str(s).unwrap_err().message();
    assert!(message("mp3").contains("mp3"));
    assert!(message("opus:abc").contains("abc"));
    assert!(message("opus:-1").contains("-1"));
    assert!(message("x\"y").contains("\"x\\\"y\""));
    assert!(matches!(AudioFormat::from_str("mp3"), Err(AudioError::UnknownFormat(_))));
    assert!(matches!(AudioFormat::from_str("opus:x"), Err(AudioError::BadBitrate(_))));
    assert!(matches!(AudioFormat::from_str("opus:0"), Err(AudioError::BitrateNotPositive(0))));
}

#[test]
fn bitrates_that_overflow_are_not_readable() {
    assert!(AudioFormat::is_readable("opus:2000000k"));
    assert!(!AudioFormat::is_readable("opus:3000000k"));
    assert!(AudioFormat::is_readable("mp3"));
}

#[test]
fn wav_file_is_exact() {
    let wav = pcm16_to_wav_16k_mono(&[1, 2]);
    let mut expected = Vec::new();
    expected.extend_from_slice(b"RIFF");
    expected.extend_from_slice(&38u32.to_le_bytes());
    expected.extend_from_slice(b"WAVEfmt ");
    expected.extend_from_slice(&16u32.to_le_bytes());
    expected.extend_from_slice(&1u16.to_le_bytes());
    expected.extend_from_slice(&1u16.to_le_bytes());
    expected.extend_from_slice(&16_000u32.to_le_bytes());
    expected.extend_from_slice(&32_000u32.to_le_bytes());
    expected.extend_from_slice(&2u16.to_le_bytes());
    expected.extend_from_slice(&16u16.to_le_bytes());
    expected.extend_from_slice(b"data");
    expected.extend_from_slice(&2u32.to_le_bytes());
    expected.extend_from_slice(&[1, 2]);
    assert_eq!(wav, expected);
}

#[test]
fn frames_are_filled_with_silence() {
    let pcm: Vec<u8> = (0..321i16).flat_map(|s| (s + 1).to_le_bytes()).collect();
    let frames = opus_frames(&pcm);
    assert_eq!(frames.len(), 2);
    assert_eq!(frames[0], (1..=320i16).collect::<Vec<_>>());
    assert_eq!(frames[1][0], 321);
    assert!(frames[1][1..].iter().all(|s| *s == 0));
    assert!(opus_frames(&[]).is_empty());
}

#[test]
fn pages_hold_fifty_packets() {
    let packets: Vec<Vec<u8>> = (0..51u8).map(|i| vec![i; 2]).collect();
    let opus = OpusEncoded { lookahead: 104, packets: packets.clone(), serial: 0x01020304 };
    let read = pages(&opus_to_ogg(&opus).unwrap());
    assert_eq!(read.len(), 4);
    let mut head = b"OpusHead".to_vec();
    head.extend_from_slice(&[1, 1]);
    head.extend_from_slice(&312u16.to_le_bytes());
    head.extend_from_slice(&16_000u32.to_le_bytes());
    head.extend_from_slice(&[0, 0, 0]);
    assert_eq!(read[0], (2, 0, 0, vec![head]));
    let mut tags = b"OpusTags".to_vec();
    tags.extend_from_slice(&7u32.to_le_bytes());
    tags.extend_from_slice(b"airtalk");
    tags.extend_from_slice(&0u32.to_le_bytes());
    assert_eq!(read[1], (0, 0, 1, vec![tags]));
    assert_eq!(read[2], (0, 48_000, 2, packets[..50].to_vec()));
    assert_eq!(read[3], (4, 48_960, 3, packets[50..].to_vec()));
}

#[test]
fn long_packets_read_back() {
    let packets = vec![vec![7u8; 255], vec![8u8; 254], vec![], vec![9u8; 600]];
    let opus = OpusEncoded { lookahead: 0, packets: packets.clone(), serial: 0x01020304 };
    let read = pages(&opus_to_ogg(&opus).unwrap());
    assert_eq!(read[2], (4, 3_840, 2, packets));
}

#[test]
fn stream_without_audio_has_an_empty_last_page() {
    let opus = OpusEncoded { lookahead: 0, packets: vec![], serial: 0x01020304 };
    let read = pages(&opus_to_ogg(&opus).unwrap());
    assert_eq!(read[2], (4, 0, 2, vec![]));
}

#[test]
fn too_many_segments_are_refused() {
    let opus = OpusEncoded { lookahead: 0, packets: vec![vec![0u8; 255 * 255]], serial: 1 };
    let err = opus_to_ogg(&opus).unwrap_err();
    assert!(matches!(err, AudioError::TooManySegments(256)));
    assert!(err.message().contains("256"));
}

#[test]
fn large_lookahead_is_capped() {
    let opus = OpusEncoded { lookahead: 30_000, packets: vec![], serial: 0x01020304 };
    let read = pages(&opus_to_ogg(&opus).unwrap());
    assert_eq!(&read[0].3[0][10..12], &[255, 255]);
}

#[test]
fn serial_mixes_the_clock() {
    assert_eq!(derive_serial(None), 1);
    assert_eq!(derive_serial(Some((2, 5))), 67);
    assert_eq!(derive_serial(Some((0x1_0000_0002, 5))), 67);
    assert_eq!(derive_serial(Some((0xFFFF_FFFF, 0))), 0xFFFF_FFFFu32.wrapping_mul(31));
}
