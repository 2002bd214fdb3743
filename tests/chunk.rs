use storyteller::assemble::{AssembleError, StreamAssembler};
use storyteller::chunk::{Base64, StoryChunk};
use storyteller::transcode::{decode_flac, fits_wav, TranscodeError};

#[test]
fn base64_standard_encoding() {
    assert_eq!(Base64::new(b"Man".to_vec()).encoded(), "TWFu");
    assert_eq!(Base64::new(b"Ma".to_vec()).encoded(), "TWE=");
    assert_eq!(Base64::new(b"M".to_vec()).encoded(), "TQ==");
    assert_eq!(Base64::new(Vec::new()).encoded(), "");
    assert_eq!(Base64::new(vec![0xff, 0xfe]).encoded(), "//4=");
}

#[test]
fn story_chunk_holds_text_and_audio() {
    let c = StoryChunk::new("Hi.".to_string(), vec![1, 2]);
    assert_eq!(c.text(), "Hi.");
    assert_eq!(c.audio().bytes(), &vec![1u8, 2]);
    assert_eq!(c.audio().encoded(), "AQI=");
}

#[test]
fn invalid_flac_is_refused() {
    assert_eq!(decode_flac(b"not flac at all"), Err(TranscodeError::Flac));
    assert_eq!(decode_flac(&[]), Err(TranscodeError::Flac));
}

#[test]
fn wav_limits() {
    assert!(fits_wav(1, 24000, 16, 1000));
    assert!(fits_wav(2, 48000, 8, 0));
    assert!(fits_wav(2, 48000, 24, 10));
    assert!(fits_wav(6, 48000, 32, 10));
    assert!(!fits_wav(0, 24000, 16, 10));
    assert!(!fits_wav(70000, 1, 16, 10));
    assert!(!fits_wav(1, 0, 16, 10));
    assert!(!fits_wav(1, 24000, 33, 10));
    assert!(!fits_wav(1, 24000, 0, 10));
    assert!(!fits_wav(2, u32::MAX, 16, 10));
    assert!(!fits_wav(1, 24000, 16, u32::MAX as usize));
}

fn crc8(bytes: &[u8]) -> u8 {
    let mut crc: u8 = 0;
    for &b in bytes {
        crc ^= b;
        for _ in 0..8 {
            crc = if crc & 0x80 != 0 { (crc << 1) ^ 0x07 } else { crc << 1 };
        }
    }
    crc
}

fn crc16(bytes: &[u8]) -> u16 {
    let mut crc: u16 = 0;
    for &b in bytes {
        crc ^= (b as u16) << 8;
        for _ in 0..8 {
            crc = if crc & 0x8000 != 0 { (crc << 1) ^ 0x8005 } else { crc << 1 };
        }
    }
    crc
}

/// A 24 kHz FLAC stream of one frame of 16 samples per channel, coded as one
/// constant subframe per channel: `values[c]` for channel `c`, with
/// `bits` bits per sample (16 or 24).
fn constant_flac(bits: u32, values: &[i32]) -> Vec<u8> {
    let channels = values.len() as u32;
    let mut data = b"fLaC".to_vec();
    // Last metadata block, STREAMINFO, 34 bytes long.
    data.extend_from_slice(&[0x80, 0x00, 0x00, 0x22]);
    data.extend_from_slice(&[0x00, 0x10, 0x00, 0x10]); // block sizes 16..16
    data.extend_from_slice(&[0, 0, 0, 0, 0, 0]); // frame sizes unknown
    // Sample rate (20 bits), channels - 1 (3 bits), bits - 1 (5 bits), 16 samples (36 bits).
    let rate: u32 = 24000;
    data.push((rate >> 12) as u8);
    data.push((rate >> 4) as u8);
    data.push((((rate & 0xf) << 4) | ((channels - 1) << 1) | ((bits - 1) >> 4)) as u8);
    data.push((((bits - 1) & 0xf) << 4) as u8);
    data.extend_from_slice(&[0x00, 0x00, 0x00, 0x10]);
    data.extend_from_slice(&[0u8; 16]); // MD5 unknown
    // Frame header: sync, 8-bit block size and rate from STREAMINFO, independent
    // channels, sample size code, frame number 0, block size - 1.
    let size_code: u8 = if bits == 24 { 0b110 } else { 0b100 };
    let chan_bps = (((channels - 1) as u8) << 4) | (size_code << 1);
    let mut frame = vec![0xff, 0xf8, 0x60, chan_bps, 0x00, 0x0f];
    frame.push(crc8(&frame));
    for &v in values {
        // Constant subframe header, then the value in `bits` bits.
        frame.push(0x00);
        let bytes = v.to_be_bytes();
        frame.extend_from_slice(&bytes[(4 - bits as usize / 8)..]);
    }
    let crc = crc16(&frame);
    frame.extend_from_slice(&crc.to_be_bytes());
    data.extend_from_slice(&frame);
    data
}

#[test]
fn valid_flac_becomes_wav() {
    let wav = decode_flac(&constant_flac(16, &[-2])).unwrap();
    assert_eq!(wav.len(), 44 + 32);
    assert_eq!(&wav[0..4], b"RIFF");
    assert_eq!(&wav[8..16], b"WAVEfmt ");
    assert_eq!(&wav[36..40], b"data");
    assert_eq!(u32::from_le_bytes([wav[40], wav[41], wav[42], wav[43]]), 32);
    assert_eq!(u16::from_le_bytes([wav[22], wav[23]]), 1); // channels
    assert_eq!(u32::from_le_bytes([wav[24], wav[25], wav[26], wav[27]]), 24000);
    assert_eq!(u16::from_le_bytes([wav[34], wav[35]]), 16); // bits per sample
    for k in 0..16 {
        assert_eq!(i16::from_le_bytes([wav[44 + 2 * k], wav[45 + 2 * k]]), -2);
    }
}

#[test]
fn stereo_24_bit_flac_becomes_wav() {
    let wav = decode_flac(&constant_flac(24, &[-3, 70000])).unwrap();
    // The extended header of 68 bytes, then 16 frames of two 3-byte samples.
    assert_eq!(wav.len(), 68 + 96);
    assert_eq!(&wav[0..4], b"RIFF");
    assert_eq!(u16::from_le_bytes([wav[22], wav[23]]), 2); // channels
    assert_eq!(u32::from_le_bytes([wav[24], wav[25], wav[26], wav[27]]), 24000);
    assert_eq!(&wav[60..64], b"data");
    assert_eq!(u32::from_le_bytes([wav[64], wav[65], wav[66], wav[67]]), 96);
    assert_eq!(&wav[68..74], &[0xfd, 0xff, 0xff, 0x70, 0x11, 0x01]);
    // The assembler takes only the plain header.
    let mut stitcher = StreamAssembler::new();
    assert_eq!(stitcher.add(wav), Err(AssembleError::NotPlainWav));
}

#[test]
fn decoded_mono_clip_feeds_assembler() {
    let wav = decode_flac(&constant_flac(16, &[7])).unwrap();
    let mut stitcher = StreamAssembler::new();
    let first = stitcher.add(wav.clone()).unwrap();
    assert_eq!(first.len(), wav.len());
    assert_eq!(stitcher.add(wav).unwrap(), [7u8, 0].repeat(16));
}
