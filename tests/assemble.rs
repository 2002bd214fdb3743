use storyteller::assemble::{AssembleError, StreamAssembler, WAV_HEADER_LEN};

/// A PCM WAV clip with the plain 44-byte header; `fill` varies the fields that
/// may differ between clips.
fn clip(fill: u8, payload: &[u8]) -> Vec<u8> {
    let mut c: Vec<u8> = (0..WAV_HEADER_LEN as u8).map(|i| i.wrapping_add(fill)).collect();
    c[0..4].copy_from_slice(b"RIFF");
    c[8..16].copy_from_slice(b"WAVEfmt ");
    c[16..20].copy_from_slice(&[16, 0, 0, 0]);
    c[20..22].copy_from_slice(&[1, 0]);
    c[36..40].copy_from_slice(b"data");
    c.extend_from_slice(payload);
    c
}

#[test]
fn two_clip_stream_header_and_payloads() {
    let c1 = clip(0, &[10, 11, 12]);
    let c2 = clip(100, &[20, 21]);
    let mut stitcher = StreamAssembler::new();
    let mut out = stitcher.add(c1.clone()).unwrap();
    out.extend(stitcher.add(c2.clone()).unwrap());

    let mut header = c1[..44].to_vec();
    for i in (4..8).chain(40..44) {
        header[i] = 0xff;
    }
    assert_eq!(&out[..44], &header[..]);
    assert_eq!(&out[44..], &[10, 11, 12, 20, 21]);
}

#[test]
fn later_clips_lose_header() {
    let mut stitcher = StreamAssembler::new();
    stitcher.add(clip(0, &[])).unwrap();
    assert_eq!(stitcher.add(clip(1, &[7])).unwrap(), vec![7]);
    assert_eq!(stitcher.add(clip(2, &[])).unwrap(), Vec::<u8>::new());
}

#[test]
fn short_clip_is_refused() {
    let mut stitcher = StreamAssembler::new();
    assert_eq!(stitcher.add(vec![0; 43]), Err(AssembleError::ClipTooShort));
    // The next full clip is still treated as the first.
    let out = stitcher.add(clip(0, &[1])).unwrap();
    assert_eq!(out.len(), 45);
    assert_eq!(&out[4..8], &[0xff; 4]);
}

#[test]
fn three_clip_stream_keeps_payload_order() {
    let clips = [clip(0, &[1, 2]), clip(9, &[3]), clip(50, &[4, 5, 6])];
    let mut stitcher = StreamAssembler::new();
    let mut out = Vec::new();
    for c in &clips {
        out.extend(stitcher.add(c.clone()).unwrap());
    }
    assert_eq!(&out[44..], &[1, 2, 3, 4, 5, 6]);
    assert_eq!(&out[..4], &clips[0][..4]);
    assert_eq!(&out[8..40], &clips[0][8..40]);
}

#[test]
fn clip_without_plain_header_is_refused() {
    let mut stitcher = StreamAssembler::new();
    let mut odd = clip(0, &[1, 2]);
    odd[16] = 40; // an extended "fmt " chunk: the payload starts later
    assert_eq!(stitcher.add(odd), Err(AssembleError::NotPlainWav));
    let mut odd = clip(0, &[1, 2]);
    odd[0..4].copy_from_slice(b"RIFX");
    assert_eq!(stitcher.add(odd), Err(AssembleError::NotPlainWav));
    assert_eq!(stitcher.add(vec![0; 50]), Err(AssembleError::NotPlainWav));
    // Still the first clip.
    let out = stitcher.add(clip(0, &[9])).unwrap();
    assert_eq!(&out[40..45], &[0xff, 0xff, 0xff, 0xff, 9]);
}
