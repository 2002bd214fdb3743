use storyteller::assemble::WAV_HEADER_LEN;
use storyteller::segment::BreakPolicy;
use storyteller::session::{Session, SessionState};

fn wav(payload: &[u8]) -> Vec<u8> {
    let mut c = vec![1u8; WAV_HEADER_LEN];
    c[0..4].copy_from_slice(b"RIFF");
    c[8..16].copy_from_slice(b"WAVEfmt ");
    c[16..20].copy_from_slice(&[16, 0, 0, 0]);
    c[20..22].copy_from_slice(&[1, 0]);
    c[36..40].copy_from_slice(b"data");
    c.extend_from_slice(payload);
    c
}

#[test]
fn session_runs_to_closed() {
    let mut s = Session::new(BreakPolicy::Budgeted { max_chars: 1000 });
    assert_eq!(s.state(), SessionState::Idle);
    assert_eq!(s.on_token("Once upon").unwrap(), Vec::<String>::new());
    assert_eq!(s.state(), SessionState::Streaming);
    assert_eq!(s.on_token(" a time. The").unwrap(), vec!["Once upon a time.".to_string()]);
    let first = s.on_clip(wav(&[5, 6])).unwrap();
    assert_eq!(first.len(), WAV_HEADER_LEN + 2);
    assert_eq!(s.on_source_end().unwrap(), " The");
    assert_eq!(s.state(), SessionState::Draining);
    assert_eq!(s.on_token("late"), None);
    assert_eq!(s.on_clip(wav(&[7])).unwrap(), vec![7]);
    assert!(s.close());
    assert_eq!(s.state(), SessionState::Closed);
    assert_eq!(s.on_clip(wav(&[8])), None);
    s.fail();
    assert_eq!(s.state(), SessionState::Closed);
}

#[test]
fn session_failures() {
    let mut s = Session::new(BreakPolicy::Marked);
    assert!(!s.close());
    assert_eq!(s.on_clip(wav(&[])), None);
    assert_eq!(s.state(), SessionState::Idle);
    s.on_token("Hi.~").unwrap();
    assert_eq!(s.on_clip(vec![0; 3]), None);
    assert_eq!(s.state(), SessionState::Failed);
    assert_eq!(s.on_source_end(), None);

    let mut s = Session::new(BreakPolicy::Marked);
    s.fail();
    assert_eq!(s.state(), SessionState::Failed);
}

#[test]
fn session_fails_on_clip_without_plain_header() {
    let mut s = Session::new(BreakPolicy::Marked);
    s.on_token("Hi.~").unwrap();
    assert_eq!(s.on_clip(vec![1u8; 60]), None);
    assert_eq!(s.state(), SessionState::Failed);
}
