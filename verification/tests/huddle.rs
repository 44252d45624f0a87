use apiary::huddle::{Frame, FrameError, SpeechGate, Turn, HEADER_LEN, MAX_DBOV, MIN_DBOV, SAMPLE_RATE};

fn frame(seq: u16, ts: u32, level: i8) -> Frame {
    Frame { sequence: seq, timestamp: ts, level_dbov: level, flags: 0, opus: vec![0xfc, 0x01, 0x02] }
}

fn samples(secs: f64) -> u64 {
    (secs * f64::from(SAMPLE_RATE)) as u64
}

#[test]
fn frames_round_trip_through_the_wire_format() {
    let original = frame(7, 480_000, -30);
    let parsed = Frame::parse(&original.encode()).expect("valid frame");
    assert_eq!(parsed, original);
    // The header is big-endian, per the protocol.
    let bytes = original.encode();
    assert_eq!(&bytes[0..2], &7u16.to_be_bytes());
    assert_eq!(&bytes[2..6], &480_000u32.to_be_bytes());
    assert_eq!(bytes[6] as i8, -30);
}

#[test]
fn a_frame_without_a_header_is_refused_by_length_not_guessed_at() {
    assert_eq!(Frame::parse(&[0u8; 7]), Err(FrameError::TooShort(7)));
    // Exactly a header and no audio is legal: a silence frame.
    let empty = Frame::parse(&[0u8; HEADER_LEN]).expect("header-only frame");
    assert!(empty.opus.is_empty());
}

#[test]
fn an_impossible_level_is_clamped_rather_than_dropped() {
    let mut bytes = frame(1, 0, 0).encode();
    bytes[6] = 42u8; // a nonsense positive level
    assert_eq!(Frame::parse(&bytes).unwrap().level_dbov, MAX_DBOV);
    bytes[6] = (-128i8) as u8;
    assert_eq!(Frame::parse(&bytes).unwrap().level_dbov, MIN_DBOV);
    // and the audio survived the clamp
    assert_eq!(Frame::parse(&bytes).unwrap().opus, vec![0xfc, 0x01, 0x02]);
}

#[test]
fn the_sample_clock_may_wrap_without_inventing_a_day_of_silence() {
    let late = frame(2, 100, -20); // wrapped past u32::MAX
    let earlier = u32::MAX - 100 + 1;
    let seconds = f64::from(late.samples_since(earlier)) / f64::from(SAMPLE_RATE);
    assert!((seconds - (200.0 / 48_000.0)).abs() < 1e-9);
}

#[test]
fn a_breath_mid_sentence_does_not_end_the_turn() {
    let mut gate = SpeechGate::new(-45, samples(0.7));
    assert_eq!(gate.observe(&frame(0, 0, -20)), Turn::Started);
    // 300 ms of quiet: a pause for breath, not the end of a turn.
    let pause = (0.3 * f64::from(SAMPLE_RATE)) as u32;
    assert_eq!(gate.observe(&frame(1, pause, -80)), Turn::Unchanged);
    assert!(gate.is_speaking());
    // Talking resumes, and the hang-over clock restarts from here.
    let resume = (0.4 * f64::from(SAMPLE_RATE)) as u32;
    assert_eq!(gate.observe(&frame(2, resume, -18)), Turn::Unchanged);
    let short_gap = resume + (0.6 * f64::from(SAMPLE_RATE)) as u32;
    assert_eq!(gate.observe(&frame(3, short_gap, -90)), Turn::Unchanged);
}

#[test]
fn a_sustained_gap_ends_the_turn_exactly_once() {
    let mut gate = SpeechGate::new(-45, samples(0.7));
    gate.observe(&frame(0, 0, -20));
    let gap = (0.8 * f64::from(SAMPLE_RATE)) as u32;
    assert_eq!(gate.observe(&frame(1, gap, -90)), Turn::Ended);
    assert!(!gate.is_speaking());
    // Continued silence is not a stream of Ended events.
    let more = gap + (5.0 * f64::from(SAMPLE_RATE)) as u32;
    assert_eq!(gate.observe(&frame(2, more, -90)), Turn::Unchanged);
    // And the next utterance starts cleanly.
    assert_eq!(gate.observe(&frame(3, more + 480, -10)), Turn::Started);
}

#[test]
fn a_room_that_is_merely_quiet_never_starts_a_turn() {
    let mut gate = SpeechGate::default();
    for i in 0..50 {
        let f = frame(i, u32::from(i) * 960, -60); // room tone
        assert_eq!(gate.observe(&f), Turn::Unchanged);
    }
    assert!(!gate.is_speaking());
}

#[test]
fn the_default_gate_hangs_over_for_seven_tenths_of_a_second() {
    let mut gate = SpeechGate::default();
    assert_eq!(gate.observe(&frame(0, 0, -45)), Turn::Started);
    assert_eq!(gate.observe(&frame(1, 33_599, -46)), Turn::Unchanged);
    assert_eq!(gate.observe(&frame(2, 33_600, -46)), Turn::Ended);
}

#[test]
fn a_short_frame_says_how_short() {
    assert_eq!(Frame::parse(&[1u8; 3]).unwrap_err().text(), FrameError::TooShort(3).text());
    assert_eq!(
        FrameError::TooShort(3).text(),
        "huddle frame is 3 bytes; the header alone needs 8"
    );
}
