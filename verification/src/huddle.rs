//! Huddle audio: the wire format and the turn detector.
//!
//! The relay forwards opaque Opus frames between peers rather than mixing
//! them, so each stream is one person, and the header's loudness makes voice
//! activity visible without decoding a single packet.
use crate::text::{decimal, decimal_of};
use vstd::prelude::*;

verus! {

/// Frame protocol v2: an 8-byte big-endian header, then the Opus payload.
pub const HEADER_LEN: usize = 8;

/// Huddle audio is 48 kHz; timestamps count samples at that rate.
pub const SAMPLE_RATE: u32 = 48_000;

/// 0 dBov is full scale and real levels are negative. Levels are clamped
/// rather than dropped: losing a metric beats losing audio.
pub const MIN_DBOV: i8 = -127;

pub const MAX_DBOV: i8 = 0;

/// The default floor of a gate, quiet enough to ignore room tone.
pub const DEFAULT_FLOOR_DBOV: i8 = -45;

/// The default hang-over, 700 ms, patient enough to sit through a breath.
pub const DEFAULT_HANG_OVER: u64 = 33_600;

#[derive(Debug, Clone, PartialEq, Eq)]
pub struct Frame {
    pub sequence: u16,
    /// Sample clock at 48 kHz. Wraps roughly every 24.8 hours.
    pub timestamp: u32,
    /// Loudness, dB relative to overload: 0 is full scale, -127 is silence.
    pub level_dbov: i8,
    pub flags: u8,
    /// Opaque: never inspected until a decoder is attached.
    pub opus: Vec<u8>,
}

/// A frame as values.
pub struct FrameModel {
    pub sequence: int,
    pub timestamp: int,
    pub level: int,
    pub flags: u8,
    pub opus: Seq<u8>,
}

impl View for Frame {
    type V = FrameModel;

    open spec fn view(&self) -> FrameModel {
        FrameModel {
            sequence: self.sequence as int,
            timestamp: self.timestamp as int,
            level: self.level_dbov as int,
            flags: self.flags,
            opus: self.opus@,
        }
    }
}

#[derive(Debug, PartialEq, Eq)]
pub enum FrameError {
    /// Fewer than 8 bytes: there is no header to read.
    TooShort(usize),
}

impl FrameError {
    /// The error in words.
    pub fn text(&self) -> (r: String)
        ensures
            r@ == "huddle frame is "@ + decimal(self->TooShort_0 as nat)
                + " bytes; the header alone needs "@ + decimal(HEADER_LEN as nat),
    {
        match self {
            FrameError::TooShort(n) => {
                let mut out = "huddle frame is ".to_owned();
                out.append(decimal_of(*n as u64).as_str());
                out.append(" bytes; the header alone needs ");
                out.append(decimal_of(HEADER_LEN as u64).as_str());
                out
            },
        }
    }
}

/// A level held between silence and full scale.
pub open spec fn clamped(level: int) -> int {
    if level < MIN_DBOV {
        MIN_DBOV as int
    } else if level > MAX_DBOV {
        MAX_DBOV as int
    } else {
        level
    }
}

/// A byte read as a two's complement number.
pub open spec fn signed(b: u8) -> int {
    if b < 128 {
        b as int
    } else {
        b - 256
    }
}

/// The bytes of a frame on the wire.
pub open spec fn wire(f: FrameModel) -> Seq<u8> {
    seq![
        (f.sequence / 256) as u8,
        (f.sequence % 256) as u8,
        (f.timestamp / 16777216) as u8,
        (f.timestamp / 65536 % 256) as u8,
        (f.timestamp / 256 % 256) as u8,
        (f.timestamp % 256) as u8,
        (clamped(f.level) % 256) as u8,
        f.flags,
    ] + f.opus
}

/// The frame that at least a header's worth of bytes stands for.
pub open spec fn parsed(bytes: Seq<u8>) -> FrameModel {
    FrameModel {
        sequence: bytes[0] * 256 + bytes[1],
        timestamp: bytes[2] * 16777216 + bytes[3] * 65536 + bytes[4] * 256 + bytes[5],
        level: clamped(signed(bytes[6])),
        flags: bytes[7],
        opus: bytes.skip(HEADER_LEN as int),
    }
}

fn clamp_level(level: i8) -> (r: i8)
    ensures
        r == clamped(level as int),
{
    if level < MIN_DBOV {
        MIN_DBOV
    } else if level > MAX_DBOV {
        MAX_DBOV
    } else {
        level
    }
}

fn signed_level(b: u8) -> (r: i8)
    ensures
        r == signed(b),
{
    if b < 128 {
        b as i8
    } else {
        (b as i16 - 256) as i8
    }
}

fn level_byte(level: i8) -> (r: u8)
    requires
        MIN_DBOV <= level <= MAX_DBOV,
    ensures
        r == level as int % 256,
{
    if level == 0 {
        0
    } else {
        (256 + level as i16) as u8
    }
}

impl Frame {
    pub fn parse(bytes: &[u8]) -> (r: Result<Frame, FrameError>)
        ensures
            r is Ok <==> bytes@.len() >= HEADER_LEN,
            r matches Ok(f) ==> f@ == parsed(bytes@),
            r matches Err(e) ==> e == FrameError::TooShort(bytes@.len() as usize),
    {
        if bytes.len() < HEADER_LEN {
            return Err(FrameError::TooShort(bytes.len()));
        }
        let mut opus: Vec<u8> = Vec::new();
        let mut i: usize = HEADER_LEN;
        while i < bytes.len()
            invariant
                HEADER_LEN <= i <= bytes@.len(),
                opus@ == bytes@.subrange(HEADER_LEN as int, i as int),
            decreases bytes@.len() - i,
        {
            opus.push(bytes[i]);
            i += 1;
            assert(opus@ == bytes@.subrange(HEADER_LEN as int, i as int));
        }
        assert(bytes@.subrange(HEADER_LEN as int, i as int) == bytes@.skip(HEADER_LEN as int));
        Ok(
            Frame {
                sequence: bytes[0] as u16 * 256 + bytes[1] as u16,
                timestamp: bytes[2] as u32 * 16777216 + bytes[3] as u32 * 65536 + bytes[4] as u32
                    * 256 + bytes[5] as u32,
                level_dbov: clamp_level(signed_level(bytes[6])),
                flags: bytes[7],
                opus,
            },
        )
    }

    pub fn encode(&self) -> (r: Vec<u8>)
        ensures
            r@ == wire(self@),
    {
        let mut out: Vec<u8> = Vec::new();
        out.push((self.sequence / 256) as u8);
        out.push((self.sequence % 256) as u8);
        out.push((self.timestamp / 16777216) as u8);
        out.push((self.timestamp / 65536 % 256) as u8);
        out.push((self.timestamp / 256 % 256) as u8);
        out.push((self.timestamp % 256) as u8);
        out.push(level_byte(clamp_level(self.level_dbov)));
        out.push(self.flags);
        let ghost header = out@;
        let mut i: usize = 0;
        while i < self.opus.len()
            invariant
                i <= self.opus@.len(),
                out@ == header + self.opus@.take(i as int),
            decreases self.opus@.len() - i,
        {
            out.push(self.opus[i]);
            i += 1;
            assert(out@ == header + self.opus@.take(i as int));
        }
        assert(self.opus@.take(i as int) == self.opus@);
        assert(out@ == wire(self@));
        out
    }

    /// Samples from `earlier` to this frame, tolerating the 24.8-hour wrap of
    /// the sample clock.
    pub fn samples_since(&self, earlier: u32) -> (r: u32)
        ensures
            r == elapsed(earlier as int, self.timestamp as int),
    {
        self.timestamp.wrapping_sub(earlier)
    }
}

/// Samples from one reading of the sample clock to the next.
pub open spec fn elapsed(from: int, to: int) -> int {
    (to - from) % 0x1_0000_0000
}

/// What was concluded about one peer on this frame.
#[derive(Debug, Clone, Copy, PartialEq, Eq)]
pub enum Turn {
    /// Still whatever it was: silence continuing, or speech continuing.
    Unchanged,
    /// This peer just started talking.
    Started,
    /// This peer has been quiet long enough to call the turn over.
    Ended,
}

/// Per-peer turn detection driven entirely by the header's loudness.
///
/// Hysteresis matters more than the threshold: a single quiet frame in the
/// middle of a sentence is a breath, not the end of a turn.
#[derive(Debug, Clone)]
pub struct SpeechGate {
    /// At or above this level, a frame counts as speech.
    pub floor_dbov: i8,
    /// Silence must persist for this many samples before a turn is called
    /// ended. More than the sample clock can count means never.
    pub hang_over: u64,
    speaking: bool,
    last_loud: Option<u32>,
}

/// A gate as values: the floor, the hang-over, and since when the peer that
/// is talking was last heard.
pub struct GateModel {
    pub floor: int,
    pub hang_over: int,
    pub speaking: bool,
    pub last_loud: Option<int>,
}

impl View for SpeechGate {
    type V = GateModel;

    closed spec fn view(&self) -> GateModel {
        GateModel {
            floor: self.floor_dbov as int,
            hang_over: self.hang_over as int,
            speaking: self.speaking,
            last_loud: match self.last_loud {
                Some(t) => Some(t as int),
                None => None,
            },
        }
    }
}

/// A gate in working order: a peer that is talking was heard at some time.
pub open spec fn gate_wf(g: GateModel) -> bool {
    g.speaking ==> g.last_loud is Some
}

/// For how many samples the peer has been quiet.
pub open spec fn quiet_for(g: GateModel, timestamp: int) -> int {
    match g.last_loud {
        Some(t) => elapsed(t, timestamp),
        None => 0,
    }
}

/// What one frame makes of a gate: its state afterwards, and what it concluded.
pub open spec fn observed(g: GateModel, level: int, timestamp: int) -> (GateModel, Turn) {
    if level >= g.floor {
        (
            GateModel { speaking: true, last_loud: Some(timestamp), ..g },
            if g.speaking {
                Turn::Unchanged
            } else {
                Turn::Started
            },
        )
    } else if g.speaking && quiet_for(g, timestamp) >= g.hang_over {
        (GateModel { speaking: false, ..g }, Turn::Ended)
    } else {
        (g, Turn::Unchanged)
    }
}

impl SpeechGate {
    pub fn new(floor_dbov: i8, hang_over: u64) -> (r: SpeechGate)
        ensures
            gate_wf(r@),
            r@ == (GateModel {
                floor: floor_dbov as int,
                hang_over: hang_over as int,
                speaking: false,
                last_loud: None,
            }),
    {
        SpeechGate { floor_dbov, hang_over, speaking: false, last_loud: None }
    }

    pub fn is_speaking(&self) -> (r: bool)
        ensures
            r == self@.speaking,
    {
        self.speaking
    }

    pub fn observe(&mut self, frame: &Frame) -> (r: Turn)
        ensures
            gate_wf(old(self)@) ==> gate_wf(final(self)@),
            (final(self)@, r) == observed(
                old(self)@,
                frame.level_dbov as int,
                frame.timestamp as int,
            ),
    {
        if frame.level_dbov >= self.floor_dbov {
            self.last_loud = Some(frame.timestamp);
            if !self.speaking {
                self.speaking = true;
                return Turn::Started;
            }
            return Turn::Unchanged;
        }
        if self.speaking {
            let quiet_for: u32 = match self.last_loud {
                Some(t) => frame.samples_since(t),
                None => 0,
            };
            if quiet_for as u64 >= self.hang_over {
                self.speaking = false;
                return Turn::Ended;
            }
        }
        Turn::Unchanged
    }
}

impl Default for SpeechGate {
    fn default() -> (r: SpeechGate)
        ensures
            r@ == (GateModel {
                floor: DEFAULT_FLOOR_DBOV as int,
                hang_over: DEFAULT_HANG_OVER as int,
                speaking: false,
                last_loud: None,
            }),
    {
        SpeechGate::new(DEFAULT_FLOOR_DBOV, DEFAULT_HANG_OVER)
    }
}

// ------------------------------------------------------------- laws

/// A frame that a sender can have built.
pub open spec fn frame_fits(f: FrameModel) -> bool {
    0 <= f.sequence < 0x1_0000 && 0 <= f.timestamp < 0x1_0000_0000 && -128 <= f.level < 128
}

/// What is encoded reads back, but for an impossible level, which is clamped.
pub proof fn frames_round_trip(f: FrameModel)
    requires
        frame_fits(f),
    ensures
        wire(f).len() >= HEADER_LEN,
        parsed(wire(f)) == (FrameModel { level: clamped(f.level), ..f }),
{
    let bytes = wire(f);
    assert(bytes.skip(HEADER_LEN as int) == f.opus);
    assert(signed(bytes[6]) == clamped(f.level));
}

/// What is read encodes to the same bytes, where the level was a possible one.
pub proof fn bytes_round_trip(bytes: Seq<u8>)
    requires
        bytes.len() >= HEADER_LEN,
        bytes[6] == 0 || bytes[6] > 128,
    ensures
        wire(parsed(bytes)) == bytes,
{
    let f = parsed(bytes);
    assert(f.sequence / 256 == bytes[0] && f.sequence % 256 == bytes[1]);
    assert(f.timestamp / 16777216 == bytes[2]);
    assert(f.timestamp / 65536 == bytes[2] * 256 + bytes[3]);
    assert(f.timestamp / 256 == bytes[2] * 65536 + bytes[3] * 256 + bytes[4]);
    assert(wire(f) == bytes);
}

/// Parsing keeps every level within what a level can be, and the audio whole.
pub proof fn parsing_keeps_the_audio(bytes: Seq<u8>)
    requires
        bytes.len() >= HEADER_LEN,
    ensures
        MIN_DBOV <= parsed(bytes).level <= MAX_DBOV,
        parsed(bytes).opus.len() == bytes.len() - HEADER_LEN,
        forall|i: int|
            0 <= i < bytes.len() - HEADER_LEN ==> parsed(bytes).opus[i] == bytes[HEADER_LEN + i],
{
}

/// A breath is not the end of a turn: within the hang-over a quiet frame
/// changes nothing.
pub proof fn a_breath_changes_nothing(g: GateModel, level: int, timestamp: int)
    requires
        level < g.floor,
        g.speaking ==> quiet_for(g, timestamp) < g.hang_over,
    ensures
        observed(g, level, timestamp) == (g, Turn::Unchanged),
{
}

/// A turn ends once: after it ended, quiet frames report nothing more.
pub proof fn a_turn_ends_once(g: GateModel, level: int, timestamp: int, level2: int, timestamp2: int)
    requires
        observed(g, level, timestamp).1 == Turn::Ended,
        level2 < g.floor,
    ensures
        observed(observed(g, level, timestamp).0, level2, timestamp2) == (
            observed(g, level, timestamp).0,
            Turn::Unchanged,
        ),
{
}

/// Started and ended alternate: a turn starts only out of silence, and ends
/// only out of speech.
pub proof fn turns_alternate(g: GateModel, level: int, timestamp: int)
    ensures
        observed(g, level, timestamp).1 == Turn::Started ==> !g.speaking && observed(
            g,
            level,
            timestamp,
        ).0.speaking,
        observed(g, level, timestamp).1 == Turn::Ended ==> g.speaking && !observed(
            g,
            level,
            timestamp,
        ).0.speaking,
        observed(g, level, timestamp).1 == Turn::Unchanged ==> g.speaking == observed(
            g,
            level,
            timestamp,
        ).0.speaking,
{
}

/// The sample clock may wrap: a gap shorter than a whole turn of the clock is
/// measured as it is, whether or not the clock passed zero in it.
pub proof fn the_clock_may_wrap(from: int, gap: int)
    requires
        0 <= from < 0x1_0000_0000,
        0 <= gap < 0x1_0000_0000,
    ensures
        elapsed(from, (from + gap) % 0x1_0000_0000) == gap,
{
}

/// The header is big-endian. The timestamp is the base-256 number that bytes
/// two to five spell, the first of them weighing most; the sequence number is
/// spelled by bytes zero and one in the same way, and what follows the eighth
/// byte is the audio as it came.
pub proof fn the_header_is_big_endian(bytes: Seq<u8>)
    requires
        bytes.len() >= 8,
    ensures
        parsed(bytes).sequence == 256 * bytes[0] + bytes[1],
        parsed(bytes).timestamp == 256 * (256 * (256 * bytes[2] + bytes[3]) + bytes[4]) + bytes[5],
        parsed(bytes).flags == bytes[7],
        bytes == bytes.take(8) + parsed(bytes).opus,
{
    assert(bytes == bytes.take(8) + parsed(bytes).opus);
}

/// Two timestamps compare as their four bytes do, the first byte that differs
/// deciding.
pub proof fn timestamps_compare_as_their_bytes(a: Seq<u8>, b: Seq<u8>)
    requires
        a.len() >= 8,
        b.len() >= 8,
    ensures
        parsed(a).timestamp < parsed(b).timestamp <==> (a[2] < b[2] || (a[2] == b[2] && (a[3] < b[3]
            || (a[3] == b[3] && (a[4] < b[4] || (a[4] == b[4] && a[5] < b[5])))))),
        parsed(a).timestamp == parsed(b).timestamp <==> (a[2] == b[2] && a[3] == b[3] && a[4]
            == b[4] && a[5] == b[5]),
{
}

/// Sequence numbers compare as their two bytes do, the first deciding.
pub proof fn sequence_numbers_compare_as_their_bytes(a: Seq<u8>, b: Seq<u8>)
    requires
        a.len() >= 8,
        b.len() >= 8,
    ensures
        parsed(a).sequence < parsed(b).sequence <==> (a[0] < b[0] || (a[0] == b[0] && a[1] < b[1])),
        parsed(a).sequence == parsed(b).sequence <==> (a[0] == b[0] && a[1] == b[1]),
{
}

/// The last byte of the timestamp counts single samples: raising it alone by
/// one raises the timestamp by one. Each byte before it weighs 256 times as
/// much as the one after it.
pub proof fn each_timestamp_byte_has_its_weight(bytes: Seq<u8>, i: int)
    requires
        bytes.len() >= 8,
        2 <= i <= 5,
        bytes[i] < 255,
    ensures
        parsed(bytes.update(i, (bytes[i] + 1) as u8)).timestamp - parsed(bytes).timestamp == (if i
            == 5 {
            1
        } else if i == 4 {
            256
        } else if i == 3 {
            65_536
        } else {
            16_777_216int
        }),
{
}

/// No byte of the header leaks into the field of another: a frame's sequence
/// number, timestamp, level, flags and audio each rest on their own bytes.
pub proof fn each_field_rests_on_its_own_bytes(a: Seq<u8>, b: Seq<u8>)
    requires
        a.len() >= 8,
        b.len() >= 8,
    ensures
        a.subrange(0, 2) == b.subrange(0, 2) <==> parsed(a).sequence == parsed(b).sequence,
        a.subrange(2, 6) == b.subrange(2, 6) <==> parsed(a).timestamp == parsed(b).timestamp,
        a[6] == b[6] ==> parsed(a).level == parsed(b).level,
        a[7] == b[7] <==> parsed(a).flags == parsed(b).flags,
        a.skip(8) == b.skip(8) <==> parsed(a).opus == parsed(b).opus,
{
    if parsed(a).sequence == parsed(b).sequence {
        sequence_numbers_compare_as_their_bytes(a, b);
        assert(a.subrange(0, 2) =~= b.subrange(0, 2));
    }
    if a.subrange(0, 2) == b.subrange(0, 2) {
        assert(a[0] == a.subrange(0, 2)[0] && a[1] == a.subrange(0, 2)[1]);
        assert(b[0] == b.subrange(0, 2)[0] && b[1] == b.subrange(0, 2)[1]);
    }
    if parsed(a).timestamp == parsed(b).timestamp {
        timestamps_compare_as_their_bytes(a, b);
        assert(a.subrange(2, 6) =~= b.subrange(2, 6));
    }
    if a.subrange(2, 6) == b.subrange(2, 6) {
        assert(a[2] == a.subrange(2, 6)[0] && a[3] == a.subrange(2, 6)[1]);
        assert(a[4] == a.subrange(2, 6)[2] && a[5] == a.subrange(2, 6)[3]);
        assert(b[2] == b.subrange(2, 6)[0] && b[3] == b.subrange(2, 6)[1]);
        assert(b[4] == b.subrange(2, 6)[2] && b[5] == b.subrange(2, 6)[3]);
    }
}

/// The level is the seventh byte in two's complement, held between -127 and 0:
/// zero and every byte with the sign bit unset reads as full scale, and -128
/// reads as silence.
pub proof fn the_level_is_a_signed_byte(bytes: Seq<u8>)
    requires
        bytes.len() >= 8,
    ensures
        bytes[6] < 128 ==> parsed(bytes).level == 0,
        bytes[6] == 128 ==> parsed(bytes).level == -127,
        bytes[6] > 128 ==> parsed(bytes).level + 256 == bytes[6],
{
}

/// What goes on the wire is big-endian: bytes two to five spell the timestamp
/// in base 256 and bytes zero and one the sequence number, the first byte of
/// each weighing most; the flags and the audio follow unchanged.
pub proof fn what_is_sent_is_big_endian(f: FrameModel)
    requires
        frame_fits(f),
    ensures
        wire(f).len() == 8 + f.opus.len(),
        f.sequence == 256 * wire(f)[0] + wire(f)[1],
        f.timestamp == 256 * (256 * (256 * wire(f)[2] + wire(f)[3]) + wire(f)[4]) + wire(f)[5],
        wire(f)[7] == f.flags,
        wire(f).skip(8) == f.opus,
        -127 <= f.level < 0 ==> wire(f)[6] == f.level + 256,
        f.level >= 0 ==> wire(f)[6] == 0,
        f.level == -128 ==> wire(f)[6] == 129,
{
    assert(wire(f).skip(8) =~= f.opus);
}

/// Two frames that a receiver can tell apart are told apart on the wire.
pub proof fn different_frames_have_different_bytes(f: FrameModel, g: FrameModel)
    requires
        frame_fits(f),
        frame_fits(g),
        wire(f) == wire(g),
    ensures
        f.sequence == g.sequence,
        f.timestamp == g.timestamp,
        f.flags == g.flags,
        f.opus == g.opus,
{
    what_is_sent_is_big_endian(f);
    what_is_sent_is_big_endian(g);
}

/// A frame at or above the floor is speech: the peer talks from then on and
/// was last heard at that frame, and a turn starts where none was under way.
pub proof fn a_loud_frame_is_speech(g: GateModel, level: int, timestamp: int)
    requires
        level >= g.floor,
    ensures
        observed(g, level, timestamp).0.speaking,
        observed(g, level, timestamp).0.last_loud == Some(timestamp),
        !g.speaking ==> observed(g, level, timestamp).1 == Turn::Started,
        g.speaking ==> observed(g, level, timestamp).1 == Turn::Unchanged,
{
}

/// After a loud frame a turn lasts exactly as long as the hang-over: a quiet
/// frame `gap` samples later ends it if and only if the gap has reached the
/// hang-over, also where the sample clock passed zero in between.
pub proof fn a_turn_ends_after_the_hang_over(
    g: GateModel,
    loud: int,
    at: int,
    quiet: int,
    gap: int,
)
    requires
        loud >= g.floor,
        quiet < g.floor,
        0 <= at < 0x1_0000_0000,
        0 <= gap < 0x1_0000_0000,
    ensures
        observed(observed(g, loud, at).0, quiet, (at + gap) % 0x1_0000_0000).1 == (if gap
            >= g.hang_over {
            Turn::Ended
        } else {
            Turn::Unchanged
        }),
        observed(observed(g, loud, at).0, quiet, (at + gap) % 0x1_0000_0000).0.speaking <==> gap
            < g.hang_over,
{
    the_clock_may_wrap(at, gap);
}

/// A quiet frame never starts a turn, and never moves the time at which the
/// peer was last heard.
pub proof fn silence_starts_nothing(g: GateModel, level: int, timestamp: int)
    requires
        level < g.floor,
    ensures
        observed(g, level, timestamp).1 != Turn::Started,
        observed(g, level, timestamp).0.last_loud == g.last_loud,
        !g.speaking ==> observed(g, level, timestamp) == (g, Turn::Unchanged),
{
}

/// No frame changes how a gate is tuned.
pub proof fn a_gate_stays_as_tuned(g: GateModel, level: int, timestamp: int)
    ensures
        observed(g, level, timestamp).0.floor == g.floor,
        observed(g, level, timestamp).0.hang_over == g.hang_over,
{
}

/// Times between readings of the clock add up, and no time passes between
/// equal readings.
pub proof fn gaps_add_up(a: int, b: int, c: int)
    requires
        0 <= a < 0x1_0000_0000,
        0 <= b < 0x1_0000_0000,
        0 <= c < 0x1_0000_0000,
    ensures
        elapsed(a, a) == 0,
        a <= b ==> elapsed(a, b) == b - a,
        a > b ==> elapsed(a, b) == 0x1_0000_0000 - (a - b),
        a <= b <= c ==> elapsed(a, c) == elapsed(a, b) + elapsed(b, c),
{
}

} // verus!
