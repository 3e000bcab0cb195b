//! The resynchronizing, incremental MSP frame parser.
//!
//! The parser is a state machine over single bytes. While hunting it drops
//! every byte that is not `$`. After `$` it collects the bytes of one frame
//! candidate, the *body*, and judges the body after every byte: more bytes
//! are needed, the frame is complete, or the candidate is refused. A
//! complete or refused candidate sends the parser back to hunting.

use crate::checksum::crc8_dvb_s2_digest;
use crate::checksum::xor_checksum;
use crate::msp::FrameView;
use crate::msp::MspDirection;
use crate::msp::MspError;
use crate::msp::MspFrame;
use crate::msp::MspVersion;
use crate::msp::FRAME_START;
use vstd::prelude::*;
use vstd::slice::slice_subrange;

verus! {

/// Largest number of bytes that can follow `$` in one frame: a seven-byte
/// MSPv2 header, 65535 payload bytes and the checksum.
pub const MAX_BODY: usize = 65543;

/// Bytes of a body before the payload, as far as the version alone fixes
/// them: version, direction, function and length in MSPv1; version,
/// direction, flag, function and length in MSPv2.
pub open spec fn fixed_header_len(version: MspVersion) -> nat {
    match version {
        MspVersion::V1 => 4,
        MspVersion::V2 => 7,
    }
}

/// Bytes of a body before the payload.
pub open spec fn header_len(body: Seq<u8>) -> nat {
    if MspVersion::of_byte(body[0]) == Some(MspVersion::V1) {
        if body[3] == 255 {
            6
        } else {
            4
        }
    } else {
        7
    }
}

/// The payload length that the header of a body declares.
pub open spec fn payload_len(body: Seq<u8>) -> nat {
    if MspVersion::of_byte(body[0]) == Some(MspVersion::V1) {
        if body[3] == 255 {
            (body[4] as nat) + 256 * (body[5] as nat)
        } else {
            body[3] as nat
        }
    } else {
        (body[5] as nat) + 256 * (body[6] as nat)
    }
}

/// Length of the whole body: header, payload and checksum byte.
pub open spec fn total_len(body: Seq<u8>) -> nat {
    header_len(body) + payload_len(body) + 1
}

/// The received bytes that the checksum covers.
pub open spec fn covered_of(body: Seq<u8>) -> Seq<u8> {
    if MspVersion::of_byte(body[0]) == Some(MspVersion::V1) {
        body.subrange(3, total_len(body) - 1)
    } else {
        body.subrange(2, total_len(body) - 1)
    }
}

/// The checksum that the covered bytes of a body call for.
pub open spec fn expected_checksum(body: Seq<u8>) -> u8 {
    if MspVersion::of_byte(body[0]) == Some(MspVersion::V1) {
        crate::checksum::xor_sum(covered_of(body))
    } else {
        crate::checksum::crc8_dvb_s2(covered_of(body))
    }
}

/// The frame that a complete body holds.
pub open spec fn frame_of(body: Seq<u8>) -> FrameView {
    if MspVersion::of_byte(body[0]) == Some(MspVersion::V1) {
        FrameView {
            version: MspVersion::V1,
            direction: MspDirection::of_byte(body[1])->0,
            flag: None,
            function: body[2] as u16,
            payload: body.subrange(header_len(body) as int, total_len(body) - 1),
        }
    } else {
        FrameView {
            version: MspVersion::V2,
            direction: MspDirection::of_byte(body[1])->0,
            flag: Some(body[2]),
            function: crate::wire::u16_at(body, 3),
            payload: body.subrange(7, total_len(body) - 1),
        }
    }
}

/// What the parser makes of a body.
#[verifier::ext_equal]
pub enum Progress {
    /// The body is a proper prefix of a frame candidate.
    More,
    /// The body is a complete frame with a matching checksum.
    Done(FrameView),
    /// The body cannot be continued to a frame.
    Failed(MspError),
}

/// Judges a body of at least one byte. The version byte is judged first,
/// then the direction byte; the length is known once the header is
/// complete, and the checksum is compared when the last byte is there.
pub open spec fn classify(body: Seq<u8>) -> Progress {
    match MspVersion::of_byte(body[0]) {
        None => Progress::Failed(MspError::UnknownVersion),
        Some(version) => if body.len() < 2 {
            Progress::More
        } else if MspDirection::of_byte(body[1]) is None {
            Progress::Failed(MspError::UnknownDirection)
        } else if body.len() < fixed_header_len(version) || body.len() < total_len(body) {
            Progress::More
        } else if body[total_len(body) - 1] == expected_checksum(body) {
            Progress::Done(frame_of(body))
        } else {
            Progress::Failed(MspError::CrcMismatch)
        },
    }
}

/// The state of a parser as a value: `None` while hunting for `$`,
/// otherwise the body collected since the last `$`.
pub type ParserView = Option<Seq<u8>>;

/// One result of the parser: a frame or the reason a candidate was refused.
pub type Outcome = Result<FrameView, MspError>;

/// One transition: the state after a byte and what the byte brought about.
pub open spec fn step(state: ParserView, byte: u8) -> (ParserView, Option<Outcome>) {
    match state {
        None => if byte == FRAME_START {
            (Some(Seq::<u8>::empty()), None)
        } else {
            (None, None)
        },
        Some(body) => match classify(body.push(byte)) {
            Progress::More => (Some(body.push(byte)), None),
            Progress::Done(frame) => (None, Some(Ok(frame))),
            Progress::Failed(e) => (None, Some(Err(e))),
        },
    }
}

/// Runs the machine over a sequence of bytes: the state at the end and all
/// outcomes in the order in which they arose.
pub open spec fn run(state: ParserView, bytes: Seq<u8>) -> (ParserView, Seq<Outcome>)
    decreases bytes.len(),
{
    if bytes.len() == 0 {
        (state, Seq::<Outcome>::empty())
    } else {
        let before = run(state, bytes.drop_last());
        let after = step(before.0, bytes.last());
        (
            after.0,
            match after.1 {
                Some(outcome) => before.1.push(outcome),
                None => before.1,
            },
        )
    }
}

/// What decoding one frame from a buffer yields: the first outcome of a
/// parser that starts hunting at the first byte, or `UnexpectedEof` when the
/// buffer ends before any outcome.
pub open spec fn decode_spec(bytes: Seq<u8>) -> Outcome {
    let outcomes = run(None, bytes).1;
    if outcomes.len() > 0 {
        outcomes[0]
    } else {
        Err(MspError::UnexpectedEof)
    }
}

/// The named states of the parser.
#[derive(Clone, Copy, Debug, PartialEq, Eq, Structural)]
pub enum ParserState {
    /// Searching for `$`.
    Hunt,
    /// Reading the version and direction bytes.
    Header,
    /// Reading function and length of an MSPv1 frame.
    V1Fields,
    /// Reading flag, function and length of an MSPv2 frame.
    V2Fields,
    /// Reading the 16-bit length of an MSPv1 jumbo frame.
    Jumbo,
    /// Reading the payload; the number of payload bytes still missing.
    Payload(usize),
    /// Waiting for the checksum byte.
    Checksum,
}

/// The named state that a parser value is in.
pub open spec fn state_of(view: ParserView) -> ParserState {
    match view {
        None => ParserState::Hunt,
        Some(body) => if body.len() < 2 {
            ParserState::Header
        } else if MspVersion::of_byte(body[0]) == Some(MspVersion::V1) && body.len() < 4 {
            ParserState::V1Fields
        } else if MspVersion::of_byte(body[0]) != Some(MspVersion::V1) && body.len() < 7 {
            ParserState::V2Fields
        } else if body.len() < header_len(body) {
            ParserState::Jumbo
        } else if body.len() + 1 < total_len(body) {
            ParserState::Payload((total_len(body) - 1 - body.len()) as usize)
        } else {
            ParserState::Checksum
        },
    }
}

/// What one byte brought about.
#[derive(Debug, PartialEq, Eq)]
pub enum ParseEvent {
    /// Nothing yet: the byte was dropped or stored.
    Pending,
    /// The byte completed this frame.
    Frame(MspFrame),
    /// The byte made the parser refuse the candidate it was collecting.
    Error(MspError),
}

impl View for ParseEvent {
    type V = Option<Outcome>;

    open spec fn view(&self) -> Option<Outcome> {
        match self {
            ParseEvent::Pending => None,
            ParseEvent::Frame(frame) => Some(Ok(frame@)),
            ParseEvent::Error(e) => Some(Err(*e)),
        }
    }
}

/// Judges a body as [`classify`] does.
fn judge(body: &Vec<u8>) -> (event: ParseEvent)
    requires
        1 <= body@.len() <= MAX_BODY,
    ensures
        match classify(body@) {
            Progress::More => event@ is None,
            Progress::Done(frame) => event@ == Some(Ok::<FrameView, MspError>(frame)),
            Progress::Failed(e) => event@ == Some(Err::<FrameView, MspError>(e)),
        },
{
    let n = body.len();
    let version = match MspVersion::try_from(body[0]) {
        Ok(v) => v,
        Err(e) => {
            return ParseEvent::Error(e);
        },
    };
    if n < 2 {
        return ParseEvent::Pending;
    }
    let direction = match MspDirection::try_from(body[1]) {
        Ok(d) => d,
        Err(e) => {
            return ParseEvent::Error(e);
        },
    };
    let (start, header, length): (usize, usize, usize) = match version {
        MspVersion::V1 => {
            if n < 4 {
                return ParseEvent::Pending;
            }
            if body[3] == 255 {
                if n < 6 {
                    return ParseEvent::Pending;
                }
                (3, 6, body[4] as usize + 256 * (body[5] as usize))
            } else {
                (3, 4, body[3] as usize)
            }
        },
        MspVersion::V2 => {
            if n < 7 {
                return ParseEvent::Pending;
            }
            (2, 7, body[5] as usize + 256 * (body[6] as usize))
        },
    };
    let total: usize = header + length + 1;
    if n < total {
        return ParseEvent::Pending;
    }
    let covered = slice_subrange(body.as_slice(), start, total - 1);
    let expected = match version {
        MspVersion::V1 => xor_checksum(covered),
        MspVersion::V2 => crc8_dvb_s2_digest(covered),
    };
    if body[total - 1] != expected {
        return ParseEvent::Error(MspError::CrcMismatch);
    }
    let payload = vstd::slice::slice_to_vec(slice_subrange(body.as_slice(), header, total - 1));
    let frame = match version {
        MspVersion::V1 => MspFrame {
            version,
            direction,
            flag: None,
            function: body[2] as u16,
            payload,
        },
        MspVersion::V2 => MspFrame {
            version,
            direction,
            flag: Some(body[2]),
            function: crate::wire::get_u16(body.as_slice(), 3),
            payload,
        },
    };
    assert(frame@ =~= frame_of(body@));
    ParseEvent::Frame(frame)
}

/// The incremental parser. It may be fed bytes in chunks of any size.
pub struct MspParser {
    hunting: bool,
    body: Vec<u8>,
}

impl View for MspParser {
    type V = ParserView;

    closed spec fn view(&self) -> ParserView {
        if self.hunting {
            None
        } else {
            Some(self.body@)
        }
    }
}

impl MspParser {
    #[verifier::type_invariant]
    spec fn inv(self) -> bool {
        &&& self.hunting ==> self.body@.len() == 0
        &&& self.body@.len() > 0 ==> classify(self.body@) is More
        &&& self.body@.len() < MAX_BODY
    }

    /// A parser that hunts for the start of a frame.
    pub fn new() -> (parser: MspParser)
        ensures
            parser@ is None,
    {
        MspParser { hunting: true, body: Vec::new() }
    }

    /// Takes one more byte of the stream.
    pub fn push(&mut self, byte: u8) -> (event: ParseEvent)
        ensures
            (final(self)@, event@) == step(old(self)@, byte),
    {
        proof {
            use_type_invariant(&*self);
        }
        if self.hunting {
            if byte == FRAME_START {
                self.hunting = false;
            }
            return ParseEvent::Pending;
        }
        let mut body: Vec<u8> = Vec::new();
        core::mem::swap(&mut self.body, &mut body);
        body.push(byte);
        proof {
            lemma_total_bounded(body@);
        }
        let event = judge(&body);
        match event {
            ParseEvent::Pending => {
                proof {
                    lemma_more_is_short(body@);
                }
                self.body = body;
            },
            _ => {
                self.hunting = true;
            },
        }
        event
    }

    /// The named state the parser is in.
    pub fn state(&self) -> (state: ParserState)
        ensures
            state == state_of(self@),
    {
        proof {
            use_type_invariant(self);
        }
        let n = self.body.len();
        if self.hunting {
            ParserState::Hunt
        } else if n < 2 {
            ParserState::Header
        } else {
            let v1 = self.body[0] == 0x4d;
            if v1 && n < 4 {
                ParserState::V1Fields
            } else if !v1 && n < 7 {
                ParserState::V2Fields
            } else if v1 && self.body[3] == 255 && n < 6 {
                ParserState::Jumbo
            } else {
                let (header, length): (usize, usize) = if !v1 {
                    (7, self.body[5] as usize + 256 * (self.body[6] as usize))
                } else if self.body[3] == 255 {
                    (6, self.body[4] as usize + 256 * (self.body[5] as usize))
                } else {
                    (4, self.body[3] as usize)
                };
                if n < header + length {
                    ParserState::Payload(header + length - n)
                } else {
                    ParserState::Checksum
                }
            }
        }
    }

    /// Takes a chunk of the stream and returns, in order, every frame and
    /// every refusal that the chunk brought about.
    pub fn feed(&mut self, chunk: &[u8]) -> (outcomes: Vec<Result<MspFrame, MspError>>)
        ensures
            (final(self)@, outcome_views(outcomes@)) == run(old(self)@, chunk@),
    {
        let ghost start = self@;
        let mut outcomes: Vec<Result<MspFrame, MspError>> = Vec::new();
        let mut i: usize = 0;
        assert(outcome_views(outcomes@) =~= Seq::<Outcome>::empty());
        assert(chunk@.take(0) =~= Seq::<u8>::empty());
        while i < chunk.len()
            invariant
                i <= chunk.len(),
                (self@, outcome_views(outcomes@)) == run(start, chunk@.take(i as int)),
            decreases chunk.len() - i,
        {
            let ghost seen = outcomes@;
            assert(chunk@.take(i + 1).drop_last() =~= chunk@.take(i as int));
            match self.push(chunk[i]) {
                ParseEvent::Pending => {},
                ParseEvent::Frame(frame) => {
                    outcomes.push(Ok(frame));
                    assert(outcome_views(outcomes@) =~= outcome_views(seen).push(
                        outcome_view(outcomes@.last()),
                    ));
                },
                ParseEvent::Error(e) => {
                    outcomes.push(Err(e));
                    assert(outcome_views(outcomes@) =~= outcome_views(seen).push(
                        outcome_view(outcomes@.last()),
                    ));
                },
            }
            i = i + 1;
        }
        assert(chunk@.take(i as int) =~= chunk@);
        outcomes
    }
}

/// The model of a frame or a refusal.
pub open spec fn outcome_view(outcome: Result<MspFrame, MspError>) -> Outcome {
    match outcome {
        Ok(frame) => Ok(frame@),
        Err(e) => Err(e),
    }
}

/// The models of a list of frames and refusals.
pub open spec fn outcome_views(outcomes: Seq<Result<MspFrame, MspError>>) -> Seq<Outcome> {
    outcomes.map_values(|outcome: Result<MspFrame, MspError>| outcome_view(outcome))
}

impl MspFrame {
    /// Decodes the first frame of a buffer. Bytes in front of the first `$`
    /// are skipped; the first refusal of the parser is the error; a buffer
    /// that ends before any outcome gives `UnexpectedEof`.
    pub fn decode(bytes: &[u8]) -> (decoded: Result<MspFrame, MspError>)
        ensures
            outcome_view(decoded) == decode_spec(bytes@),
    {
        let mut parser = MspParser::new();
        let mut i: usize = 0;
        assert(bytes@.take(0) =~= Seq::<u8>::empty());
        while i < bytes.len()
            invariant
                i <= bytes.len(),
                run(None, bytes@.take(i as int)) == (parser@, Seq::<Outcome>::empty()),
            decreases bytes.len() - i,
        {
            assert(bytes@.take(i + 1).drop_last() =~= bytes@.take(i as int));
            proof {
                lemma_run_split(None, bytes@.take(i + 1), bytes@.skip(i + 1));
                assert(bytes@.take(i + 1) + bytes@.skip(i + 1) =~= bytes@);
            }
            match parser.push(bytes[i]) {
                ParseEvent::Pending => {},
                ParseEvent::Frame(frame) => {
                    return Ok(frame);
                },
                ParseEvent::Error(e) => {
                    return Err(e);
                },
            }
            i = i + 1;
        }
        assert(bytes@.take(i as int) =~= bytes@);
        Err(MspError::UnexpectedEof)
    }
}

/// A body has at most `MAX_BODY` bytes.
pub proof fn lemma_total_bounded(body: Seq<u8>)
    ensures
        total_len(body) <= MAX_BODY,
{
}

/// A body that needs more bytes is shorter than the longest frame.
pub proof fn lemma_more_is_short(body: Seq<u8>)
    requires
        body.len() >= 1,
        classify(body) is More,
    ensures
        body.len() < MAX_BODY,
{
}

/// The transitions of the machine. While hunting, every byte but `$` is
/// dropped and `$` opens a header. Every outcome sends the parser back to
/// hunting, and the only refusals are an unknown version, an unknown
/// direction and a checksum that does not match. A header that declares an
/// empty payload is followed by the checksum at once.
pub proof fn lemma_transitions(state: ParserView, byte: u8)
    ensures
        state is None && byte != FRAME_START ==> step(state, byte) == (
            None::<Seq<u8>>,
            None::<Outcome>,
        ),
        state is None && byte == FRAME_START ==> state_of(step(state, byte).0)
            == ParserState::Header && step(state, byte).1 is None,
        step(state, byte).1 is Some ==> state_of(step(state, byte).0) == ParserState::Hunt,
        step(state, byte).1 matches Some(Err(e)) ==> e == MspError::UnknownVersion || e
            == MspError::UnknownDirection || e == MspError::CrcMismatch,
        step(state, byte).0 matches Some(body) ==> (body.len() >= 4 && body.len() >= header_len(
            body,
        ) && payload_len(body) == 0 ==> state_of(step(state, byte).0) == ParserState::Checksum),
{
}

/// A body that is exactly as long as its own header says, behind a valid
/// version and direction byte.
pub open spec fn well_framed(body: Seq<u8>) -> bool {
    &&& body.len() >= 2
    &&& MspVersion::of_byte(body[0]) matches Some(version)
    &&& MspDirection::of_byte(body[1]) is Some
    &&& body.len() >= fixed_header_len(version)
    &&& body.len() == total_len(body)
}

/// The outcome that a well-framed body ends in.
pub open spec fn verdict(body: Seq<u8>) -> Outcome {
    if body.last() == expected_checksum(body) {
        Ok(frame_of(body))
    } else {
        Err(MspError::CrcMismatch)
    }
}

/// Every proper prefix of a well-framed body asks for more bytes.
pub proof fn lemma_prefix_needs_more(body: Seq<u8>, k: int)
    requires
        well_framed(body),
        1 <= k < body.len(),
    ensures
        classify(body.take(k)) is More,
{
    let prefix = body.take(k);
    assert(prefix[0] == body[0]);
    if k >= 2 {
        assert(prefix[1] == body[1]);
    }
    if k >= 4 {
        assert(prefix[3] == body[3]);
    }
    if k >= 6 {
        assert(prefix[4] == body[4]);
        assert(prefix[5] == body[5]);
    }
    if k >= 7 {
        assert(prefix[6] == body[6]);
    }
}

/// A well-framed body, as its last byte arrives, is judged by its checksum.
pub proof fn lemma_whole_is_judged(body: Seq<u8>)
    requires
        well_framed(body),
    ensures
        classify(body) == match verdict(body) {
            Ok(frame) => Progress::Done(frame),
            Err(e) => Progress::Failed(e),
        },
{
}

/// Feeding `$` and then the first `k` bytes of a well-framed body leaves the
/// parser holding exactly those bytes, with no outcome so far.
pub proof fn lemma_run_into_body(body: Seq<u8>, k: int)
    requires
        well_framed(body),
        0 <= k < body.len(),
    ensures
        run(None, seq![FRAME_START] + body.take(k)) == (Some(body.take(k)), Seq::<Outcome>::empty()),
    decreases k,
{
    let input = seq![FRAME_START] + body.take(k);
    if k == 0 {
        assert(input.drop_last() =~= Seq::<u8>::empty());
        assert(body.take(0) =~= Seq::<u8>::empty());
        assert(run(None, input.drop_last()) == (None::<Seq<u8>>, Seq::<Outcome>::empty()));
    } else {
        lemma_run_into_body(body, k - 1);
        assert(input.drop_last() =~= seq![FRAME_START] + body.take(k - 1));
        assert(input.last() == body[k - 1]);
        assert(body.take(k - 1).push(body[k - 1]) =~= body.take(k));
        lemma_prefix_needs_more(body, k);
    }
}

/// From hunting, `$` followed by a well-framed body yields exactly one
/// outcome, the verdict on the body, and leaves the parser hunting.
pub proof fn lemma_run_well_framed(body: Seq<u8>)
    requires
        well_framed(body),
    ensures
        run(None, seq![FRAME_START] + body) == (None::<Seq<u8>>, seq![verdict(body)]),
{
    let input = seq![FRAME_START] + body;
    let k = body.len() - 1;
    lemma_run_into_body(body, k);
    assert(input.drop_last() =~= seq![FRAME_START] + body.take(k));
    assert(input.last() == body.last());
    assert(body.take(k).push(body.last()) =~= body);
    lemma_whole_is_judged(body);
    assert(run(None, input).1 =~= seq![verdict(body)]);
}

/// Chunking does not matter: running over `a` and then over `b` from where
/// `a` ended gives the state and the outcomes of running over `a + b`.
pub proof fn lemma_run_split(state: ParserView, a: Seq<u8>, b: Seq<u8>)
    ensures
        run(state, a + b).0 == run(run(state, a).0, b).0,
        run(state, a + b).1 == run(state, a).1 + run(run(state, a).0, b).1,
    decreases b.len(),
{
    if b.len() == 0 {
        assert(a + b =~= a);
        assert(run(state, a).1 + Seq::<Outcome>::empty() =~= run(state, a).1);
    } else {
        lemma_run_split(state, a, b.drop_last());
        assert((a + b).drop_last() =~= a + b.drop_last());
        assert((a + b).last() == b.last());
        let mid = run(state, a);
        let before = run(mid.0, b.drop_last());
        let after = step(before.0, b.last());
        match after.1 {
            Some(outcome) => {
                assert(mid.1 + before.1.push(outcome) =~= (mid.1 + before.1).push(outcome));
            },
            None => {},
        }
    }
}

/// Bytes without `$` leave a hunting parser hunting and yield nothing.
pub proof fn lemma_run_noise(noise: Seq<u8>)
    requires
        forall|i: int| 0 <= i < noise.len() ==> noise[i] != FRAME_START,
    ensures
        run(None, noise) == (None::<Seq<u8>>, Seq::<Outcome>::empty()),
    decreases noise.len(),
{
    if noise.len() > 0 {
        lemma_run_noise(noise.drop_last());
    }
}

/// The body of an encoded frame: everything behind `$`.
pub open spec fn body_of(frame: FrameView) -> Seq<u8> {
    frame.bytes().skip(1)
}

/// The header bytes of the body of an encoded frame.
proof fn lemma_encoded_header(frame: FrameView)
    requires
        frame.wf(),
    ensures
        frame.bytes() == seq![FRAME_START] + body_of(frame),
        body_of(frame).len() >= 5,
        body_of(frame)[0] == frame.version.byte(),
        body_of(frame)[1] == frame.direction.byte(),
        body_of(frame).last() == frame.checksum(),
        frame.version == MspVersion::V1 ==> {
            &&& body_of(frame)[2] == frame.function
            &&& frame.payload.len() < 255 ==> body_of(frame)[3] == frame.payload.len()
            &&& frame.payload.len() >= 255 ==> {
                &&& body_of(frame)[3] == 255
                &&& body_of(frame)[4] == frame.payload.len() % 256
                &&& body_of(frame)[5] == frame.payload.len() / 256
            }
            &&& body_of(frame) == body_of(frame).subrange(0, 3) + frame.covered().push(
                frame.checksum(),
            )
        },
        frame.version == MspVersion::V2 ==> {
            &&& body_of(frame)[2] == frame.canonical().flag->0
            &&& body_of(frame)[3] == frame.function % 256
            &&& body_of(frame)[4] == frame.function / 256
            &&& body_of(frame)[5] == frame.payload.len() % 256
            &&& body_of(frame)[6] == frame.payload.len() / 256
            &&& body_of(frame) == body_of(frame).subrange(0, 2) + frame.covered().push(
                frame.checksum(),
            )
        },
{
    let wire = frame.bytes();
    let body = body_of(frame);
    assert(wire =~= seq![FRAME_START] + body);
    match frame.version {
        MspVersion::V1 => {
            assert(frame.preamble().len() == 4);
            assert(body =~= body.subrange(0, 3) + frame.covered().push(frame.checksum()));
        },
        MspVersion::V2 => {
            assert(frame.preamble().len() == 3);
            assert(body =~= body.subrange(0, 2) + frame.covered().push(frame.checksum()));
        },
    }
}

/// How an encoded frame looks to the parser: `$` and a well-framed body
/// whose covered bytes, checksum and contents are those of the frame.
#[verifier::rlimit(30)]
pub proof fn lemma_encoded_body(frame: FrameView)
    requires
        frame.wf(),
    ensures
        frame.bytes() == seq![FRAME_START] + body_of(frame),
        well_framed(body_of(frame)),
        covered_of(body_of(frame)) == frame.covered(),
        body_of(frame).last() == frame.checksum(),
        expected_checksum(body_of(frame)) == frame.checksum(),
        frame_of(body_of(frame)) == frame.canonical(),
        header_len(body_of(frame)) + frame.payload.len() + 1 == body_of(frame).len(),
{
    let body = body_of(frame);
    let len = frame.payload.len();
    lemma_encoded_header(frame);
    frame.version.lemma_byte_bijective();
    frame.direction.lemma_byte_bijective();
    match frame.version {
        MspVersion::V1 => {
            assert(header_len(body) + len + 1 == body.len());
            assert(payload_len(body) == len);
            assert(covered_of(body) =~= frame.covered());
            assert(frame_of(body).payload =~= frame.payload);
        },
        MspVersion::V2 => {
            assert(header_len(body) + len + 1 == body.len());
            assert(payload_len(body) == len);
            assert(covered_of(body) =~= frame.covered());
            assert(frame_of(body).payload =~= frame.payload);
        },
    }
    assert(frame_of(body) =~= frame.canonical());
}

/// Frame round trip. Parsing the bytes of a well-formed frame yields that
/// frame once, in its canonical form, and nothing else; the parser hunts
/// again afterwards.
pub proof fn lemma_frame_round_trip(frame: FrameView)
    requires
        frame.wf(),
    ensures
        run(None, frame.bytes()) == (None::<Seq<u8>>, seq![Ok::<FrameView, MspError>(frame.canonical())]),
        decode_spec(frame.bytes()) == Ok::<FrameView, MspError>(frame.canonical()),
        frame.version == MspVersion::V2 && frame.flag is Some ==> frame.canonical() == frame,
        frame.version == MspVersion::V1 ==> frame.canonical() == frame,
{
    lemma_encoded_body(frame);
    lemma_run_well_framed(body_of(frame));
}

/// Resynchronization. Whatever was fed before, if it left the parser
/// hunting, the bytes of a well-formed frame then yield that frame and
/// nothing else. The outcomes are those of the earlier bytes followed by the
/// frame.
pub proof fn lemma_resynchronizes(before: Seq<u8>, frame: FrameView)
    requires
        frame.wf(),
        run(None, before).0 is None,
    ensures
        run(None, before + frame.bytes()).0 is None,
        run(None, before + frame.bytes()).1 == run(None, before).1.push(
            Ok::<FrameView, MspError>(frame.canonical()),
        ),
{
    lemma_frame_round_trip(frame);
    lemma_run_split(None, before, frame.bytes());
    assert(run(None, before).1 + seq![Ok::<FrameView, MspError>(frame.canonical())]
        =~= run(None, before).1.push(Ok::<FrameView, MspError>(frame.canonical())));
}

/// Noise is skipped. Bytes without `$` in front of a well-formed frame
/// yield nothing: the parser yields exactly the frame and hunts again. Any
/// bytes behind the frame do not change what is decoded.
pub proof fn lemma_decode_skips_noise(noise: Seq<u8>, frame: FrameView, rest: Seq<u8>)
    requires
        frame.wf(),
        forall|i: int| 0 <= i < noise.len() ==> noise[i] != FRAME_START,
    ensures
        run(None, noise + frame.bytes()) == (
            None::<Seq<u8>>,
            seq![Ok::<FrameView, MspError>(frame.canonical())],
        ),
        decode_spec(noise + frame.bytes() + rest) == Ok::<FrameView, MspError>(frame.canonical()),
{
    lemma_run_noise(noise);
    lemma_resynchronizes(noise, frame);
    lemma_run_split(None, noise + frame.bytes(), rest);
    assert(run(None, noise + frame.bytes()).1 =~= seq![
        Ok::<FrameView, MspError>(frame.canonical()),
    ]);
}

/// The positions of an encoded frame that its checksum guards without the
/// framing depending on them: flag, function and payload in MSPv2, the
/// payload in MSPv1, and the checksum byte itself. Position 0 is `$`.
pub open spec fn guarded(frame: FrameView, at: int) -> bool {
    match frame.version {
        MspVersion::V1 => 1 + header_len(body_of(frame)) <= at < frame.bytes().len(),
        MspVersion::V2 => 3 <= at < 6 || 8 <= at < frame.bytes().len(),
    }
}

/// The positions of a body that its checksum guards without the framing
/// depending on them.
pub open spec fn guarded_in_body(body: Seq<u8>, at: int) -> bool {
    if MspVersion::of_byte(body[0]) == Some(MspVersion::V1) {
        header_len(body) <= at < body.len()
    } else {
        2 <= at < 5 || 7 <= at < body.len()
    }
}

/// Changing one guarded byte of a well-framed body leaves it well framed
/// and changes exactly one of the bytes that the checksum covers, unless
/// the byte is the checksum itself.
proof fn lemma_changed_body(body: Seq<u8>, at: int, byte: u8)
    requires
        well_framed(body),
        guarded_in_body(body, at),
        byte != body[at],
    ensures
        well_framed(body.update(at, byte)),
        total_len(body.update(at, byte)) == total_len(body),
        at == body.len() - 1 ==> covered_of(body.update(at, byte)) == covered_of(body),
        at < body.len() - 1 ==> body.update(at, byte).last() == body.last() && exists|k: int|
            crate::checksum::differ_at(covered_of(body), covered_of(body.update(at, byte)), k),
{
    let bad = body.update(at, byte);
    assert(bad[0] == body[0]);
    assert(bad[1] == body[1]);
    let v1 = MspVersion::of_byte(body[0]) == Some(MspVersion::V1);
    if v1 {
        assert(bad[3] == body[3]);
        if body[3] == 255 {
            assert(bad[4] == body[4]);
            assert(bad[5] == body[5]);
        }
    } else {
        assert(bad[5] == body[5]);
        assert(bad[6] == body[6]);
    }
    assert(header_len(bad) == header_len(body));
    assert(payload_len(bad) == payload_len(body));
    let start: int = if v1 {
        3
    } else {
        2
    };
    let end = total_len(body) - 1;
    if at == body.len() - 1 {
        assert(covered_of(bad) =~= covered_of(body));
    } else {
        let k = at - start;
        assert(covered_of(body) == body.subrange(start, end));
        assert(covered_of(bad) == bad.subrange(start, end));
        assert(covered_of(bad).len() == covered_of(body).len());
        assert(covered_of(body)[k] == body[at]);
        assert(covered_of(bad)[k] == byte);
        assert forall|i: int| 0 <= i < covered_of(body).len() && i != k implies covered_of(body)[i]
            == covered_of(bad)[i] by {
            assert(covered_of(body)[i] == body[start + i]);
            assert(covered_of(bad)[i] == bad[start + i]);
        }
        assert(crate::checksum::differ_at(covered_of(body), covered_of(bad), k));
    }
}

/// A well-framed body with a matching checksum is refused with
/// `CrcMismatch` once one of its guarded bytes is changed.
proof fn lemma_changed_body_is_refused(body: Seq<u8>, at: int, byte: u8)
    requires
        well_framed(body),
        body.last() == expected_checksum(body),
        guarded_in_body(body, at),
        byte != body[at],
    ensures
        well_framed(body.update(at, byte)),
        verdict(body.update(at, byte)) == Err::<FrameView, MspError>(MspError::CrcMismatch),
{
    let bad = body.update(at, byte);
    lemma_changed_body(body, at, byte);
    assert(bad[0] == body[0]);
    if at < body.len() - 1 {
        let k = choose|k: int|
            crate::checksum::differ_at(covered_of(body), covered_of(body.update(at, byte)), k);
        crate::checksum::lemma_xor_detects_byte(covered_of(body), covered_of(bad), k);
        crate::checksum::lemma_crc8_detects_byte(covered_of(body), covered_of(bad), k);
    }
}

/// Corruption is detected. Changing one guarded byte of an encoded frame
/// makes the parser refuse the frame with `CrcMismatch`, and yield nothing
/// else.
pub proof fn lemma_corruption_detected(frame: FrameView, at: int, byte: u8)
    requires
        frame.wf(),
        guarded(frame, at),
        byte != frame.bytes()[at],
    ensures
        run(None, frame.bytes().update(at, byte)) == (
            None::<Seq<u8>>,
            seq![Err::<FrameView, MspError>(MspError::CrcMismatch)],
        ),
        decode_spec(frame.bytes().update(at, byte)) == Err::<FrameView, MspError>(
            MspError::CrcMismatch,
        ),
{
    lemma_encoded_body(frame);
    let body = body_of(frame);
    let bad = body.update(at - 1, byte);
    frame.version.lemma_byte_bijective();
    assert(body[0] == frame.version.byte()) by {
        assert(body[0] == frame.bytes()[1]);
    }
    assert(body[at - 1] == frame.bytes()[at]);
    assert(guarded_in_body(body, at - 1));
    lemma_changed_body_is_refused(body, at - 1, byte);
    assert(frame.bytes().update(at, byte) =~= seq![FRAME_START] + bad);
    lemma_run_well_framed(bad);
}

/// A flipped bit is detected. Flipping any single bit of a guarded byte of
/// an encoded frame makes decoding fail with `CrcMismatch`.
pub proof fn lemma_bit_flip_detected(frame: FrameView, at: int, bit: u8)
    requires
        frame.wf(),
        guarded(frame, at),
        bit < 8,
    ensures
        decode_spec(frame.bytes().update(at, frame.bytes()[at] ^ (1u8 << bit))) == Err::<
            FrameView,
            MspError,
        >(MspError::CrcMismatch),
{
    crate::checksum::lemma_bit_flip_changes(frame.bytes()[at], bit);
    lemma_corruption_detected(frame, at, frame.bytes()[at] ^ (1u8 << bit));
}

} // verus!
