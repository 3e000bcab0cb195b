//! MSP frames: direction and version markers, the wire layout of MSPv1 and
//! MSPv2 frames, and typed messages over a payload schema.

use vstd::prelude::*;
use vstd::slice::slice_subrange;
use vstd::std_specs::convert::FromSpecImpl;
use vstd::std_specs::convert::TryFromSpecImpl;

verus! {

/// Start-of-frame marker, ASCII `$`.
pub const FRAME_START: u8 = 0x24;

/// Why a byte stream or a payload was not accepted.
#[derive(Clone, Copy, Debug, PartialEq, Eq, Structural)]
pub enum MspError {
    /// The byte after `$` is neither `M` nor `X`.
    UnknownVersion,
    /// The direction byte is none of `<`, `>`, `!`.
    UnknownDirection,
    /// The trailing checksum byte does not match the received bytes.
    CrcMismatch,
    /// The payload length differs from the size of the schema.
    PayloadLengthMismatch,
    /// The function id belongs to no schema that was asked for.
    UnknownFunction,
    /// The input ended before a frame was complete.
    UnexpectedEof,
}

impl MspError {
    /// The text that describes the error.
    pub open spec fn text(self) -> Seq<char> {
        match self {
            MspError::UnknownVersion => "unknown msp version"@,
            MspError::UnknownDirection => "unknown Msp direction"@,
            MspError::CrcMismatch => "wrong Msp checksum"@,
            MspError::PayloadLengthMismatch => "MSP payload of unexpected length"@,
            MspError::UnknownFunction => "unknown Msp function"@,
            MspError::UnexpectedEof => "input ended inside an MSP frame"@,
        }
    }

    /// Describes the error in words.
    pub fn message(&self) -> (text: &'static str)
        ensures
            text@ == self.text(),
    {
        match self {
            MspError::UnknownVersion => "unknown msp version",
            MspError::UnknownDirection => "unknown Msp direction",
            MspError::CrcMismatch => "wrong Msp checksum",
            MspError::PayloadLengthMismatch => "MSP payload of unexpected length",
            MspError::UnknownFunction => "unknown Msp function",
            MspError::UnexpectedEof => "input ended inside an MSP frame",
        }
    }
}

/// Who sent a frame.
///
/// `Request` is master to slave (`<`), `Response` is slave to master (`>`),
/// `Error` may travel either way (`!`).
#[derive(Clone, Copy, Debug, PartialEq, Eq, Structural)]
pub enum MspDirection {
    Request,
    Response,
    Error,
}

impl MspDirection {
    /// The ASCII byte that stands for this direction on the wire.
    pub open spec fn byte(self) -> u8 {
        match self {
            MspDirection::Request => 0x3c,
            MspDirection::Response => 0x3e,
            MspDirection::Error => 0x21,
        }
    }

    /// The direction that a wire byte stands for, if any.
    pub open spec fn of_byte(byte: u8) -> Option<MspDirection> {
        if byte == 0x3c {
            Some(MspDirection::Request)
        } else if byte == 0x3e {
            Some(MspDirection::Response)
        } else if byte == 0x21 {
            Some(MspDirection::Error)
        } else {
            None
        }
    }

    /// Every direction is found again from its byte.
    pub proof fn lemma_byte_bijective(self)
        ensures
            MspDirection::of_byte(self.byte()) == Some(self),
    {
    }

    /// A byte that stands for a direction is the byte of that direction.
    pub proof fn lemma_of_byte_exact(byte: u8)
        ensures
            MspDirection::of_byte(byte) matches Some(d) ==> d.byte() == byte,
    {
    }
}

impl From<&MspDirection> for u8 {
    fn from(d: &MspDirection) -> (b: u8)
        ensures
            b == d.byte(),
    {
        match d {
            MspDirection::Request => 0x3c,
            MspDirection::Response => 0x3e,
            MspDirection::Error => 0x21,
        }
    }
}

impl FromSpecImpl<&MspDirection> for u8 {
    open spec fn obeys_from_spec() -> bool {
        true
    }

    open spec fn from_spec(d: &MspDirection) -> u8 {
        d.byte()
    }
}

impl TryFrom<u8> for MspDirection {
    type Error = MspError;

    fn try_from(byte: u8) -> (r: Result<MspDirection, MspError>)
        ensures
            r == match MspDirection::of_byte(byte) {
                Some(d) => Ok::<MspDirection, MspError>(d),
                None => Err::<MspDirection, MspError>(MspError::UnknownDirection),
            },
    {
        if byte == 0x3c {
            Ok(MspDirection::Request)
        } else if byte == 0x3e {
            Ok(MspDirection::Response)
        } else if byte == 0x21 {
            Ok(MspDirection::Error)
        } else {
            Err(MspError::UnknownDirection)
        }
    }
}

impl TryFromSpecImpl<u8> for MspDirection {
    open spec fn obeys_try_from_spec() -> bool {
        true
    }

    open spec fn try_from_spec(byte: u8) -> Result<MspDirection, MspError> {
        match MspDirection::of_byte(byte) {
            Some(d) => Ok(d),
            None => Err(MspError::UnknownDirection),
        }
    }
}

/// Protocol version of a frame: `V1` is marked `M`, `V2` is marked `X`.
#[derive(Clone, Copy, Debug, PartialEq, Eq, Structural)]
pub enum MspVersion {
    V1,
    V2,
}

impl MspVersion {
    /// The ASCII byte that stands for this version on the wire.
    pub open spec fn byte(self) -> u8 {
        match self {
            MspVersion::V1 => 0x4d,
            MspVersion::V2 => 0x58,
        }
    }

    /// The version that a wire byte stands for, if any.
    pub open spec fn of_byte(byte: u8) -> Option<MspVersion> {
        if byte == 0x4d {
            Some(MspVersion::V1)
        } else if byte == 0x58 {
            Some(MspVersion::V2)
        } else {
            None
        }
    }

    /// Every version is found again from its byte.
    pub proof fn lemma_byte_bijective(self)
        ensures
            MspVersion::of_byte(self.byte()) == Some(self),
    {
    }

    /// A byte that stands for a version is the byte of that version.
    pub proof fn lemma_of_byte_exact(byte: u8)
        ensures
            MspVersion::of_byte(byte) matches Some(v) ==> v.byte() == byte,
    {
    }
}

impl From<&MspVersion> for u8 {
    fn from(v: &MspVersion) -> (b: u8)
        ensures
            b == v.byte(),
    {
        match v {
            MspVersion::V1 => 0x4d,
            MspVersion::V2 => 0x58,
        }
    }
}

impl FromSpecImpl<&MspVersion> for u8 {
    open spec fn obeys_from_spec() -> bool {
        true
    }

    open spec fn from_spec(v: &MspVersion) -> u8 {
        v.byte()
    }
}

impl TryFrom<u8> for MspVersion {
    type Error = MspError;

    fn try_from(byte: u8) -> (r: Result<MspVersion, MspError>)
        ensures
            r == match MspVersion::of_byte(byte) {
                Some(v) => Ok::<MspVersion, MspError>(v),
                None => Err::<MspVersion, MspError>(MspError::UnknownVersion),
            },
    {
        if byte == 0x4d {
            Ok(MspVersion::V1)
        } else if byte == 0x58 {
            Ok(MspVersion::V2)
        } else {
            Err(MspError::UnknownVersion)
        }
    }
}

impl TryFromSpecImpl<u8> for MspVersion {
    open spec fn obeys_try_from_spec() -> bool {
        true
    }

    open spec fn try_from_spec(byte: u8) -> Result<MspVersion, MspError> {
        match MspVersion::of_byte(byte) {
            Some(v) => Ok(v),
            None => Err(MspError::UnknownVersion),
        }
    }
}

/// What a frame says: the model of [`MspFrame`], with the payload as a
/// sequence of bytes.
#[verifier::ext_equal]
pub struct FrameView {
    pub version: MspVersion,
    pub direction: MspDirection,
    pub flag: Option<u8>,
    pub function: u16,
    pub payload: Seq<u8>,
}

impl FrameView {
    /// A frame that the wire format can carry and give back: the payload
    /// fits the 16-bit length field, and an MSPv1 frame has no flag and a
    /// function id of one byte.
    pub open spec fn wf(self) -> bool {
        &&& self.payload.len() <= 0xFFFF
        &&& self.version == MspVersion::V1 ==> self.flag is None && self.function <= 0xFF
    }

    /// The frame as a receiver sees it: an MSPv2 frame always carries a flag
    /// byte, zero where the sender named none.
    pub open spec fn canonical(self) -> FrameView {
        FrameView {
            flag: match self.version {
                MspVersion::V1 => None,
                MspVersion::V2 => Some(
                    match self.flag {
                        Some(f) => f,
                        None => 0u8,
                    },
                ),
            },
            ..self
        }
    }

    /// The bytes that start the frame and that no checksum covers: `$`, the
    /// version, the direction and, in MSPv1, the function id.
    pub open spec fn preamble(self) -> Seq<u8> {
        match self.version {
            MspVersion::V1 => seq![
                FRAME_START,
                self.version.byte(),
                self.direction.byte(),
                (self.function % 256) as u8,
            ],
            MspVersion::V2 => seq![FRAME_START, self.version.byte(), self.direction.byte()],
        }
    }

    /// The MSPv1 length field: one byte, or 255 followed by the length as a
    /// little-endian `u16` (a jumbo frame) when the payload has 255 bytes or
    /// more.
    pub open spec fn v1_length_field(len: nat) -> Seq<u8> {
        if len < 255 {
            seq![len as u8]
        } else {
            seq![255u8, (len % 256) as u8, (len / 256) as u8]
        }
    }

    /// The bytes that the checksum covers. MSPv2: flag, function and length
    /// (both little-endian) and the payload. MSPv1: the length field and the
    /// payload.
    pub open spec fn covered(self) -> Seq<u8> {
        match self.version {
            MspVersion::V1 => FrameView::v1_length_field(self.payload.len()) + self.payload,
            MspVersion::V2 => seq![
                match self.flag {
                    Some(f) => f,
                    None => 0u8,
                },
                (self.function % 256) as u8,
                (self.function / 256) as u8,
                (self.payload.len() % 256) as u8,
                (self.payload.len() / 256) as u8,
            ] + self.payload,
        }
    }

    /// The checksum byte: CRC-8/DVB-S2 of the covered bytes in MSPv2, their
    /// XOR in MSPv1.
    pub open spec fn checksum(self) -> u8 {
        match self.version {
            MspVersion::V1 => crate::checksum::xor_sum(self.covered()),
            MspVersion::V2 => crate::checksum::crc8_dvb_s2(self.covered()),
        }
    }

    /// The frame on the wire without its checksum byte.
    pub open spec fn unchecked_bytes(self) -> Seq<u8> {
        self.preamble() + self.covered()
    }

    /// The frame on the wire.
    pub open spec fn bytes(self) -> Seq<u8> {
        self.unchecked_bytes().push(self.checksum())
    }
}

/// One MSP frame with its payload as raw bytes.
///
/// The flag is meaningful in MSPv2 only; an MSPv1 frame uses the low eight
/// bits of `function`.
#[derive(Clone, Debug, PartialEq, Eq)]
pub struct MspFrame {
    pub version: MspVersion,
    pub direction: MspDirection,
    pub flag: Option<u8>,
    pub function: u16,
    pub payload: Vec<u8>,
}

impl View for MspFrame {
    type V = FrameView;

    open spec fn view(&self) -> FrameView {
        FrameView {
            version: self.version,
            direction: self.direction,
            flag: self.flag,
            function: self.function,
            payload: self.payload@,
        }
    }
}

impl MspFrame {
    /// Serializes the frame without its checksum byte.
    pub fn ser(&self) -> (bytes: Vec<u8>)
        requires
            self.payload@.len() <= 0xFFFF,
        ensures
            bytes@ == self@.unchecked_bytes(),
    {
        let mut buf: Vec<u8> = Vec::new();
        let len: usize = self.payload.len();
        buf.push(FRAME_START);
        buf.push(u8::from(&self.version));
        buf.push(u8::from(&self.direction));
        match self.version {
            MspVersion::V1 => {
                buf.push((self.function % 256) as u8);
                if len < 255 {
                    buf.push(len as u8);
                } else {
                    buf.push(255u8);
                    buf.push((len % 256) as u8);
                    buf.push((len / 256) as u8);
                }
            },
            MspVersion::V2 => {
                let flag: u8 = match self.flag {
                    Some(f) => f,
                    None => 0u8,
                };
                buf.push(flag);
                buf.push((self.function % 256) as u8);
                buf.push((self.function / 256) as u8);
                buf.push((len % 256) as u8);
                buf.push((len / 256) as u8);
            },
        }
        let ghost head = buf@;
        assert(head =~= self@.preamble() + self@.covered().take(self@.covered().len()
            - self.payload@.len()));
        let mut i: usize = 0;
        while i < len
            invariant
                i <= len,
                len == self.payload@.len(),
                buf@ == head + self.payload@.take(i as int),
            decreases len - i,
        {
            buf.push(self.payload[i]);
            assert(buf@ =~= head + self.payload@.take(i + 1));
            i = i + 1;
        }
        assert(buf@ =~= self@.unchecked_bytes());
        buf
    }

    /// Computes the checksum byte of the frame.
    pub fn checksum(&self) -> (sum: u8)
        requires
            self.payload@.len() <= 0xFFFF,
        ensures
            sum == self@.checksum(),
    {
        let buf = self.ser();
        match self.version {
            MspVersion::V1 => {
                assert(buf@.subrange(4, buf@.len() as int) =~= self@.covered());
                crate::checksum::xor_checksum(slice_subrange(buf.as_slice(), 4, buf.len()))
            },
            MspVersion::V2 => {
                assert(buf@.subrange(3, buf@.len() as int) =~= self@.covered());
                crate::checksum::crc8_dvb_s2_digest(slice_subrange(buf.as_slice(), 3, buf.len()))
            },
        }
    }

    /// Serializes the frame with its checksum byte.
    pub fn encode(&self) -> (bytes: Vec<u8>)
        requires
            self.payload@.len() <= 0xFFFF,
        ensures
            bytes@ == self@.bytes(),
    {
        let mut buf = self.ser();
        let sum = self.checksum();
        buf.push(sum);
        buf
    }
}

/// A payload schema: a fixed little-endian layout under a function id.
///
/// An implementation describes its layout by `wire` and `parse` and proves
/// that the two are inverse to each other on images of `SIZE` bytes. The
/// constants `ID` and `SIZE` are for compiled code; contracts speak of them
/// as `function()` and `size()`.
pub trait MspPayload: Sized {
    /// The function id under which the payload travels.
    const ID: u16;

    /// The number of bytes of every wire image.
    const SIZE: usize;

    /// The function id, for contracts.
    spec fn function() -> u16;

    /// The number of bytes of every wire image, for contracts.
    spec fn size() -> nat;

    /// The wire image of a value: its fields in declaration order, each
    /// little-endian, without padding.
    spec fn wire(&self) -> Seq<u8>;

    /// The value that a wire image holds.
    spec fn parse(bytes: Seq<u8>) -> Self;

    /// The constants are what the contracts say they are.
    proof fn lemma_constants()
        ensures
            Self::ID == Self::function(),
            Self::SIZE == Self::size(),
    ;

    /// Every wire image has `size()` bytes.
    proof fn lemma_wire_len(&self)
        ensures
            self.wire().len() == Self::size(),
    ;

    /// A value is read back from its wire image.
    proof fn lemma_parse_wire(&self)
        ensures
            Self::parse(self.wire()) == *self,
    ;

    /// `size()` bytes are the wire image of the value read from them.
    proof fn lemma_wire_parse(bytes: Seq<u8>)
        requires
            bytes.len() == Self::size(),
        ensures
            Self::parse(bytes).wire() == bytes,
    ;

    /// Reads a value from exactly `SIZE` bytes.
    fn decode(bytes: &[u8]) -> (decoded: Result<Self, MspError>)
        ensures
            bytes@.len() == Self::size() ==> decoded == Ok::<Self, MspError>(Self::parse(bytes@)),
            bytes@.len() != Self::size() ==> decoded == Err::<Self, MspError>(
                MspError::PayloadLengthMismatch,
            ),
    ;

    /// Writes the wire image of a value.
    fn encode(&self) -> (bytes: Vec<u8>)
        ensures
            bytes@ == self.wire(),
    ;
}

/// One MSP frame with a typed payload.
///
/// A flag may only be `Some(_)` if `version == MspVersion::V2`.
#[derive(Clone, Debug, PartialEq)]
pub struct MspMessage<P: MspPayload> {
    pub version: MspVersion,
    pub direction: MspDirection,
    pub flag: Option<u8>,
    pub function: u16,
    pub payload: Option<P>,
}

impl<P: MspPayload> MspMessage<P> {
    /// The frame that carries this message: the payload bytes are the wire
    /// image of the payload, and none where there is no payload.
    pub open spec fn frame(&self) -> FrameView {
        FrameView {
            version: self.version,
            direction: self.direction,
            flag: self.flag,
            function: self.function,
            payload: match self.payload {
                Some(p) => p.wire(),
                None => Seq::<u8>::empty(),
            },
        }
    }

    /// Whether the message fits a frame: a payload must fit the 16-bit
    /// length field.
    pub open spec fn fits(&self) -> bool {
        self.payload is Some ==> P::size() <= 0xFFFF
    }

    /// A message that the wire format can carry and give back: an MSPv1
    /// message has no flag and a function id of one byte, and a payload has
    /// at least one byte, fits the length field and travels under the
    /// function id of its schema.
    pub open spec fn wf(&self) -> bool {
        &&& self.version == MspVersion::V1 ==> self.flag is None && self.function <= 0xFF
        &&& self.payload is Some ==> self.function == P::function() && 0 < P::size() <= 0xFFFF
    }

    /// The message as a receiver sees it: an MSPv2 message always carries a
    /// flag, zero where the sender named none.
    pub open spec fn canonical(&self) -> MspMessage<P> {
        MspMessage {
            version: self.version,
            direction: self.direction,
            flag: self.frame().canonical().flag,
            function: self.function,
            payload: self.payload,
        }
    }

    /// The typed message that a frame holds. A frame without payload bytes
    /// holds a message without payload. Otherwise the frame must carry the
    /// function id of the schema (`UnknownFunction` if not) and exactly
    /// `SIZE` payload bytes (`PayloadLengthMismatch` if not).
    pub open spec fn typed(frame: FrameView) -> Result<MspMessage<P>, MspError> {
        if frame.payload.len() == 0 {
            Ok(
                MspMessage {
                    version: frame.version,
                    direction: frame.direction,
                    flag: frame.flag,
                    function: frame.function,
                    payload: None,
                },
            )
        } else if frame.function != P::function() {
            Err(MspError::UnknownFunction)
        } else if frame.payload.len() != P::size() {
            Err(MspError::PayloadLengthMismatch)
        } else {
            Ok(
                MspMessage {
                    version: frame.version,
                    direction: frame.direction,
                    flag: frame.flag,
                    function: frame.function,
                    payload: Some(P::parse(frame.payload)),
                },
            )
        }
    }

    /// What decoding a buffer yields: the first outcome of the parser, read
    /// as a typed message.
    pub open spec fn decode_spec(bytes: Seq<u8>) -> Result<MspMessage<P>, MspError> {
        match crate::parser::decode_spec(bytes) {
            Ok(frame) => Self::typed(frame),
            Err(e) => Err(e),
        }
    }

    /// The frame with the payload as raw bytes.
    pub fn to_frame(&self) -> (frame: MspFrame)
        ensures
            frame@ == self.frame(),
            self.fits() ==> frame@.payload.len() <= 0xFFFF,
    {
        let payload = match &self.payload {
            Some(p) => {
                proof {
                    p.lemma_wire_len();
                }
                p.encode()
            },
            None => Vec::new(),
        };
        let frame = MspFrame {
            version: self.version,
            direction: self.direction,
            flag: self.flag,
            function: self.function,
            payload,
        };
        assert(frame@ =~= self.frame());
        frame
    }

    /// Reads a raw frame as a typed message.
    pub fn from_frame(frame: &MspFrame) -> (message: Result<MspMessage<P>, MspError>)
        ensures
            message == Self::typed(frame@),
    {
        proof {
            P::lemma_constants();
        }
        let payload = if frame.payload.len() == 0 {
            None
        } else if frame.function != P::ID {
            return Err(MspError::UnknownFunction);
        } else {
            match P::decode(frame.payload.as_slice()) {
                Ok(p) => Some(p),
                Err(e) => {
                    return Err(e);
                },
            }
        };
        Ok(
            MspMessage {
                version: frame.version,
                direction: frame.direction,
                flag: frame.flag,
                function: frame.function,
                payload,
            },
        )
    }

    /// Serializes the message without its checksum byte.
    pub fn ser(&self) -> (bytes: Vec<u8>)
        requires
            self.fits(),
        ensures
            bytes@ == self.frame().unchecked_bytes(),
    {
        self.to_frame().ser()
    }

    /// Computes the checksum byte of the message.
    pub fn checksum(&self) -> (sum: u8)
        requires
            self.fits(),
        ensures
            sum == self.frame().checksum(),
    {
        self.to_frame().checksum()
    }

    /// Encodes the message to the bytes that go on the wire.
    pub fn encode(&self) -> (bytes: Vec<u8>)
        requires
            self.fits(),
        ensures
            bytes@ == self.frame().bytes(),
    {
        self.to_frame().encode()
    }

    /// Decodes the first frame of a buffer as a typed message.
    pub fn decode(bytes: &[u8]) -> (message: Result<MspMessage<P>, MspError>)
        ensures
            message == Self::decode_spec(bytes@),
    {
        match MspFrame::decode(bytes) {
            Ok(frame) => Self::from_frame(&frame),
            Err(e) => Err(e),
        }
    }

    /// What fetching a payload from a reply yields: the payload of the
    /// decoded message; a reply without payload falls short of the schema
    /// and gives `PayloadLengthMismatch`.
    pub open spec fn fetch_spec(reply: Seq<u8>) -> Result<P, MspError> {
        match Self::decode_spec(reply) {
            Ok(message) => match message.payload {
                Some(p) => Ok(p),
                None => Err(MspError::PayloadLengthMismatch),
            },
            Err(e) => Err(e),
        }
    }

    /// The message that asks a flight controller for a payload of this
    /// schema: an MSPv2 request under the function id of the schema, with
    /// neither flag nor payload.
    pub fn query() -> (message: MspMessage<P>)
        ensures
            message == (MspMessage::<P> {
                version: MspVersion::V2,
                direction: MspDirection::Request,
                flag: None,
                function: P::function(),
                payload: None,
            }),
    {
        proof {
            P::lemma_constants();
        }
        MspMessage {
            version: MspVersion::V2,
            direction: MspDirection::Request,
            flag: None,
            function: P::ID,
            payload: None,
        }
    }

    /// Fetches the payload from the bytes that answered [`Self::query`].
    pub fn fetch(reply: &[u8]) -> (payload: Result<P, MspError>)
        ensures
            payload == Self::fetch_spec(reply@),
    {
        match Self::decode(reply) {
            Ok(message) => match message.payload {
                Some(p) => Ok(p),
                None => Err(MspError::PayloadLengthMismatch),
            },
            Err(e) => Err(e),
        }
    }

    /// Message round trip. Decoding the bytes of a well-formed message
    /// yields the message in its canonical form.
    pub proof fn lemma_round_trip(&self)
        requires
            self.wf(),
        ensures
            Self::decode_spec(self.frame().bytes()) == Ok::<MspMessage<P>, MspError>(
                self.canonical(),
            ),
            self.version == MspVersion::V2 && self.flag is Some ==> self.canonical() == *self,
            self.version == MspVersion::V1 ==> self.canonical() == *self,
    {
        match self.payload {
            Some(p) => {
                p.lemma_wire_len();
                p.lemma_parse_wire();
            },
            None => {},
        }
        crate::parser::lemma_frame_round_trip(self.frame());
    }
}

} // verus!
