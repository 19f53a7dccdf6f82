//! Channels, records and the in-memory stream of an agent.
//!
//! An agent has two channels. What its peers send is appended to the
//! *inbound* channel, from which the agent's protocol engine reads; what the
//! engine writes goes to the *outbound* channel, from which the driver takes
//! it record by record. Two channels keep the agents apart: each one looks at
//! its own buffers only.

use crate::error::Error;
use crate::trace::{handshake_type_of, HandshakeType, TlsMessageType};
use rustls::internal::msgs::base::Payload;
use rustls::internal::msgs::codec::Reader;
use rustls::internal::msgs::enums::ContentType;
use rustls::internal::msgs::message::{Message as ParsedMessage, MessageError, MessagePayload};
use rustls::internal::msgs::message::{OpaqueMessage as WireMessage, PlainMessage};
use rustls::ProtocolVersion;
use vstd::prelude::*;

verus! {

pub const CHANGE_CIPHER_SPEC: u8 = 0x14;

pub const ALERT: u8 = 0x15;

pub const HANDSHAKE: u8 = 0x16;

pub const APPLICATION_DATA: u8 = 0x17;

pub const HEARTBEAT: u8 = 0x18;

/// The length of a record header: content type, version and payload length.
pub const HEADER_SIZE: usize = 5;

/// The payload of a record is shorter than this.
pub const MAX_PAYLOAD: usize = 18432;

/// One record as it travels: a content type, a protocol version and a payload
/// that nobody has looked into.
#[derive(Debug)]
pub struct OpaqueMessage {
    pub typ: u8,
    pub version: u16,
    pub payload: Vec<u8>,
}

/// A record as plain mathematics.
pub struct RecordModel {
    pub typ: u8,
    pub version: u16,
    pub payload: Seq<u8>,
}

impl View for OpaqueMessage {
    type V = RecordModel;

    open spec fn view(&self) -> RecordModel {
        RecordModel { typ: self.typ, version: self.version, payload: self.payload@ }
    }
}

/// The bytes of a record on the wire: content type, version and payload
/// length, the two numbers with their high byte first, then the payload. The
/// length field holds the low sixteen bits of the payload's length.
pub open spec fn wire(record: RecordModel) -> Seq<u8> {
    seq![
        record.typ,
        (record.version / 256) as u8,
        (record.version % 256) as u8,
        ((record.payload.len() % 65536) / 256) as u8,
        (record.payload.len() % 256) as u8,
    ] + record.payload
}

/// Whether a version number may stand in a record header: any `0x03XX`, and
/// the numbers of SSL 2 and of the DTLS versions.
pub open spec fn version_accepted(version: u16) -> bool {
    version / 256 == 3 || version == 0x0200 || version == 0xFEFF || version == 0xFEFD || version
        == 0xFEFC
}

/// Whether a record header with these fields is accepted: the payload is not
/// empty unless it is application data, it is shorter than [`MAX_PAYLOAD`],
/// the content type is one of the five known ones, and the version is accepted.
pub open spec fn header_accepted(typ: u8, version: u16, length: nat) -> bool {
    &&& typ == APPLICATION_DATA || length != 0
    &&& length < MAX_PAYLOAD
    &&& CHANGE_CIPHER_SPEC <= typ <= HEARTBEAT
    &&& version_accepted(version)
}

/// Whether a record can be read back from its bytes on the wire.
pub open spec fn valid_record(record: RecordModel) -> bool {
    header_accepted(record.typ, record.version, record.payload.len())
}

/// What stands at the head of a buffer.
pub enum Framing {
    /// A whole record that takes up the first `used` bytes.
    Complete { record: RecordModel, used: nat },
    /// The beginning of a record, or nothing at all.
    Partial,
    /// Bytes that no record begins with.
    Invalid,
}

/// What stands at the head of `bytes`.
pub open spec fn framing(bytes: Seq<u8>) -> Framing {
    if bytes.len() < HEADER_SIZE {
        Framing::Partial
    } else {
        let typ = bytes[0];
        let version = (bytes[1] * 256 + bytes[2]) as u16;
        let length = (bytes[3] * 256 + bytes[4]) as nat;
        if !header_accepted(typ, version, length) {
            Framing::Invalid
        } else if bytes.len() < HEADER_SIZE + length {
            Framing::Partial
        } else {
            Framing::Complete {
                record: RecordModel {
                    typ,
                    version,
                    payload: bytes.subrange(HEADER_SIZE as int, HEADER_SIZE + length),
                },
                used: (HEADER_SIZE + length) as nat,
            }
        }
    }
}

/// The bytes of a sequence of records, one after the other.
pub open spec fn frames(records: Seq<RecordModel>) -> Seq<u8>
    decreases records.len(),
{
    if records.len() == 0 {
        Seq::empty()
    } else {
        wire(records[0]) + frames(records.skip(1))
    }
}

/// What is left of `bytes` after `count` records have been taken from its
/// head; taking stops where no whole record stands.
pub open spec fn remaining(bytes: Seq<u8>, count: nat) -> Seq<u8>
    decreases count,
{
    if count == 0 {
        bytes
    } else {
        match framing(bytes) {
            Framing::Complete { used, .. } => remaining(bytes.skip(used as int), (count - 1) as nat),
            _ => bytes,
        }
    }
}

/// A valid record in front of any bytes is read back as it was, and those
/// bytes are what follows it.
pub proof fn lemma_framing_of_wire(record: RecordModel, rest: Seq<u8>)
    requires
        valid_record(record),
    ensures
        framing(wire(record) + rest) == (Framing::Complete {
            record,
            used: wire(record).len(),
        }),
        (wire(record) + rest).skip(wire(record).len() as int) == rest,
        wire(record).len() == HEADER_SIZE + record.payload.len(),
{
    let bytes = wire(record) + rest;
    let length = record.payload.len();
    assert(bytes.subrange(HEADER_SIZE as int, HEADER_SIZE + length) =~= record.payload);
}

/// Stream reframing: from the bytes of `records`, all of them valid, one
/// record after the other is taken in order, each as it was written; when all
/// are taken nothing is left, and no further record is found.
pub proof fn lemma_stream_reframing(records: Seq<RecordModel>, taken: nat)
    requires
        forall|i: int| 0 <= i < records.len() ==> valid_record(#[trigger] records[i]),
        taken <= records.len(),
    ensures
        remaining(frames(records), taken) == frames(records.skip(taken as int)),
        taken < records.len() ==> framing(remaining(frames(records), taken)) == (Framing::Complete {
            record: records[taken as int],
            used: wire(records[taken as int]).len(),
        }),
        taken == records.len() ==> framing(remaining(frames(records), taken)) == Framing::Partial,
    decreases taken,
{
    if taken == 0 {
        assert(records.skip(0) =~= records);
    } else {
        let rest = records.skip(1);
        lemma_framing_of_wire(records[0], frames(rest));
        lemma_stream_reframing(rest, (taken - 1) as nat);
        assert(rest.skip(taken - 1) =~= records.skip(taken as int));
    }
    if taken < records.len() {
        let tail = records.skip(taken as int);
        lemma_framing_of_wire(tail[0], frames(tail.skip(1)));
    }
}

/// A record whose payload has been understood: its version, its kind and the
/// payload as it was sent.
#[derive(Debug)]
pub struct Message {
    pub version: u16,
    pub message_type: TlsMessageType,
    pub payload: Vec<u8>,
}

/// A [`Message`] as plain mathematics.
pub struct MessageModel {
    pub version: u16,
    pub message_type: TlsMessageType,
    pub payload: Seq<u8>,
}

impl View for Message {
    type V = MessageModel;

    open spec fn view(&self) -> MessageModel {
        MessageModel {
            version: self.version,
            message_type: self.message_type,
            payload: self.payload@,
        }
    }
}

/// The content type under which messages of a kind travel.
pub open spec fn content_type_of(message_type: TlsMessageType) -> u8 {
    match message_type {
        TlsMessageType::ChangeCipherSpec => CHANGE_CIPHER_SPEC,
        TlsMessageType::Alert => ALERT,
        TlsMessageType::Handshake(_) => HANDSHAKE,
        TlsMessageType::ApplicationData => APPLICATION_DATA,
        TlsMessageType::Heartbeat => HEARTBEAT,
    }
}

/// What `Message::try_from` of rustls makes of a record: nothing if it does
/// not understand the payload, otherwise the kind of handshake message, if
/// it is one.
pub uninterp spec fn parsed_handshake_type(typ: u8, version: u16, payload: Seq<u8>) -> Option<
    Option<u8>,
>;

/// The message that stands in a record, given what the parser found in it.
///
/// A record that the parser does not understand holds no message. One that
/// it understands holds a message of the kind that the content type names;
/// the parser understands no other content types than the four below.
pub open spec fn message_of(record: RecordModel, parsed: Option<Option<u8>>) -> Option<
    MessageModel,
> {
    match parsed {
        None => None,
        Some(handshake) => {
            let message_type = if record.typ == CHANGE_CIPHER_SPEC {
                Some(TlsMessageType::ChangeCipherSpec)
            } else if record.typ == ALERT {
                Some(TlsMessageType::Alert)
            } else if record.typ == HANDSHAKE {
                match handshake {
                    Some(code) => Some(TlsMessageType::Handshake(Some(handshake_type_of(code)))),
                    None => None,
                }
            } else if record.typ == APPLICATION_DATA {
                Some(TlsMessageType::ApplicationData)
            } else {
                None
            };
            match message_type {
                Some(message_type) => Some(
                    MessageModel { version: record.version, message_type, payload: record.payload },
                ),
                None => None,
            }
        },
    }
}

/// The model of an optional message.
pub open spec fn optional_message(message: Option<Message>) -> Option<MessageModel> {
    match message {
        Some(message) => Some(message@),
        None => None,
    }
}

/// What one take from an outbound channel hands over: the message that the
/// record holds, if it was understood, and the record itself.
#[derive(Debug)]
pub struct MessageResult(pub Option<Message>, pub OpaqueMessage);

impl MessageResult {
    pub open spec fn message(self) -> Option<MessageModel> {
        optional_message(self.0)
    }

    pub open spec fn record(self) -> RecordModel {
        self.1@
    }
}

/// A copy of a byte vector.
pub fn clone_bytes(bytes: &Vec<u8>) -> (r: Vec<u8>)
    ensures
        r@ == bytes@,
{
    let mut copy: Vec<u8> = Vec::new();
    let mut i: usize = 0;
    while i < bytes.len()
        invariant
            i <= bytes.len(),
            copy@ == bytes@.take(i as int),
        decreases bytes.len() - i,
    {
        copy.push(bytes[i]);
        i = i + 1;
    }
    copy
}

/// What `read_record` found at the head of a buffer.
enum Head {
    Complete { typ: u8, version: u16, payload: Vec<u8>, used: usize },
    Partial,
    Invalid,
}

impl Head {
    spec fn framing(self) -> Framing {
        match self {
            Head::Complete { typ, version, payload, used } => Framing::Complete {
                record: RecordModel { typ, version, payload: payload@ },
                used: used as nat,
            },
            Head::Partial => Framing::Partial,
            Head::Invalid => Framing::Invalid,
        }
    }
}

/// `OpaqueMessage::read` of rustls on a reader over `bytes`, with the number
/// of bytes that the reader used.
///
/// The contract says what the function does with a record header: fewer than
/// five bytes are too short for a header; a header is refused for an empty
/// payload that is not application data, for a payload of `MAX_PAYLOAD` bytes
/// or more, for an unknown content type and for a version that is neither
/// known nor `0x03XX`; an accepted header with fewer bytes behind it than its
/// length says is too short; otherwise the record is read.
#[verifier::external_body]
fn read_record(bytes: &Vec<u8>) -> (r: Head)
    ensures
        r.framing() == framing(bytes@),
{
    let mut reader = Reader::init(bytes);
    match WireMessage::read(&mut reader) {
        Ok(m) => Head::Complete {
            typ: m.typ.get_u8(),
            version: m.version.get_u16(),
            payload: m.payload.0,
            used: reader.used(),
        },
        Err(MessageError::TooShortForHeader) => Head::Partial,
        Err(MessageError::TooShortForLength) => Head::Partial,
        Err(_) => Head::Invalid,
    }
}

/// `OpaqueMessage::encode` of rustls: the header of five bytes, then the payload.
#[verifier::external_body]
fn encode_record(typ: u8, version: u16, payload: Vec<u8>) -> (r: Vec<u8>)
    ensures
        r@ == wire(RecordModel { typ, version, payload: payload@ }),
{
    WireMessage {
        typ: ContentType::from(typ),
        version: ProtocolVersion::from(version),
        payload: Payload::new(payload),
    }.encode()
}

/// `Message::try_from` of rustls on a plain message with these parts: whether
/// the payload is understood, and the kind of handshake message if it is one.
#[verifier::external_body]
fn parse_record(typ: u8, version: u16, payload: Vec<u8>) -> (r: Option<Option<u8>>)
    ensures
        r == parsed_handshake_type(typ, version, payload@),
{
    let plain = PlainMessage {
        typ: ContentType::from(typ),
        version: ProtocolVersion::from(version),
        payload: Payload::new(payload),
    };
    match ParsedMessage::try_from(plain) {
        Ok(message) => match message.payload {
            MessagePayload::Handshake { parsed, .. } => Some(Some(parsed.typ.get_u8())),
            _ => Some(None),
        },
        Err(_) => None,
    }
}

impl OpaqueMessage {
    pub fn new(typ: u8, version: u16, payload: Vec<u8>) -> (r: OpaqueMessage)
        ensures
            r@ == (RecordModel { typ, version, payload: payload@ }),
    {
        OpaqueMessage { typ, version, payload }
    }

    /// The bytes of the record on the wire.
    pub fn encode(&self) -> (r: Vec<u8>)
        ensures
            r@ == wire(self@),
    {
        encode_record(self.typ, self.version, clone_bytes(&self.payload))
    }

    /// The message that the record holds, if its payload is understood.
    pub fn parse(&self) -> (r: Option<Message>)
        ensures
            optional_message(r) == message_of(
                self@,
                parsed_handshake_type(self.typ, self.version, self.payload@),
            ),
    {
        let parsed = parse_record(self.typ, self.version, clone_bytes(&self.payload));
        Message::from_parsed(self, parsed)
    }
}

impl Clone for OpaqueMessage {
    fn clone(&self) -> (r: OpaqueMessage)
        ensures
            r@ == self@,
    {
        OpaqueMessage { typ: self.typ, version: self.version, payload: clone_bytes(&self.payload) }
    }
}

impl Message {
    /// The message that stands in `record`, given what a parser found in it.
    pub fn from_parsed(record: &OpaqueMessage, parsed: Option<Option<u8>>) -> (r: Option<Message>)
        ensures
            optional_message(r) == message_of(record@, parsed),
    {
        let handshake = match parsed {
            None => {
                return None;
            },
            Some(handshake) => handshake,
        };
        let message_type = if record.typ == CHANGE_CIPHER_SPEC {
            TlsMessageType::ChangeCipherSpec
        } else if record.typ == ALERT {
            TlsMessageType::Alert
        } else if record.typ == HANDSHAKE {
            match handshake {
                Some(code) => TlsMessageType::Handshake(Some(HandshakeType::from_u8(code))),
                None => {
                    return None;
                },
            }
        } else if record.typ == APPLICATION_DATA {
            TlsMessageType::ApplicationData
        } else {
            return None;
        };
        Some(
            Message { version: record.version, message_type, payload: clone_bytes(&record.payload) },
        )
    }

    /// The record that carries the message in the clear.
    pub fn to_opaque(&self) -> (r: OpaqueMessage)
        ensures
            r@ == (RecordModel {
                typ: content_type_of(self.message_type),
                version: self.version,
                payload: self.payload@,
            }),
    {
        let typ = match self.message_type {
            TlsMessageType::ChangeCipherSpec => CHANGE_CIPHER_SPEC,
            TlsMessageType::Alert => ALERT,
            TlsMessageType::Handshake(_) => HANDSHAKE,
            TlsMessageType::ApplicationData => APPLICATION_DATA,
            TlsMessageType::Heartbeat => HEARTBEAT,
        };
        OpaqueMessage { typ, version: self.version, payload: clone_bytes(&self.payload) }
    }
}

impl Clone for Message {
    fn clone(&self) -> (r: Message)
        ensures
            r@ == self@,
    {
        Message {
            version: self.version,
            message_type: self.message_type,
            payload: clone_bytes(&self.payload),
        }
    }
}

/// An in-memory byte buffer with a read cursor: bytes are appended at the
/// end and read from the cursor on.
#[derive(Debug)]
pub struct Channel {
    data: Vec<u8>,
    position: usize,
}

impl View for Channel {
    type V = Seq<u8>;

    /// The bytes that have not been read yet.
    closed spec fn view(&self) -> Seq<u8> {
        if self.position <= self.data.len() {
            self.data@.skip(self.position as int)
        } else {
            Seq::empty()
        }
    }
}

impl Channel {
    /// An empty channel.
    pub fn new() -> (r: Channel)
        ensures
            r@ == Seq::<u8>::empty(),
    {
        Channel { data: Vec::new(), position: 0 }
    }

    /// The number of bytes that have not been read yet.
    pub fn len(&self) -> (r: usize)
        ensures
            r == self@.len(),
    {
        if self.position <= self.data.len() {
            self.data.len() - self.position
        } else {
            0
        }
    }

    /// Appends `bytes` behind what the channel holds.
    pub fn extend(&mut self, bytes: &[u8])
        ensures
            final(self)@ == old(self)@ + bytes@,
    {
        if self.position > self.data.len() {
            self.data = Vec::new();
            self.position = 0;
        }
        let ghost start = self.data@;
        let ghost cursor = self.position;
        let mut i: usize = 0;
        while i < bytes.len()
            invariant
                i <= bytes.len(),
                self.position == cursor,
                cursor <= start.len(),
                self.data@ == start + bytes@.take(i as int),
            decreases bytes.len() - i,
        {
            self.data.push(bytes[i]);
            i = i + 1;
        }
    }

    /// A copy of the bytes that have not been read yet.
    pub fn contents(&self) -> (r: Vec<u8>)
        ensures
            r@ == self@,
    {
        let mut copy: Vec<u8> = Vec::new();
        if self.position > self.data.len() {
            return copy;
        }
        let mut i: usize = self.position;
        while i < self.data.len()
            invariant
                self.position <= i <= self.data.len(),
                copy@ == self.data@.subrange(self.position as int, i as int),
            decreases self.data.len() - i,
        {
            copy.push(self.data[i]);
            i = i + 1;
        }
        copy
    }

    /// Moves the cursor over the next `count` bytes, or over all that are
    /// left if they are fewer; a channel that has been read to its end is
    /// emptied.
    pub fn consume(&mut self, count: usize)
        ensures
            final(self)@ == if count <= old(self)@.len() {
                old(self)@.skip(count as int)
            } else {
                Seq::empty()
            },
    {
        if self.position > self.data.len() || count >= self.data.len() - self.position {
            self.data = Vec::new();
            self.position = 0;
        } else {
            self.position = self.position + count;
        }
    }

    /// Reads into the front of `buf` as many of the next bytes as there are
    /// and as `buf` has room for, and moves the cursor over them.
    pub fn read(&mut self, buf: &mut [u8]) -> (r: usize)
        ensures
            r == if old(buf)@.len() <= old(self)@.len() {
                old(buf)@.len()
            } else {
                old(self)@.len()
            },
            final(buf)@ == old(self)@.take(r as int) + old(buf)@.skip(r as int),
            final(self)@ == old(self)@.skip(r as int),
    {
        let available = self.len();
        let count = if buf.len() <= available {
            buf.len()
        } else {
            available
        };
        let mut i: usize = 0;
        while i < count
            invariant
                i <= count,
                count <= buf@.len(),
                count <= self@.len(),
                buf@.len() == old(buf)@.len(),
                *self == *old(self),
                buf@ == old(self)@.take(i as int) + old(buf)@.skip(i as int),
            decreases count - i,
        {
            let byte = self.data[self.position + i];
            buf[i] = byte;
            i = i + 1;
        }
        self.consume(count);
        count
    }
}

/// The reason why nothing was read: no data is there yet, and the reader is
/// asked to come back, as on a socket that does not block.
#[derive(Clone, Copy, Debug, PartialEq, Eq, Structural)]
pub struct WouldBlock;

/// What one agent's protocol engine talks to in place of a socket.
///
/// Reading takes from the inbound channel, writing fills the outbound
/// channel. The two must be apart: otherwise the engine would read what it
/// has written.
#[derive(Debug)]
pub struct MemoryStream {
    inbound: Channel,
    outbound: Channel,
}

/// A [`MemoryStream`] as plain mathematics: the bytes waiting in each channel.
pub struct StreamModel {
    pub inbound: Seq<u8>,
    pub outbound: Seq<u8>,
}

impl View for MemoryStream {
    type V = StreamModel;

    closed spec fn view(&self) -> StreamModel {
        StreamModel { inbound: self.inbound@, outbound: self.outbound@ }
    }
}

/// What one take from the outbound bytes `outbound` hands over.
pub open spec fn taken_message(outbound: Seq<u8>) -> Result<Option<(Option<MessageModel>, RecordModel)>, Error> {
    match framing(outbound) {
        Framing::Complete { record, .. } => Ok(
            Some(
                (
                    message_of(
                        record,
                        parsed_handshake_type(record.typ, record.version, record.payload),
                    ),
                    record,
                ),
            ),
        ),
        Framing::Partial => Ok(None),
        Framing::Invalid => Err(Error::Stream),
    }
}

/// The outbound bytes that one take leaves behind: all of them, unless a
/// whole record stood at the head.
pub open spec fn left_behind(outbound: Seq<u8>) -> Seq<u8> {
    match framing(outbound) {
        Framing::Complete { used, .. } => outbound.skip(used as int),
        _ => outbound,
    }
}

/// The model of what a take handed over.
pub open spec fn taken_model(taken: Result<Option<MessageResult>, Error>) -> Result<Option<(Option<MessageModel>, RecordModel)>, Error> {
    match taken {
        Ok(Some(result)) => Ok(Some((result.message(), result.record()))),
        Ok(None) => Ok(None),
        Err(error) => Err(error),
    }
}

/// The operations of a stream that a trace needs.
pub trait Stream {
    /// Appends the bytes of one record to the inbound channel.
    fn add_to_inbound(&mut self, result: &OpaqueMessage);

    /// Takes a single record from the head of the outbound channel.
    fn take_message_from_outbound(&mut self) -> Result<Option<MessageResult>, Error>;
}

impl MemoryStream {
    /// A stream with two empty channels.
    pub fn new() -> (r: MemoryStream)
        ensures
            r@.inbound == Seq::<u8>::empty(),
            r@.outbound == Seq::<u8>::empty(),
    {
        MemoryStream { inbound: Channel::new(), outbound: Channel::new() }
    }

    /// Appends the bytes of one record to the inbound channel.
    pub fn add_to_inbound(&mut self, opaque_message: &OpaqueMessage)
        ensures
            final(self)@.inbound == old(self)@.inbound + wire(opaque_message@),
            final(self)@.outbound == old(self)@.outbound,
    {
        let out = opaque_message.encode();
        self.inbound.extend(out.as_slice());
    }

    /// Takes the record at the head of the outbound channel.
    ///
    /// Where a whole record stands at the head, it is handed over, together
    /// with the message in it if the payload is understood, and the bytes
    /// behind it stay. Where the head is only the beginning of a record, or
    /// the channel is empty, nothing is handed over. Where the head is no
    /// record at all, the take fails. In the last two cases the channel stays
    /// as it is.
    pub fn take_message_from_outbound(&mut self) -> (r: Result<Option<MessageResult>, Error>)
        ensures
            taken_model(r) == taken_message(old(self)@.outbound),
            final(self)@.outbound == left_behind(old(self)@.outbound),
            final(self)@.inbound == old(self)@.inbound,
    {
        let bytes = self.outbound.contents();
        match read_record(&bytes) {
            Head::Complete { typ, version, payload, used } => {
                self.outbound.consume(used);
                let opaque_message = OpaqueMessage { typ, version, payload };
                let message = opaque_message.parse();
                Ok(Some(MessageResult(message, opaque_message)))
            },
            Head::Partial => Ok(None),
            Head::Invalid => Err(Error::Stream),
        }
    }

    /// Reads from the inbound channel into the front of `buf`, as much as
    /// there is and as `buf` has room for. Reading nothing is reported as
    /// [`WouldBlock`], never as the end of the data.
    pub fn read(&mut self, buf: &mut [u8]) -> (r: Result<usize, WouldBlock>)
        ensures
            ({
                let count = if old(buf)@.len() <= old(self)@.inbound.len() {
                    old(buf)@.len()
                } else {
                    old(self)@.inbound.len()
                };
                &&& r == if count == 0 {
                    Err::<usize, WouldBlock>(WouldBlock)
                } else {
                    Ok::<usize, WouldBlock>(count as usize)
                }
                &&& final(buf)@ == old(self)@.inbound.take(count as int) + old(buf)@.skip(
                    count as int,
                )
                &&& final(self)@.inbound == old(self)@.inbound.skip(count as int)
                &&& final(self)@.outbound == old(self)@.outbound
            }),
    {
        let n = self.inbound.read(buf);
        if n == 0 {
            return Err(WouldBlock);
        }
        Ok(n)
    }

    /// Appends `buf` to the outbound channel and returns its length.
    pub fn write(&mut self, buf: &[u8]) -> (r: usize)
        ensures
            r == buf@.len(),
            final(self)@.outbound == old(self)@.outbound + buf@,
            final(self)@.inbound == old(self)@.inbound,
    {
        self.outbound.extend(buf);
        buf.len()
    }

    /// Appends `bytes` to the inbound channel, as they arrive from a peer.
    pub fn feed(&mut self, bytes: &[u8])
        ensures
            final(self)@.inbound == old(self)@.inbound + bytes@,
            final(self)@.outbound == old(self)@.outbound,
    {
        self.inbound.extend(bytes);
    }

    /// Takes all bytes out of the outbound channel, whether they are records or not.
    pub fn take_outbound(&mut self) -> (r: Vec<u8>)
        ensures
            r@ == old(self)@.outbound,
            final(self)@.outbound == Seq::<u8>::empty(),
            final(self)@.inbound == old(self)@.inbound,
    {
        let bytes = self.outbound.contents();
        self.outbound.consume(bytes.len());
        bytes
    }

    /// Takes all bytes out of the inbound channel.
    pub fn take_inbound(&mut self) -> (r: Vec<u8>)
        ensures
            r@ == old(self)@.inbound,
            final(self)@.inbound == Seq::<u8>::empty(),
            final(self)@.outbound == old(self)@.outbound,
    {
        let bytes = self.inbound.contents();
        self.inbound.consume(bytes.len());
        bytes
    }

    /// Has nothing to do: what is written is in the channel at once.
    pub fn flush(&mut self)
        ensures
            final(self)@ == old(self)@,
    {
    }
}

impl Stream for MemoryStream {
    fn add_to_inbound(&mut self, result: &OpaqueMessage)
        ensures
            final(self)@.inbound == old(self)@.inbound + wire(result@),
            final(self)@.outbound == old(self)@.outbound,
    {
        MemoryStream::add_to_inbound(self, result)
    }

    fn take_message_from_outbound(&mut self) -> (r: Result<Option<MessageResult>, Error>)
        ensures
            taken_model(r) == taken_message(old(self)@.outbound),
            final(self)@.outbound == left_behind(old(self)@.outbound),
            final(self)@.inbound == old(self)@.inbound,
    {
        MemoryStream::take_message_from_outbound(self)
    }
}

} // verus!
