//! The Capsule Protocol (RFC 9297, Section 3): UDP payloads in Datagram Capsules on a stream.

use std::collections::VecDeque;

use octets::{varint_len, varint_parse_len};
use vstd::prelude::*;

use crate::frames;
use crate::frames::{OutboundFrame, OutboundFrameView};
use crate::helpers;
use crate::helpers::sfv_bool;
use crate::text::bytes_eq;
use crate::varint;
use crate::varint::{get_varint, put_bytes, put_varint, MAX_VARINT};
use crate::{CONTEXT_ID_VARINT_LEN, UDP_PAYLOAD_CONTEXT_ID};

verus! {

/// See RFC 9297, Section 3.5.
pub const CAPSULE_TYPE_DATAGRAM: u64 = 0x00;

/// The size of the type of a Datagram Capsule.
pub const DGRAM_CAPSULE_TYPE_LEN: usize = 1;

/// The largest size of a variable-length integer.
pub const MAX_VARINT_SIZE_BYTES: usize = 8;

/// The bytes of a Datagram Capsule: type, length, context ID and UDP payload.
pub open spec fn capsule_bytes(udp_payload: Seq<u8>) -> Seq<u8> {
    varint::encode(CAPSULE_TYPE_DATAGRAM as nat) + varint::encode(
        CONTEXT_ID_VARINT_LEN as nat + udp_payload.len(),
    ) + varint::encode(UDP_PAYLOAD_CONTEXT_ID as nat) + udp_payload
}

/// The bytes of one Datagram Capsule after another.
pub open spec fn capsule_stream(udp_payloads: Seq<Seq<u8>>) -> Seq<u8>
    decreases udp_payloads.len(),
{
    if udp_payloads.len() == 0 {
        Seq::empty()
    } else {
        capsule_stream(udp_payloads.drop_last()) + capsule_bytes(udp_payloads.last())
    }
}

/// Builds a Datagram Capsule that carries a UDP payload.
pub fn dgram_capsule_from_udp_payload(udp_payload: &[u8]) -> (frame: OutboundFrame)
    requires
        udp_payload@.len() < MAX_VARINT,
        capsule_bytes(udp_payload@).len() <= usize::MAX,
    ensures
        frame@ == OutboundFrameView::Body(capsule_bytes(udp_payload@), false),
{
    proof {
        varint::lemma_encode_size(CAPSULE_TYPE_DATAGRAM as nat);
        varint::lemma_encode_size((CONTEXT_ID_VARINT_LEN + udp_payload@.len()) as nat);
        varint::lemma_encode_size(UDP_PAYLOAD_CONTEXT_ID as nat);
    }
    // HTTP Datagram Payload = Context ID + UDP payload
    let http_datagram_payload_len: usize = CONTEXT_ID_VARINT_LEN + udp_payload.len();
    let payload_len_varint_size: usize = varint_len(http_datagram_payload_len as u64);

    // Capsule = Type + Length + HTTP Datagram Payload
    let capsule_capacity: usize = DGRAM_CAPSULE_TYPE_LEN + payload_len_varint_size
        + http_datagram_payload_len;
    let mut capsule: Vec<u8> = vec![0u8; capsule_capacity];

    let off: usize = put_varint(capsule.as_mut_slice(), 0, CAPSULE_TYPE_DATAGRAM).expect(
        "failed to write Datagram capsule type",
    );
    let off: usize = put_varint(
        capsule.as_mut_slice(),
        off,
        http_datagram_payload_len as u64,
    ).expect("failed to write Datagram capsule length");
    let off: usize = put_varint(capsule.as_mut_slice(), off, UDP_PAYLOAD_CONTEXT_ID).expect(
        "failed to write context ID",
    );
    let written: usize = put_bytes(capsule.as_mut_slice(), off, udp_payload).expect(
        "failed to write UDP payload",
    );
    capsule.truncate(written);
    assert(capsule@ =~= capsule_bytes(udp_payload@));

    OutboundFrame::body(capsule, false)
}

/// Why the bytes on a stream are no Datagram Capsules.
#[derive(Debug, Clone, Copy, PartialEq, Eq)]
pub enum CapsuleError {
    /// A capsule of another type.
    UnsupportedType(u64),
    /// A capsule type of more than one byte.
    LongType,
    /// A capsule value that ends before its context ID does.
    MissingContextId,
    /// A context ID that does not stand for UDP payloads.
    UnknownContextId(u64),
}

/// The UDP payload in the value of a Datagram Capsule.
pub open spec fn udp_from_capsule_value(capsule_value: Seq<u8>) -> Result<Seq<u8>, CapsuleError> {
    match varint::decode(capsule_value) {
        Some((context_id, size)) => if context_id == UDP_PAYLOAD_CONTEXT_ID {
            Ok(capsule_value.skip(size as int))
        } else {
            Err(CapsuleError::UnknownContextId(context_id as u64))
        },
        None => Err(CapsuleError::MissingContextId),
    }
}

/// Extracts the UDP payload from a complete Datagram Capsule value.
fn extract_udp_from_datagram_capsule(capsule_value: &[u8]) -> (r: Result<Vec<u8>, CapsuleError>)
    ensures
        match r {
            Ok(payload) => udp_from_capsule_value(capsule_value@) == Ok::<
                Seq<u8>,
                CapsuleError,
            >(payload@),
            Err(e) => udp_from_capsule_value(capsule_value@) == Err::<Seq<u8>, CapsuleError>(e),
        },
{
    match get_varint(capsule_value) {
        Some((context_id, udp_start)) => {
            if context_id == UDP_PAYLOAD_CONTEXT_ID {
                Ok(vstd::slice::slice_to_vec(&capsule_value[udp_start..capsule_value.len()]))
            } else {
                Err(CapsuleError::UnknownContextId(context_id))
            }
        },
        None => Err(CapsuleError::MissingContextId),
    }
}

/// Whether a `capsule-protocol` header asks for the Capsule Protocol: where it is there and true.
pub open spec fn asks_for_capsules(capsule_protocol: Option<Seq<u8>>) -> bool {
    capsule_protocol == Some(helpers::sfv_bool_bytes(true))
}

/// Validates that a capsule protocol value is correct, i.e., either true or false as an sfv.
/// What is neither counts as false.
pub fn sfv_bool_from_header(capsule_protocol: Option<Vec<u8>>) -> (value: Vec<u8>)
    ensures
        value@ == helpers::sfv_bool_bytes(
            asks_for_capsules(frames::opt_bytes(capsule_protocol)),
        ),
{
    match capsule_protocol {
        Some(value) => if bytes_eq(value.as_slice(), sfv_bool(true).as_str().as_bytes()) {
            value
        } else {
            vstd::slice::slice_to_vec(sfv_bool(false).as_str().as_bytes())
        },
        None => vstd::slice::slice_to_vec(sfv_bool(false).as_str().as_bytes()),
    }
}

/// A validated value is a Structured Field boolean, and validating it again keeps it.
pub proof fn law_validated_value_stays(capsule_protocol: Option<Seq<u8>>)
    ensures
        ({
            let value = helpers::sfv_bool_bytes(asks_for_capsules(capsule_protocol));
            &&& value == helpers::sfv_bool_bytes(true) || value == helpers::sfv_bool_bytes(false)
            &&& helpers::sfv_bool_bytes(asks_for_capsules(Some(value))) == value
        }),
{
    assert(helpers::sfv_bool_bytes(true)[1] != helpers::sfv_bool_bytes(false)[1]);
}

/// What one side serializes, the other side reads.
pub proof fn law_capsule_header_roundtrip(enabled: bool)
    ensures
        asks_for_capsules(Some(helpers::sfv_bool_bytes(enabled))) == enabled,
{
    assert(helpers::sfv_bool_bytes(true)[1] != helpers::sfv_bool_bytes(false)[1]);
}

/// How far the bytes of a stream have been read.
pub enum CapsuleState {
    /// The next byte starts a capsule.
    Type,
    /// These bytes of the capsule length were read; they do not complete it.
    Length(Seq<u8>),
    /// These bytes of the capsule value were read, which takes `length` in all.
    Value { length: nat, received: Seq<u8> },
    /// The bytes were no Datagram Capsules.
    Failed(CapsuleError),
}

/// What a deframer knows: how far it has read, and the UDP payloads that were not taken yet.
pub struct DeframerView {
    pub state: CapsuleState,
    pub payloads: Seq<Seq<u8>>,
}

impl DeframerView {
    /// What one more byte of the stream changes.
    pub open spec fn step(self, byte: u8) -> DeframerView {
        match self.state {
            CapsuleState::Type => match varint::decode(seq![byte]) {
                Some((capsule_type, _)) => if capsule_type == CAPSULE_TYPE_DATAGRAM {
                    DeframerView { state: CapsuleState::Length(Seq::empty()), ..self }
                } else {
                    self.fail(CapsuleError::UnsupportedType(capsule_type as u64))
                },
                None => self.fail(CapsuleError::LongType),
            },
            CapsuleState::Length(read) => match varint::decode(read.push(byte)) {
                Some((length, _)) => DeframerView {
                    state: CapsuleState::Value { length, received: Seq::empty() },
                    ..self
                },
                None => DeframerView { state: CapsuleState::Length(read.push(byte)), ..self },
            },
            CapsuleState::Value { length, received } => if length == 0 {
                self.fail(CapsuleError::MissingContextId)
            } else if received.len() + 1 < length {
                DeframerView {
                    state: CapsuleState::Value { length, received: received.push(byte) },
                    ..self
                }
            } else {
                match udp_from_capsule_value(received.push(byte)) {
                    Ok(payload) => DeframerView {
                        state: CapsuleState::Type,
                        payloads: self.payloads.push(payload),
                    },
                    Err(e) => self.fail(e),
                }
            },
            CapsuleState::Failed(_) => self,
        }
    }

    /// The same payloads, with an error in the stream behind them.
    pub open spec fn fail(self, error: CapsuleError) -> DeframerView {
        DeframerView { state: CapsuleState::Failed(error), ..self }
    }

    /// What the bytes of `data`, one after another, change.
    pub open spec fn run(self, data: Seq<u8>) -> DeframerView
        decreases data.len(),
    {
        if data.len() == 0 {
            self
        } else {
            self.run(data.drop_last()).step(data.last())
        }
    }

    /// What the error in the stream is, if there is one.
    pub open spec fn outcome(self) -> Result<(), CapsuleError> {
        match self.state {
            CapsuleState::Failed(e) => Err(e),
            _ => Ok(()),
        }
    }
}

/// What a deframer stands at.
#[derive(Debug)]
enum PartialCapsule {
    /// Reading the capsule type (varint)
    Type,
    /// Reading the capsule length (varint)
    Length { partial_buf: Vec<u8> },
    /// Reading the capsule value (bytes)
    Value { length: u64, partial_buf: Vec<u8> },
    /// Nothing more can be read
    Failed(CapsuleError),
}

impl PartialCapsule {
    spec fn wf(self) -> bool {
        match self {
            PartialCapsule::Length { partial_buf } => varint::decode(partial_buf@) is None,
            PartialCapsule::Value { length, partial_buf } => {
                ||| partial_buf@.len() < length
                ||| partial_buf@.len() == 0
            },
            _ => true,
        }
    }

    spec fn state(self) -> CapsuleState {
        match self {
            PartialCapsule::Type => CapsuleState::Type,
            PartialCapsule::Length { partial_buf } => CapsuleState::Length(partial_buf@),
            PartialCapsule::Value { length, partial_buf } => CapsuleState::Value {
                length: length as nat,
                received: partial_buf@,
            },
            PartialCapsule::Failed(e) => CapsuleState::Failed(e),
        }
    }
}

/// Parses capsules carried over HTTP DATA frames.
/// Partial capsules may be split across multiple body chunks.
pub struct CapsuleDeframer {
    state: PartialCapsule,
    /// Queue of fully parsed UDP payloads
    udp_payloads: VecDeque<Vec<u8>>,
}

impl View for CapsuleDeframer {
    type V = DeframerView;

    closed spec fn view(&self) -> DeframerView {
        DeframerView {
            state: self.state.state(),
            payloads: self.udp_payloads@.map_values(|payload: Vec<u8>| payload@),
        }
    }
}

impl CapsuleDeframer {
    /// What every deframer keeps: a length that is being read is not complete, and a value that is
    /// being read neither.
    pub closed spec fn wf(self) -> bool {
        self.state.wf()
    }

    pub fn new() -> (deframer: Self)
        ensures
            deframer.wf(),
            deframer@ == (DeframerView { state: CapsuleState::Type, payloads: Seq::empty() }),
    {
        let deframer = Self { state: PartialCapsule::Type, udp_payloads: VecDeque::new() };
        assert(deframer@.payloads =~= Seq::<Seq<u8>>::empty());
        deframer
    }

    /// Feeds new data into the deframer.
    /// Note that the body may contain multiple capsules.
    ///
    /// Data that is no Datagram Capsule is left out here; [`try_feed`](Self::try_feed) reports it.
    pub fn feed(&mut self, new_data: &[u8])
        requires
            old(self).wf(),
            old(self)@.run(new_data@).outcome() is Ok,
        ensures
            final(self).wf(),
            final(self)@ == old(self)@.run(new_data@),
    {
        let _ = self.try_feed(new_data);
    }

    /// Feeds new data into the deframer and says whether the stream is still one of Datagram
    /// Capsules. After an error nothing more is read.
    pub fn try_feed(&mut self, new_data: &[u8]) -> (r: Result<(), CapsuleError>)
        requires
            old(self).wf(),
        ensures
            final(self).wf(),
            final(self)@ == old(self)@.run(new_data@),
            r == final(self)@.outcome(),
    {
        let mut data_index: usize = 0;
        assert(new_data@.take(0) =~= Seq::<u8>::empty());

        while data_index < new_data.len()
            invariant
                data_index <= new_data@.len(),
                self.wf(),
                self@ == old(self)@.run(new_data@.take(data_index as int)),
            decreases new_data@.len() - data_index,
        {
            let unparsed = &new_data[data_index..new_data.len()];
            let consumed: usize = match &self.state {
                PartialCapsule::Type => self.read_type(unparsed),
                PartialCapsule::Length { .. } => self.read_length(unparsed),
                PartialCapsule::Value { .. } => self.read_value(unparsed),
                PartialCapsule::Failed(_) => {
                    proof {
                        law_run_failed(self@, unparsed@);
                        assert(unparsed@.take(unparsed@.len() as int) =~= unparsed@);
                    }
                    unparsed.len()
                },
            };
            proof {
                law_run_chunks(
                    old(self)@,
                    new_data@.take(data_index as int),
                    unparsed@.take(consumed as int),
                );
                assert(new_data@.take(data_index + consumed) =~= new_data@.take(data_index as int)
                    + unparsed@.take(consumed as int));
            }
            data_index = data_index + consumed;
        }
        assert(new_data@.take(data_index as int) =~= new_data@);
        match &self.state {
            PartialCapsule::Failed(e) => Err(*e),
            _ => Ok(()),
        }
    }

    /// Reads the type of a capsule and returns how many bytes it took.
    fn read_type(&mut self, unparsed: &[u8]) -> (consumed: usize)
        requires
            old(self).wf(),
            old(self)@.state is Type,
            unparsed@.len() > 0,
        ensures
            final(self).wf(),
            1 <= consumed <= unparsed@.len(),
            final(self)@ == old(self)@.run(unparsed@.take(consumed as int)),
    {
        let type_bytes = &unparsed[0..DGRAM_CAPSULE_TYPE_LEN];
        proof {
            assert(type_bytes@ =~= seq![unparsed@[0]]);
            assert(type_bytes@ =~= unparsed@.take(1));
            lemma_run_first(self@, type_bytes@);
        }
        let (parsed, _) = Self::try_parse_varint(type_bytes);
        self.state = match parsed {
            Some(capsule_type) => if capsule_type == CAPSULE_TYPE_DATAGRAM {
                PartialCapsule::Length { partial_buf: Vec::new() }
            } else {
                PartialCapsule::Failed(CapsuleError::UnsupportedType(capsule_type))
            },
            None => PartialCapsule::Failed(CapsuleError::LongType),
        };
        DGRAM_CAPSULE_TYPE_LEN
    }

    /// Reads on in the length of a capsule and returns how many bytes that took.
    fn read_length(&mut self, unparsed: &[u8]) -> (consumed: usize)
        requires
            old(self).wf(),
            old(self)@.state is Length,
            unparsed@.len() > 0,
        ensures
            final(self).wf(),
            1 <= consumed <= unparsed@.len(),
            final(self)@ == old(self)@.run(unparsed@.take(consumed as int)),
    {
        let mut state = PartialCapsule::Type;
        std::mem::swap(&mut self.state, &mut state);
        if let PartialCapsule::Length { mut partial_buf } = state {
            let prev_written: usize = partial_buf.len();
            proof {
                lemma_incomplete_varint(partial_buf@);
            }
            let max_still_needed: usize = MAX_VARINT_SIZE_BYTES - prev_written;
            let new_length_bytes: usize = if max_still_needed < unparsed.len() {
                max_still_needed
            } else {
                unparsed.len()
            };

            // Store the bytes in case they are needed later.
            let ghost read = partial_buf@;
            let new_bytes = &unparsed[0..new_length_bytes];
            partial_buf.extend_from_slice(new_bytes);
            assert(partial_buf@ =~= read + new_bytes@);
            match Self::try_parse_varint(partial_buf.as_slice()) {
                (Some(length), consumed) => {
                    proof {
                        lemma_run_complete_length(old(self)@, read, new_bytes@);
                        let used = consumed - prev_written;
                        assert(unparsed@.take(used) =~= new_bytes@.take(used));
                    }
                    self.state = PartialCapsule::Value { length, partial_buf: Vec::new() };
                    // Only the bytes behind those of earlier chunks are new.
                    consumed - prev_written
                },
                (None, _) => {
                    // The length is incomplete; its bytes wait for the next chunk.
                    proof {
                        lemma_run_partial_length(old(self)@, read, new_bytes@);
                        lemma_incomplete_varint(partial_buf@);
                        assert(unparsed@.take(new_length_bytes as int) =~= new_bytes@);
                    }
                    self.state = PartialCapsule::Length { partial_buf };
                    new_length_bytes
                },
            }
        } else {
            assert(false);
            unparsed.len()
        }
    }

    /// Reads on in the value of a capsule and returns how many bytes that took.
    fn read_value(&mut self, unparsed: &[u8]) -> (consumed: usize)
        requires
            old(self).wf(),
            old(self)@.state is Value,
            unparsed@.len() > 0,
        ensures
            final(self).wf(),
            1 <= consumed <= unparsed@.len(),
            final(self)@ == old(self)@.run(unparsed@.take(consumed as int)),
    {
        let mut state = PartialCapsule::Type;
        std::mem::swap(&mut self.state, &mut state);
        if let PartialCapsule::Value { length, mut partial_buf } = state {
            let max_still_needed: u64 = length - partial_buf.len() as u64;
            let new_value_bytes: usize = if max_still_needed < unparsed.len() as u64 {
                max_still_needed as usize
            } else {
                unparsed.len()
            };

            // Store the bytes in case they are needed later.
            let ghost received = partial_buf@;
            let new_bytes = &unparsed[0..new_value_bytes];
            partial_buf.extend_from_slice(new_bytes);
            proof {
                assert(partial_buf@ =~= received + new_bytes@);
                assert(unparsed@.take(new_value_bytes as int) =~= new_bytes@);
            }

            if partial_buf.len() as u64 == length {
                proof {
                    if length > 0 {
                        lemma_run_complete_value(
                            old(self)@,
                            length as nat,
                            received,
                            new_bytes@,
                        );
                    } else {
                        lemma_run_empty_value(old(self)@, unparsed@.take(1));
                    }
                }
                match extract_udp_from_datagram_capsule(partial_buf.as_slice()) {
                    Ok(udp_payload) => {
                        self.udp_payloads.push_back(udp_payload);
                        // Move to reading the type of the next capsule
                        self.state = PartialCapsule::Type;
                        assert(self@.payloads =~= old(self)@.payloads.push(udp_payload@));
                    },
                    Err(e) => {
                        self.state = PartialCapsule::Failed(e);
                    },
                }
                if length > 0 {
                    new_value_bytes
                } else {
                    1
                }
            } else {
                // The value is incomplete; its bytes wait for the next chunk.
                proof {
                    lemma_run_partial_value(old(self)@, length as nat, received, new_bytes@);
                }
                self.state = PartialCapsule::Value { length, partial_buf };
                new_value_bytes
            }
        } else {
            assert(false);
            unparsed.len()
        }
    }

    /// Tries to parse a varint from the buffer.
    /// Returns the value and the size of its encoding, or `None` and 0 if more bytes are needed.
    fn try_parse_varint(buf: &[u8]) -> (r: (Option<u64>, usize))
        ensures
            match varint::decode(buf@) {
                Some((v, size)) => r.0 == Some(v as u64) && r.1 == size && v <= MAX_VARINT,
                None => r == (None::<u64>, 0usize),
            },
    {
        if buf.len() == 0 || buf.len() < varint_parse_len(buf[0]) {
            return (None, 0);
        }
        match get_varint(buf) {
            Some((v, off)) => (Some(v), off),
            None => (None, 0),
        }
    }

    /// Pops the next complete UDP payload, if available.
    pub fn pop_udp_payload(&mut self) -> (r: Option<Vec<u8>>)
        requires
            old(self).wf(),
        ensures
            final(self).wf(),
            final(self)@.state == old(self)@.state,
            match r {
                Some(payload) => old(self)@.payloads == seq![payload@] + final(self)@.payloads,
                None => old(self)@.payloads.len() == 0 && final(self)@ == old(self)@,
            },
    {
        let r = self.udp_payloads.pop_front();
        proof {
            if r is Some {
                assert(old(self)@.payloads =~= seq![(r->0)@] + self@.payloads);
            } else {
                assert(self@.payloads =~= old(self)@.payloads);
            }
        }
        r
    }
}

impl Default for CapsuleDeframer {
    fn default() -> (deframer: Self)
        ensures
            deframer.wf(),
            deframer@ == (DeframerView { state: CapsuleState::Type, payloads: Seq::empty() }),
    {
        Self::new()
    }
}

/// Chunks do not matter: two chunks, one after the other, leave a deframer where their
/// concatenation leaves it.
pub proof fn law_run_chunks(deframer: DeframerView, first: Seq<u8>, second: Seq<u8>)
    ensures
        deframer.run(first + second) == deframer.run(first).run(second),
    decreases second.len(),
{
    if second.len() == 0 {
        assert(first + second =~= first);
    } else {
        law_run_chunks(deframer, first, second.drop_last());
        assert((first + second).drop_last() =~= first + second.drop_last());
    }
}

/// After an error nothing changes any more.
pub proof fn law_run_failed(deframer: DeframerView, data: Seq<u8>)
    requires
        deframer.outcome() is Err,
    ensures
        deframer.run(data) == deframer,
    decreases data.len(),
{
    if data.len() > 0 {
        law_run_failed(deframer, data.drop_last());
    }
}

proof fn lemma_run_first(deframer: DeframerView, data: Seq<u8>)
    requires
        data.len() > 0,
    ensures
        deframer.run(data) == deframer.step(data[0]).run(data.skip(1)),
        data.len() == 1 ==> deframer.run(data) == deframer.step(data[0]),
{
    let first = seq![data[0]];
    assert(data =~= first + data.skip(1));
    law_run_chunks(deframer, first, data.skip(1));
    assert(first.drop_last() =~= Seq::<u8>::empty());
    assert(deframer.run(first.drop_last()) == deframer);
    assert(deframer.run(first) == deframer.step(data[0]));
    if data.len() == 1 {
        assert(data.skip(1) =~= Seq::<u8>::empty());
    }
}

proof fn lemma_incomplete_varint(bytes: Seq<u8>)
    requires
        varint::decode(bytes) is None,
    ensures
        bytes.len() < MAX_VARINT_SIZE_BYTES,
{
}

proof fn lemma_run_partial_length(deframer: DeframerView, read: Seq<u8>, data: Seq<u8>)
    requires
        deframer.state == CapsuleState::Length(read),
        varint::decode(read + data) is None,
    ensures
        deframer.run(data) == (DeframerView {
            state: CapsuleState::Length(read + data),
            ..deframer
        }),
    decreases data.len(),
{
    if data.len() == 0 {
        assert(read + data =~= read);
    } else {
        let shorter = read + data.drop_last();
        assert(read + data =~= shorter + seq![data.last()]);
        if varint::decode(shorter) is Some {
            varint::law_prefix(shorter, seq![data.last()]);
        }
        lemma_run_partial_length(deframer, read, data.drop_last());
        assert(shorter.push(data.last()) =~= read + data);
    }
}

proof fn lemma_run_complete_length(deframer: DeframerView, read: Seq<u8>, data: Seq<u8>)
    requires
        deframer.state == CapsuleState::Length(read),
        varint::decode(read) is None,
        varint::decode(read + data) is Some,
    ensures
        varint::decode(read + data) matches Some((length, size)) ==> {
            &&& read.len() < size <= read.len() + data.len()
            &&& deframer.run(data.take(size - read.len())) == (DeframerView {
                state: CapsuleState::Value { length, received: Seq::empty() },
                ..deframer
            })
        },
{
    let (length, size) = varint::decode(read + data)->0;
    if read.len() > 0 {
        assert((read + data)[0] == read[0]);
    }
    let used = data.take(size - read.len());
    let shorter = read + used.drop_last();
    if shorter.len() > 0 {
        assert(shorter[0] == (read + data)[0]);
    }
    lemma_run_partial_length(deframer, read, used.drop_last());
    let whole = shorter.push(used.last());
    assert(whole =~= (read + data).take(size as int));
    assert(whole[0] == (read + data)[0]);
    assert(whole.take(size as int) =~= (read + data).take(size as int));
}

proof fn lemma_run_partial_value(
    deframer: DeframerView,
    length: nat,
    received: Seq<u8>,
    data: Seq<u8>,
)
    requires
        deframer.state == (CapsuleState::Value { length, received }),
        received.len() + data.len() < length,
    ensures
        deframer.run(data) == (DeframerView {
            state: CapsuleState::Value { length, received: received + data },
            ..deframer
        }),
    decreases data.len(),
{
    if data.len() == 0 {
        assert(received + data =~= received);
    } else {
        lemma_run_partial_value(deframer, length, received, data.drop_last());
        assert((received + data.drop_last()).push(data.last()) =~= received + data);
    }
}

proof fn lemma_run_complete_value(
    deframer: DeframerView,
    length: nat,
    received: Seq<u8>,
    data: Seq<u8>,
)
    requires
        deframer.state == (CapsuleState::Value { length, received }),
        data.len() > 0,
        received.len() + data.len() == length,
    ensures
        deframer.run(data) == match udp_from_capsule_value(received + data) {
            Ok(payload) => DeframerView {
                state: CapsuleState::Type,
                payloads: deframer.payloads.push(payload),
            },
            Err(e) => deframer.fail(e),
        },
{
    lemma_run_partial_value(deframer, length, received, data.drop_last());
    assert((received + data.drop_last()).push(data.last()) =~= received + data);
}

proof fn lemma_run_empty_value(deframer: DeframerView, data: Seq<u8>)
    requires
        deframer.state matches CapsuleState::Value { length, .. } && length == 0,
        data.len() > 0,
    ensures
        deframer.run(data) == deframer.fail(CapsuleError::MissingContextId),
{
    lemma_run_first(deframer, data);
    law_run_failed(deframer.step(data[0]), data.skip(1));
}

/// A capsule that is built from a UDP payload hands it out again: read at the start of a capsule,
/// it adds the payload behind the others and the next byte starts another capsule.
pub proof fn law_capsule_roundtrip(deframer: DeframerView, udp_payload: Seq<u8>)
    requires
        deframer.state is Type,
        udp_payload.len() < MAX_VARINT,
    ensures
        deframer.run(capsule_bytes(udp_payload)) == (DeframerView {
            state: CapsuleState::Type,
            payloads: deframer.payloads.push(udp_payload),
        }),
{
    let length = CONTEXT_ID_VARINT_LEN as nat + udp_payload.len();
    let type_bytes = varint::encode(CAPSULE_TYPE_DATAGRAM as nat);
    let length_bytes = varint::encode(length);
    let id_bytes = varint::encode(UDP_PAYLOAD_CONTEXT_ID as nat);
    let value = id_bytes + udp_payload;
    varint::lemma_encode_size(CAPSULE_TYPE_DATAGRAM as nat);
    varint::lemma_encode_size(length);
    varint::lemma_encode_size(UDP_PAYLOAD_CONTEXT_ID as nat);
    varint::law_roundtrip(CAPSULE_TYPE_DATAGRAM as nat, Seq::empty());
    varint::law_roundtrip(length, Seq::empty());
    varint::law_roundtrip(UDP_PAYLOAD_CONTEXT_ID as nat, udp_payload);
    assert(capsule_bytes(udp_payload) =~= type_bytes + (length_bytes + value));
    assert(type_bytes + Seq::<u8>::empty() =~= type_bytes);
    assert(type_bytes =~= seq![type_bytes[0]]);
    assert(length_bytes + Seq::<u8>::empty() =~= length_bytes);
    assert(Seq::<u8>::empty() + length_bytes =~= length_bytes);
    assert(Seq::<u8>::empty() + value =~= value);
    assert(length_bytes.take(length_bytes.len() as int) =~= length_bytes);
    assert(value.skip(id_bytes.len() as int) =~= udp_payload);

    law_run_chunks(deframer, type_bytes, length_bytes + value);
    lemma_run_first(deframer, type_bytes);
    let typed = deframer.run(type_bytes);
    law_run_chunks(typed, length_bytes, value);
    lemma_run_complete_length(typed, Seq::empty(), length_bytes);
    let sized = typed.run(length_bytes);
    lemma_run_complete_value(sized, length, Seq::empty(), value);
}

/// A stream of capsules hands out the UDP payloads they were built from, in their order.
pub proof fn law_capsule_stream_roundtrip(deframer: DeframerView, udp_payloads: Seq<Seq<u8>>)
    requires
        deframer.state is Type,
        forall|i: int| 0 <= i < udp_payloads.len() ==> #[trigger] udp_payloads[i].len() < MAX_VARINT,
    ensures
        deframer.run(capsule_stream(udp_payloads)) == (DeframerView {
            state: CapsuleState::Type,
            payloads: deframer.payloads + udp_payloads,
        }),
    decreases udp_payloads.len(),
{
    if udp_payloads.len() == 0 {
        assert(deframer.payloads + udp_payloads =~= deframer.payloads);
    } else {
        let earlier = udp_payloads.drop_last();
        law_capsule_stream_roundtrip(deframer, earlier);
        law_run_chunks(deframer, capsule_stream(earlier), capsule_bytes(udp_payloads.last()));
        law_capsule_roundtrip(deframer.run(capsule_stream(earlier)), udp_payloads.last());
        assert((deframer.payloads + earlier).push(udp_payloads.last()) =~= deframer.payloads
            + udp_payloads);
    }
}

/// A header asks for the Capsule Protocol where it is the two bytes `?1`, and nowhere else.
pub proof fn law_only_true_asks_for_capsules(capsule_protocol: Option<Seq<u8>>)
    ensures
        asks_for_capsules(capsule_protocol) <==> capsule_protocol == Some(seq![0x3fu8, 0x31]),
        helpers::sfv_bool_bytes(asks_for_capsules(capsule_protocol)) == if capsule_protocol == Some(
            seq![0x3fu8, 0x31],
        ) {
            seq![0x3fu8, 0x31]
        } else {
            seq![0x3fu8, 0x30]
        },
{
}

/// A capsule is a zero byte, the length of what follows, a zero byte and the UDP payload.
pub proof fn law_capsule_layout(udp_payload: Seq<u8>)
    ensures
        capsule_bytes(udp_payload) == seq![0u8] + varint::encode(udp_payload.len() + 1) + seq![0u8]
            + udp_payload,
        udp_payload.len() < 63 ==> capsule_bytes(udp_payload) == seq![
            0u8,
            (udp_payload.len() + 1) as u8,
            0u8,
        ] + udp_payload,
{
    varint::law_small_values(0, Seq::empty());
    if udp_payload.len() < 63 {
        varint::law_small_values(udp_payload.len() + 1, Seq::empty());
        assert(capsule_bytes(udp_payload) =~= seq![0u8, (udp_payload.len() + 1) as u8, 0u8]
            + udp_payload);
    }
}

/// The first byte of a capsule is its type: 0 is read on from, another one below 64 is refused as
/// that type, and any other starts a type that is too long. No payload comes of it.
pub proof fn law_capsule_type(deframer: DeframerView, byte: u8)
    requires
        deframer.state is Type,
    ensures
        ({
            let after = deframer.run(seq![byte]);
            &&& byte == 0 ==> after.outcome() is Ok
            &&& 0 < byte < 64 ==> after.outcome() == Err::<(), _>(
                CapsuleError::UnsupportedType(byte as u64),
            )
            &&& byte >= 64 ==> after.outcome() == Err::<(), _>(CapsuleError::LongType)
            &&& after.payloads == deframer.payloads
        }),
{
    lemma_run_first(deframer, seq![byte]);
    if byte < 64 {
        varint::law_small_values(byte as nat, Seq::empty());
        assert(seq![byte] + Seq::<u8>::empty() =~= seq![byte]);
    }
}

/// However its length and its context ID are written, a capsule of type 0 hands out what follows
/// the context ID, where that is 0. Another context ID is refused, and so is a value that ends
/// before its context ID does. Up to the last byte of the value nothing is handed out.
pub proof fn law_capsule_is_read(deframer: DeframerView, length_bytes: Seq<u8>, value: Seq<u8>)
    requires
        deframer.state is Type,
        varint::decode(length_bytes) == Some((value.len(), length_bytes.len())),
        value.len() > 0,
    ensures
        ({
            let after = deframer.run(seq![0u8] + length_bytes + value);
            match varint::decode(value) {
                Some((id, size)) => if id == 0 {
                    &&& after.state is Type
                    &&& after.payloads == deframer.payloads.push(value.skip(size as int))
                } else {
                    &&& after.outcome() == Err::<(), _>(CapsuleError::UnknownContextId(id as u64))
                    &&& after.payloads == deframer.payloads
                },
                None => {
                    &&& after.outcome() == Err::<(), _>(CapsuleError::MissingContextId)
                    &&& after.payloads == deframer.payloads
                },
            }
        }),
        forall|n: int|
            0 <= n < value.len() ==> {
                let part = deframer.run(#[trigger] capsule_part(length_bytes, value, n));
                part.outcome() is Ok && part.payloads == deframer.payloads
            },
{
    lemma_run_sized(deframer, length_bytes);
    let sized = deframer.run(seq![0u8] + length_bytes);
    law_run_chunks(deframer, seq![0u8] + length_bytes, value);
    lemma_run_complete_value(sized, value.len(), Seq::empty(), value);
    assert(Seq::<u8>::empty() + value =~= value);
    assert forall|n: int| 0 <= n < value.len() implies {
        let part = deframer.run(#[trigger] capsule_part(length_bytes, value, n));
        part.outcome() is Ok && part.payloads == deframer.payloads
    } by {
        law_run_chunks(deframer, seq![0u8] + length_bytes, value.take(n));
        lemma_run_partial_value(sized, value.len(), Seq::empty(), value.take(n));
    }
}

/// A capsule of type 0, up to the byte number `n` of its value.
pub open spec fn capsule_part(length_bytes: Seq<u8>, value: Seq<u8>, n: int) -> Seq<u8> {
    seq![0u8] + length_bytes + value.take(n)
}

/// A capsule of length 0 has no context ID and is refused as soon as anything follows it.
pub proof fn law_empty_capsule_is_refused(
    deframer: DeframerView,
    length_bytes: Seq<u8>,
    rest: Seq<u8>,
)
    requires
        deframer.state is Type,
        varint::decode(length_bytes) == Some((0nat, length_bytes.len())),
        rest.len() > 0,
    ensures
        deframer.run(seq![0u8] + length_bytes).outcome() is Ok,
        deframer.run(seq![0u8] + length_bytes + rest).outcome() == Err::<(), _>(
            CapsuleError::MissingContextId,
        ),
        deframer.run(seq![0u8] + length_bytes + rest).payloads == deframer.payloads,
{
    lemma_run_sized(deframer, length_bytes);
    law_run_chunks(deframer, seq![0u8] + length_bytes, rest);
    lemma_run_empty_value(deframer.run(seq![0u8] + length_bytes), rest);
}

proof fn lemma_run_sized(deframer: DeframerView, length_bytes: Seq<u8>)
    requires
        deframer.state is Type,
        varint::decode(length_bytes) matches Some((_, size)) && size == length_bytes.len(),
    ensures
        deframer.run(seq![0u8] + length_bytes) == (DeframerView {
            state: CapsuleState::Value {
                length: (varint::decode(length_bytes)->0).0,
                received: Seq::empty(),
            },
            ..deframer
        }),
{
    varint::law_small_values(0, Seq::empty());
    assert(seq![0u8] + Seq::<u8>::empty() =~= seq![0u8]);
    lemma_run_first(deframer, seq![0u8]);
    let typed = deframer.run(seq![0u8]);
    law_run_chunks(deframer, seq![0u8], length_bytes);
    assert(Seq::<u8>::empty() + length_bytes =~= length_bytes);
    assert(length_bytes.take(length_bytes.len() as int) =~= length_bytes);
    lemma_run_complete_length(typed, Seq::empty(), length_bytes);
}

/// The payloads that wait to be taken neither change what is read nor are changed by it: whatever
/// comes in adds payloads behind them, the same as it would add to none.
pub proof fn law_payloads_are_added_behind(deframer: DeframerView, data: Seq<u8>)
    ensures
        ({
            let fresh = DeframerView { payloads: Seq::empty(), ..deframer };
            &&& deframer.run(data).state == fresh.run(data).state
            &&& deframer.run(data).payloads == deframer.payloads + fresh.run(data).payloads
        }),
    decreases data.len(),
{
    let fresh = DeframerView { payloads: Seq::empty(), ..deframer };
    if data.len() == 0 {
        assert(deframer.payloads + Seq::<Seq<u8>>::empty() =~= deframer.payloads);
    } else {
        law_payloads_are_added_behind(deframer, data.drop_last());
        let added = fresh.run(data.drop_last()).payloads;
        assert forall|payload: Seq<u8>| #[trigger]
            (deframer.payloads + added).push(payload) == deframer.payloads + added.push(
            payload,
        ) by {
            assert((deframer.payloads + added).push(payload) =~= deframer.payloads + added.push(
                payload,
            ));
        }
    }
}

} // verus!
