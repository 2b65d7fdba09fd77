//! HTTP Datagrams that carry UDP payloads (RFC 9298, Section 5).

use vstd::prelude::*;

use crate::frames::{OutboundFrame, OutboundFrameView};
use crate::varint;
use crate::varint::{get_varint, put_bytes, put_varint};
use crate::{CONTEXT_ID_VARINT_LEN, UDP_PAYLOAD_CONTEXT_ID};

verus! {

/// The bytes of an HTTP Datagram that carries a UDP payload: the context ID, then the payload.
pub open spec fn dgram_bytes(udp_payload: Seq<u8>) -> Seq<u8> {
    varint::encode(UDP_PAYLOAD_CONTEXT_ID as nat) + udp_payload
}

/// The UDP payload of an HTTP Datagram: what follows the context ID where that is the one of UDP
/// payloads, all of the datagram otherwise.
pub open spec fn dgram_payload(dgram: Seq<u8>) -> Seq<u8> {
    match varint::decode(dgram) {
        Some((context_id, size)) => if context_id == UDP_PAYLOAD_CONTEXT_ID {
            dgram.skip(size as int)
        } else {
            dgram
        },
        None => dgram,
    }
}

/// Produces an HTTP/3 datagram starting with a context ID of 0 (i.e., for UDP payloads).
/// Whoever sends it puts the flow ID (quarter stream ID) in front.
/// See RFC 9298, Section 4.
pub fn proxied_dgram(flow_id: u64, udp_payload: &[u8]) -> (frame: OutboundFrame)
    requires
        udp_payload@.len() + CONTEXT_ID_VARINT_LEN <= usize::MAX,
    ensures
        frame@ == OutboundFrameView::Datagram(dgram_bytes(udp_payload@), flow_id),
{
    let mut dgram: Vec<u8> = vec![0u8; udp_payload.len() + CONTEXT_ID_VARINT_LEN];
    proof {
        varint::lemma_encode_size(UDP_PAYLOAD_CONTEXT_ID as nat);
    }
    let off: usize = put_varint(dgram.as_mut_slice(), 0, UDP_PAYLOAD_CONTEXT_ID).expect(
        "Failed to write the context ID as a varint",
    );
    let written: usize = put_bytes(dgram.as_mut_slice(), off, udp_payload).expect(
        "Failed to write the UDP payload",
    );
    dgram.truncate(written);
    assert(dgram@ =~= dgram_bytes(udp_payload@));

    OutboundFrame::Datagram(dgram, flow_id)
}

/// Where the UDP payload of an HTTP/3 datagram starts.
fn payload_offset(dgram: &[u8]) -> (off: usize)
    ensures
        off <= dgram@.len(),
        dgram_payload(dgram@) == dgram@.skip(off as int),
{
    assert(dgram@.skip(0) =~= dgram@);
    match get_varint(dgram) {
        Some((context_id, read)) => if context_id == UDP_PAYLOAD_CONTEXT_ID {
            read
        } else {
            0
        },
        None => 0,
    }
}

/// Retrieves the UDP payload from an HTTP/3 datagram starting with a context ID of 0.
pub fn retrieve_dgram(udp_payload: &mut [u8]) -> (payload: &mut [u8])
    ensures
        payload@ == dgram_payload(old(udp_payload)@),
        final(udp_payload)@ == old(udp_payload)@.take(
            old(udp_payload)@.len() - payload@.len(),
        ) + final(payload)@,
{
    let read: usize = payload_offset(udp_payload);
    let (_, payload) = udp_payload.split_at_mut(read);
    payload
}

/// A datagram that is produced for a UDP payload hands it out again.
pub proof fn law_dgram_roundtrip(udp_payload: Seq<u8>)
    ensures
        dgram_payload(dgram_bytes(udp_payload)) == udp_payload,
{
    varint::lemma_encode_size(UDP_PAYLOAD_CONTEXT_ID as nat);
    varint::law_roundtrip(UDP_PAYLOAD_CONTEXT_ID as nat, udp_payload);
    assert(dgram_bytes(udp_payload).skip(varint::size_of(UDP_PAYLOAD_CONTEXT_ID as nat) as int)
        =~= udp_payload);
}

/// No datagram is longer than its payload by more than a context ID, and none is shorter.
pub proof fn law_dgram_payload_suffix(dgram: Seq<u8>)
    ensures
        dgram_payload(dgram).len() <= dgram.len() <= dgram_payload(dgram).len() + 8,
        dgram_payload(dgram) == dgram.skip(dgram.len() - dgram_payload(dgram).len()),
{
    varint::law_decode_bound(dgram);
    assert(dgram.skip(0) =~= dgram);
}

/// A datagram that carries a UDP payload is one zero byte longer than the payload, at its front.
pub proof fn law_dgram_layout(udp_payload: Seq<u8>)
    ensures
        dgram_bytes(udp_payload) == seq![0u8] + udp_payload,
{
    varint::law_small_values(0, Seq::empty());
}

/// A datagram hands out what follows its context ID where that is 0, however it is written, and is
/// handed out whole where it has another context ID or none.
pub proof fn law_dgram_payload_follows_context_id(
    context_id: Seq<u8>,
    id: nat,
    rest: Seq<u8>,
    dgram: Seq<u8>,
)
    requires
        varint::decode(context_id) == Some((id, context_id.len())),
    ensures
        id == 0 ==> dgram_payload(context_id + rest) == rest,
        id != 0 ==> dgram_payload(context_id + rest) == context_id + rest,
        varint::decode(dgram) is None ==> dgram_payload(dgram) == dgram,
        dgram.len() > 0 && dgram[0] == 0 ==> dgram_payload(dgram) == dgram.skip(1),
        dgram.len() > 0 && 0 < dgram[0] < 64 ==> dgram_payload(dgram) == dgram,
{
    varint::law_prefix(context_id, rest);
    assert((context_id + rest).skip(context_id.len() as int) =~= rest);
    if dgram.len() > 0 && dgram[0] < 64 {
        varint::law_small_values(dgram[0] as nat, dgram.skip(1));
        assert(seq![dgram[0]] + dgram.skip(1) =~= dgram);
    }
}

} // verus!
