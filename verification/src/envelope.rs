//! The envelope that carries a fragment in one datagram: packet kind,
//! session id, sequence number and payload length, little-endian, then the
//! payload.

use vstd::prelude::*;
use vstd::bytes::{
    spec_u16_from_le_bytes, spec_u16_to_le_bytes, spec_u32_from_le_bytes, spec_u32_to_le_bytes,
    u16_from_le_bytes, u16_to_le_bytes, u32_from_le_bytes, u32_to_le_bytes,
    lemma_auto_spec_u16_to_from_le_bytes, lemma_auto_spec_u32_to_from_le_bytes,
};
use vstd::slice::slice_subrange;
use crate::errors::Error;

verus! {

/// Bytes of an envelope before its payload.
pub const ENVELOPE_HEADER_LEN: usize = 11;

/// The longest payload whose length the header can state.
pub const MAX_PAYLOAD_LEN: usize = 0xFFFF;

/// One datagram of the reliable channel.
#[derive(Debug, PartialEq, Eq)]
pub struct Envelope {
    /// Data, acknowledgement or control, as the peer numbers them.
    pub kind: u8,
    pub session_id: u32,
    pub sequence: u32,
    pub payload: Vec<u8>,
}

/// An envelope as plain values.
pub struct EnvelopeView {
    pub kind: u8,
    pub session_id: u32,
    pub sequence: u32,
    pub payload: Seq<u8>,
}

impl View for Envelope {
    type V = EnvelopeView;

    open spec fn view(&self) -> EnvelopeView {
        EnvelopeView {
            kind: self.kind,
            session_id: self.session_id,
            sequence: self.sequence,
            payload: self.payload@,
        }
    }
}

/// The datagram of an envelope whose payload fits.
pub open spec fn envelope_bytes(envelope: EnvelopeView) -> Seq<u8> {
    seq![envelope.kind] + spec_u32_to_le_bytes(envelope.session_id) + spec_u32_to_le_bytes(
        envelope.sequence,
    ) + spec_u16_to_le_bytes(envelope.payload.len() as u16) + envelope.payload
}

/// The envelope that a datagram holds, if it is one: it has a whole header,
/// and as many bytes after it as the header states.
pub open spec fn envelope_of(bytes: Seq<u8>) -> Option<EnvelopeView> {
    if bytes.len() >= ENVELOPE_HEADER_LEN && spec_u16_from_le_bytes(bytes.subrange(9, 11))
        == bytes.len() - ENVELOPE_HEADER_LEN {
        Some(
            EnvelopeView {
                kind: bytes[0],
                session_id: spec_u32_from_le_bytes(bytes.subrange(1, 5)),
                sequence: spec_u32_from_le_bytes(bytes.subrange(5, 9)),
                payload: bytes.subrange(ENVELOPE_HEADER_LEN as int, bytes.len() as int),
            },
        )
    } else {
        None
    }
}

/// Reading a written envelope gives the envelope back, and writing a read
/// datagram gives the datagram back.
pub proof fn lemma_envelope_roundtrip(envelope: EnvelopeView, bytes: Seq<u8>)
    ensures
        envelope.payload.len() <= MAX_PAYLOAD_LEN ==> envelope_of(envelope_bytes(envelope))
            == Some(envelope),
        envelope_of(bytes) is Some ==> envelope_bytes(envelope_of(bytes).unwrap()) == bytes,
{
    lemma_auto_spec_u16_to_from_le_bytes();
    lemma_auto_spec_u32_to_from_le_bytes();
    if envelope.payload.len() <= MAX_PAYLOAD_LEN {
        let b = envelope_bytes(envelope);
        let declared = envelope.payload.len() as u16;
        assert(b.len() == ENVELOPE_HEADER_LEN + envelope.payload.len());
        assert(b.subrange(1, 5) =~= spec_u32_to_le_bytes(envelope.session_id));
        assert(b.subrange(5, 9) =~= spec_u32_to_le_bytes(envelope.sequence));
        assert(b.subrange(9, 11) =~= spec_u16_to_le_bytes(declared));
        assert(b.subrange(ENVELOPE_HEADER_LEN as int, b.len() as int) =~= envelope.payload);
        assert(b[0] == envelope.kind);
    }
    if envelope_of(bytes) is Some {
        let e = envelope_of(bytes).unwrap();
        assert(e.payload.len() as u16 == spec_u16_from_le_bytes(bytes.subrange(9, 11)));
        assert(envelope_bytes(e) =~= bytes) by {
            assert(spec_u32_to_le_bytes(e.session_id) == bytes.subrange(1, 5));
            assert(spec_u32_to_le_bytes(e.sequence) == bytes.subrange(5, 9));
            assert(spec_u16_to_le_bytes(e.payload.len() as u16) == bytes.subrange(9, 11));
        }
    }
}

/// Writes an envelope as a datagram. A payload too long for the header's
/// length field cannot be sent in one datagram, and `None` is returned.
pub fn encode_envelope(envelope: &Envelope) -> (datagram: Option<Vec<u8>>)
    ensures
        match datagram {
            Some(bytes) => envelope.payload@.len() <= MAX_PAYLOAD_LEN && bytes@ == envelope_bytes(
                envelope@,
            ),
            None => envelope.payload@.len() > MAX_PAYLOAD_LEN,
        },
{
    let len: usize = envelope.payload.len();
    if len > MAX_PAYLOAD_LEN {
        return None;
    }
    let mut out: Vec<u8> = Vec::new();
    out.push(envelope.kind);
    let mut session = u32_to_le_bytes(envelope.session_id);
    out.append(&mut session);
    let mut sequence = u32_to_le_bytes(envelope.sequence);
    out.append(&mut sequence);
    let mut declared = u16_to_le_bytes(len as u16);
    out.append(&mut declared);
    let ghost header = out@;
    let mut i: usize = 0;
    while i < len
        invariant
            len == envelope.payload@.len(),
            i <= len,
            out@ =~= header + envelope.payload@.take(i as int),
        decreases len - i,
    {
        out.push(envelope.payload[i]);
        i += 1;
    }
    assert(envelope.payload@.take(len as int) =~= envelope.payload@);
    assert(out@ =~= envelope_bytes(envelope@));
    Some(out)
}

/// Reads a datagram. It is refused as a protocol error when it is shorter
/// than a header or when its length is not the one its header states.
pub fn decode_envelope(bytes: &[u8]) -> (envelope: Result<Envelope, Error>)
    ensures
        match envelope {
            Ok(envelope) => envelope_of(bytes@) == Some(envelope@),
            Err(e) => e == Error::ProtocolError && envelope_of(bytes@) is None,
        },
{
    let total: usize = bytes.len();
    if total < ENVELOPE_HEADER_LEN {
        return Err(Error::ProtocolError);
    }
    let declared: u16 = u16_from_le_bytes(slice_subrange(bytes, 9, 11));
    if declared as usize != total - ENVELOPE_HEADER_LEN {
        return Err(Error::ProtocolError);
    }
    let kind: u8 = bytes[0];
    let session_id: u32 = u32_from_le_bytes(slice_subrange(bytes, 1, 5));
    let sequence: u32 = u32_from_le_bytes(slice_subrange(bytes, 5, 9));
    let mut payload: Vec<u8> = Vec::new();
    let mut i: usize = ENVELOPE_HEADER_LEN;
    while i < total
        invariant
            total == bytes@.len(),
            ENVELOPE_HEADER_LEN <= i <= total,
            payload@ =~= bytes@.subrange(ENVELOPE_HEADER_LEN as int, i as int),
        decreases total - i,
    {
        payload.push(bytes[i]);
        i += 1;
    }
    Ok(Envelope { kind, session_id, sequence, payload })
}

} // verus!
