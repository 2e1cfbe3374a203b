//! The OPT pseudo-record and its wire-layout specification.

use vstd::prelude::*;
use crate::wire::{be16, Cursor, WireError};

verus! {

/// An OPT _(options)_ pseudo-record, used to extend the DNS protocol with
/// additional flags and room for larger messages (EDNS, RFC 6891).
///
/// Unlike the other record types, which return data about a domain name,
/// the OPT record carries metadata about the client or server itself. It
/// re-purposes the `class` and `TTL` fields of a standard record, so the
/// parser has to switch to [`OPT::read`] as soon as the record type is
/// detected, instead of going through the generic record codec.
#[derive(PartialEq, Debug, Clone)]
pub struct OPT {
    /// The maximum size of a UDP packet that the client supports.
    pub udp_payload_size: u16,

    /// The bits that form an extended rcode when non-zero.
    pub higher_bits: u8,

    /// The version number of the DNS extension mechanism.
    pub edns0_version: u8,

    /// Sixteen bits worth of flags.
    pub flags: u16,

    /// The payload of the OPT record.
    pub data: Vec<u8>,
}

/// The mathematical value of an [`OPT`] record: its four scalar fields and
/// the payload as a sequence of bytes.
pub struct OptView {
    pub udp_payload_size: u16,
    pub higher_bits: u8,
    pub edns0_version: u8,
    pub flags: u16,
    pub data: Seq<u8>,
}

impl View for OPT {
    type V = OptView;

    open spec fn view(&self) -> OptView {
        OptView {
            udp_payload_size: self.udp_payload_size,
            higher_bits: self.higher_bits,
            edns0_version: self.edns0_version,
            flags: self.flags,
            data: self.data@,
        }
    }
}

/// The serialized form of an OPT record: the four scalar fields big-endian,
/// then a two-byte length prefix holding the payload's element count, then
/// the payload bytes verbatim. Meaningful for payloads of at most 65535
/// bytes, the most the prefix can express.
pub open spec fn spec_encode(o: OptView) -> Seq<u8> {
    seq![
        (o.udp_payload_size / 256) as u8,
        (o.udp_payload_size % 256) as u8,
        o.higher_bits,
        o.edns0_version,
        (o.flags / 256) as u8,
        (o.flags % 256) as u8,
        (o.data.len() / 256) as u8,
        (o.data.len() % 256) as u8,
    ] + o.data
}

/// Whether `s` begins with a complete OPT record body: an eight-byte
/// header, and at least as many further bytes as its length prefix asks
/// for.
pub open spec fn decode_ok(s: Seq<u8>) -> bool {
    s.len() >= 8 && s.len() >= 8 + be16(s[6], s[7])
}

/// The record described by the front of `s`; meaningful when
/// [`decode_ok`] holds of `s`.
pub open spec fn spec_decoded(s: Seq<u8>) -> OptView {
    OptView {
        udp_payload_size: be16(s[0], s[1]),
        higher_bits: s[2],
        edns0_version: s[3],
        flags: be16(s[4], s[5]),
        data: s.subrange(8, 8 + be16(s[6], s[7]) as int),
    }
}

/// How many bytes of `s` a decode consumes before returning: the whole
/// record on success, and on a shortage every complete field read before
/// the one that ran out — all of `s` when the shortage strikes inside the
/// payload.
pub open spec fn spec_consumed(s: Seq<u8>) -> int {
    if s.len() < 2 {
        0
    } else if s.len() < 3 {
        2
    } else if s.len() < 4 {
        3
    } else if s.len() < 6 {
        4
    } else if s.len() < 8 {
        6
    } else if s.len() >= 8 + be16(s[6], s[7]) {
        8 + be16(s[6], s[7])
    } else {
        s.len() as int
    }
}

/// Length-prefix fidelity: in every encoding this codec can produce, the
/// two-byte length field equals the number of payload bytes that follow
/// it, and the encoding is exactly that many bytes past its eight-byte
/// header.
pub proof fn lemma_length_prefix(o: OptView)
    requires
        o.data.len() <= 0xFFFF,
    ensures
        spec_encode(o).len() == 8 + o.data.len(),
        be16(spec_encode(o)[6], spec_encode(o)[7]) == o.data.len(),
{
}

/// Round trip: decoding an encoding succeeds, yields the record that was
/// encoded, and consumes the encoding whole.
pub proof fn lemma_round_trip(o: OptView)
    requires
        o.data.len() <= 0xFFFF,
    ensures
        decode_ok(spec_encode(o)),
        spec_decoded(spec_encode(o)) == o,
        spec_consumed(spec_encode(o)) == spec_encode(o).len(),
{
    let e = spec_encode(o);
    lemma_length_prefix(o);
    assert(e.subrange(8, 8 + be16(e[6], e[7]) as int) =~= o.data);
}

/// Truncation: no proper prefix of an encoding decodes; every one fails
/// for a shortage of bytes.
pub proof fn lemma_truncation(o: OptView, p: Seq<u8>)
    requires
        o.data.len() <= 0xFFFF,
        p.len() < spec_encode(o).len(),
        p == spec_encode(o).subrange(0, p.len() as int),
    ensures
        !decode_ok(p),
{
    let e = spec_encode(o);
    lemma_length_prefix(o);
    if p.len() >= 8 {
        assert(p[6] == e[6] && p[7] == e[7]);
    }
}

/// Empty input: decoding an empty byte source fails, consuming nothing.
pub proof fn lemma_empty_input()
    ensures
        !decode_ok(Seq::<u8>::empty()),
        spec_consumed(Seq::<u8>::empty()) == 0,
{
}

impl OPT {
    /// The record type number associated with OPT.
    pub const RR_TYPE: u16 = 41;

    /// Reads from the given cursor to parse an OPT record.
    ///
    /// The cursor must stand at the first byte after the record type: the
    /// six bytes that would hold `class` and `TTL` for a standard record
    /// carry the payload size, rcode bits, version and flags here, and are
    /// followed by the length-prefixed payload.
    ///
    /// Succeeds exactly when the unconsumed bytes hold a complete record
    /// body ([`decode_ok`]), returning the record they describe; any
    /// shortage, the empty input included, returns [`WireError::IO`].
    /// Either way the cursor advances by exactly the bytes of the fields
    /// that were read in full before the end of the record or the
    /// shortage ([`spec_consumed`]).
    pub fn read(c: &mut Cursor) -> (r: Result<OPT, WireError>)
        requires
            old(c).wf(),
        ensures
            final(c).wf(),
            final(c)@ == old(c)@,
            final(c).spec_pos() == old(c).spec_pos() + spec_consumed(old(c).remaining()),
            decode_ok(old(c).remaining()) ==> (
                r matches Ok(o) && o@ == spec_decoded(old(c).remaining())
            ),
            !decode_ok(old(c).remaining()) ==> r == Err::<OPT, WireError>(WireError::IO),
    {
        let ghost rem = old(c).remaining();
        let udp_payload_size = match c.read_u16_be() {
            Ok(v) => v,
            Err(_) => { return Err(WireError::IO); },
        };
        let higher_bits = match c.read_u8() {
            Ok(v) => v,
            Err(_) => { return Err(WireError::IO); },
        };
        let edns0_version = match c.read_u8() {
            Ok(v) => v,
            Err(_) => { return Err(WireError::IO); },
        };
        let flags = match c.read_u16_be() {
            Ok(v) => v,
            Err(_) => { return Err(WireError::IO); },
        };
        let data_length = match c.read_u16_be() {
            Ok(v) => v,
            Err(_) => { return Err(WireError::IO); },
        };

        let mut data: Vec<u8> = Vec::new();
        let mut i: u16 = 0;
        while i < data_length
            invariant
                i <= data_length,
                old(c).wf(),
                c.wf(),
                c@ == old(c)@,
                rem == old(c).remaining(),
                rem.len() >= 8,
                c.spec_pos() == old(c).spec_pos() + 8 + i,
                data@ == rem.subrange(8, 8 + i as int),
                udp_payload_size == be16(rem[0], rem[1]),
                higher_bits == rem[2],
                edns0_version == rem[3],
                flags == be16(rem[4], rem[5]),
                data_length == be16(rem[6], rem[7]),
            decreases data_length - i,
        {
            let b = match c.read_u8() {
                Ok(v) => v,
                Err(_) => { return Err(WireError::IO); },
            };
            data.push(b);
            proof {
                assert(data@ =~= rem.subrange(8, 8 + (i + 1)));
            }
            i = i + 1;
        }

        proof {
            assert(data@ =~= spec_decoded(rem).data);
        }
        Ok(OPT { udp_payload_size, higher_bits, edns0_version, flags, data })
    }

    /// Serialises this OPT record into a vector of bytes, laid out as
    /// [`spec_encode`] describes.
    ///
    /// This is necessary for OPT records to be sent in the Additional
    /// section of requests. The caller must not hand over a payload longer
    /// than the two-byte length prefix can express. Writing into a fresh
    /// vector cannot fail, so the result is always `Ok`; the `Result`
    /// stands for the sink failure an out-of-memory condition would be.
    pub fn to_bytes(&self) -> (r: Result<Vec<u8>, WireError>)
        requires
            self.data@.len() <= 0xFFFF,
        ensures
            r matches Ok(bytes) && bytes@ == spec_encode(self@),
    {
        let ghost e = spec_encode(self@);
        let mut bytes: Vec<u8> = Vec::with_capacity(32);

        bytes.push((self.udp_payload_size / 256) as u8);
        bytes.push((self.udp_payload_size % 256) as u8);
        bytes.push(self.higher_bits);
        bytes.push(self.edns0_version);
        bytes.push((self.flags / 256) as u8);
        bytes.push((self.flags % 256) as u8);
        let len16: u16 = self.data.len() as u16;
        bytes.push((len16 / 256) as u8);
        bytes.push((len16 % 256) as u8);
        proof {
            assert(bytes@ =~= e.subrange(0, 8));
        }

        let mut i: usize = 0;
        while i < self.data.len()
            invariant
                i <= self.data@.len(),
                e == spec_encode(self@),
                e.len() == 8 + self.data@.len(),
                bytes@ == e.subrange(0, 8 + i as int),
            decreases self.data@.len() - i,
        {
            bytes.push(self.data[i]);
            proof {
                assert(e[8 + i] == self.data@[i as int]);
                assert(bytes@ =~= e.subrange(0, 8 + (i + 1)));
            }
            i = i + 1;
        }

        proof {
            assert(bytes@ =~= e);
        }
        Ok(bytes)
    }
}

} // verus!
