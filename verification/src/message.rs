//! The wire message and its codec.
//!
//! A datagram is 40 bytes: the index (8 bytes), the send time (16 bytes) and
//! the integrity hash (16 bytes), each little-endian, in that order. Bytes
//! after the fortieth are ignored by the decoder. The split-socket variant
//! puts a 2-byte little-endian return port in front of the same 40 bytes.
use crate::digits::{decimal_digits, u128_to_decimal};
use crate::endian::{
    le_bytes, le_decode, le_encode, le_value, lemma_le_bytes_len, lemma_le_bytes_of_value,
    lemma_le_value_bound, lemma_le_value_of_bytes, lemma_pow256_widths,
};
use crate::sha::{sha256, sha256_digest};
use vstd::prelude::*;
use vstd::slice::slice_subrange;

verus! {

/// Length of an encoded message.
pub const WIRE_LEN: usize = 40;

/// Length of the return-port field of the split-socket variant.
pub const RETURN_PORT_LEN: usize = 2;

/// The unit exchanged on the network.
#[derive(Clone, Copy, Debug, PartialEq, Eq, Hash, Structural)]
pub struct RawMessage {
    pub idx: u64,
    pub timestamp: u128,
    pub hash: u128,
}

/// What is hashed: the index in decimal, directly followed by the send time
/// in decimal.
pub open spec fn hash_input(idx: u64, timestamp: u128) -> Seq<u8> {
    decimal_digits(idx as nat) + decimal_digits(timestamp as nat)
}

/// The integrity hash of a probe: the first 16 bytes of the SHA-256 digest of
/// `hash_input`, read as a little-endian number.
pub open spec fn message_hash(idx: u64, timestamp: u128) -> u128 {
    le_value(sha256(hash_input(idx, timestamp)).subrange(0, 16)) as u128
}

/// The message that `RawMessage::build` makes.
pub open spec fn built_message(idx: u64, timestamp: u128) -> RawMessage {
    RawMessage { idx, timestamp, hash: message_hash(idx, timestamp) }
}

/// The 40 bytes of a message.
pub open spec fn wire_bytes(msg: RawMessage) -> Seq<u8> {
    le_bytes(msg.idx as nat, 8) + le_bytes(msg.timestamp as nat, 16) + le_bytes(
        msg.hash as nat,
        16,
    )
}

/// The message at the front of `bytes`, if there are at least 40 of them.
pub open spec fn parse_wire(bytes: Seq<u8>) -> Option<RawMessage> {
    if bytes.len() < 40 {
        None
    } else {
        Some(
            RawMessage {
                idx: le_value(bytes.subrange(0, 8)) as u64,
                timestamp: le_value(bytes.subrange(8, 24)) as u128,
                hash: le_value(bytes.subrange(24, 40)) as u128,
            },
        )
    }
}

/// The bytes of the split-socket variant: the return port, then the message.
pub open spec fn prefixed_wire_bytes(port: u16, msg: RawMessage) -> Seq<u8> {
    le_bytes(port as nat, 2) + wire_bytes(msg)
}

/// The return port at the front of a datagram of the split-socket variant.
pub open spec fn parse_return_port(bytes: Seq<u8>) -> Option<u16> {
    if bytes.len() < 2 {
        None
    } else {
        Some(le_value(bytes.subrange(0, 2)) as u16)
    }
}

/// The return port and the message of a datagram of the split-socket variant.
pub open spec fn parse_prefixed_wire(bytes: Seq<u8>) -> Option<(u16, RawMessage)> {
    if bytes.len() < 42 {
        None
    } else {
        Some(
            (
                le_value(bytes.subrange(0, 2)) as u16,
                parse_wire(bytes.subrange(2, bytes.len() as int))->0,
            ),
        )
    }
}

impl RawMessage {
    /// Whether the hash field is the one that index and send time call for.
    pub open spec fn hash_ok(self) -> bool {
        self.hash == message_hash(self.idx, self.timestamp)
    }

    /// A fresh probe with its integrity hash filled in.
    pub fn build(idx: u64, timestamp: u128) -> (msg: Self)
        ensures
            msg == built_message(idx, timestamp),
    {
        let mut msg = RawMessage { idx, timestamp, hash: 0 };
        msg.set_hash();
        msg
    }

    /// Encodes the message as its 40 wire bytes.
    pub fn to_bytes(&self) -> (out: Vec<u8>)
        ensures
            out@ == wire_bytes(*self),
            out@.len() == 40,
    {
        let mut out = le_encode(self.idx as u128, 8);
        let mut timestamp = le_encode(self.timestamp, 16);
        let mut hash = le_encode(self.hash, 16);
        out.append(&mut timestamp);
        out.append(&mut hash);
        proof {
            lemma_le_bytes_len(self.idx as nat, 8);
            lemma_le_bytes_len(self.timestamp as nat, 16);
            lemma_le_bytes_len(self.hash as nat, 16);
        }
        out
    }

    /// Decodes the message at the front of a datagram. A datagram shorter than
    /// 40 bytes holds none; no other input is refused.
    pub fn from_bytes(bytes: Vec<u8>) -> (out: Option<Self>)
        ensures
            out == parse_wire(bytes@),
    {
        if bytes.len() < WIRE_LEN {
            return None;
        }
        let all = bytes.as_slice();
        proof {
            lemma_le_value_bound(bytes@.subrange(0, 8));
            lemma_pow256_widths();
        }
        let idx = le_decode(slice_subrange(all, 0, 8)) as u64;
        let timestamp = le_decode(slice_subrange(all, 8, 24));
        let hash = le_decode(slice_subrange(all, 24, 40));
        Some(RawMessage { idx, timestamp, hash })
    }

    /// Encodes the message for the split-socket variant, with the port that
    /// the echo is to come back to in front.
    pub fn to_bytes_with_return_port(&self, port: u16) -> (out: Vec<u8>)
        ensures
            out@ == prefixed_wire_bytes(port, *self),
            out@.len() == 42,
    {
        let mut out = le_encode(port as u128, 2);
        let mut body = self.to_bytes();
        out.append(&mut body);
        proof {
            lemma_le_bytes_len(port as nat, 2);
        }
        out
    }

    /// Decodes a datagram of the split-socket variant. A datagram shorter than
    /// 42 bytes holds none.
    pub fn from_bytes_with_return_port(bytes: Vec<u8>) -> (out: Option<(u16, Self)>)
        ensures
            out == parse_prefixed_wire(bytes@),
    {
        if bytes.len() < RETURN_PORT_LEN + WIRE_LEN {
            return None;
        }
        let all = bytes.as_slice();
        proof {
            lemma_le_value_bound(bytes@.subrange(0, 2));
            lemma_le_value_bound(bytes@.subrange(2, 10));
            lemma_pow256_widths();
        }
        let port = le_decode(slice_subrange(all, 0, 2)) as u16;
        let idx = le_decode(slice_subrange(all, 2, 10)) as u64;
        let timestamp = le_decode(slice_subrange(all, 10, 26));
        let hash = le_decode(slice_subrange(all, 26, 42));
        proof {
            let body = bytes@.subrange(2, bytes@.len() as int);
            assert(body.subrange(0, 8) =~= bytes@.subrange(2, 10));
            assert(body.subrange(8, 24) =~= bytes@.subrange(10, 26));
            assert(body.subrange(24, 40) =~= bytes@.subrange(26, 42));
        }
        Some((port, RawMessage { idx, timestamp, hash }))
    }

    fn calc_hash(&self) -> (hash: u128)
        ensures
            hash == message_hash(self.idx, self.timestamp),
    {
        let mut data = u128_to_decimal(self.idx as u128);
        let mut timestamp = u128_to_decimal(self.timestamp);
        data.append(&mut timestamp);
        let digest = sha256_digest(data.as_slice());
        le_decode(slice_subrange(digest.as_slice(), 0, 16))
    }

    /// Recomputes the hash from index and send time and compares it with the
    /// one carried.
    pub fn check_hash(&self) -> (ok: bool)
        ensures
            ok == self.hash_ok(),
    {
        let hash = self.calc_hash();
        self.hash == hash
    }

    /// Fills in the hash that index and send time call for.
    pub fn set_hash(&mut self)
        ensures
            *final(self) == built_message(old(self).idx, old(self).timestamp),
    {
        self.hash = self.calc_hash();
    }
}

/// The return port at the front of a datagram of the split-socket variant.
pub fn return_port(payload: &[u8]) -> (port: Option<u16>)
    ensures
        port == parse_return_port(payload@),
{
    if payload.len() < RETURN_PORT_LEN {
        return None;
    }
    proof {
        lemma_le_value_bound(payload@.subrange(0, 2));
        lemma_pow256_widths();
    }
    Some(le_decode(slice_subrange(payload, 0, 2)) as u16)
}

/// Encoding and decoding are inverse: every message has exactly 40 wire
/// bytes, and decoding them gives the message back.
pub proof fn lemma_wire_round_trip(msg: RawMessage)
    ensures
        wire_bytes(msg).len() == 40,
        parse_wire(wire_bytes(msg)) == Some(msg),
{
    lemma_pow256_widths();
    lemma_le_bytes_len(msg.idx as nat, 8);
    lemma_le_bytes_len(msg.timestamp as nat, 16);
    lemma_le_bytes_len(msg.hash as nat, 16);
    lemma_le_value_of_bytes(msg.idx as nat, 8);
    lemma_le_value_of_bytes(msg.timestamp as nat, 16);
    lemma_le_value_of_bytes(msg.hash as nat, 16);
    let bytes = wire_bytes(msg);
    assert(bytes.subrange(0, 8) =~= le_bytes(msg.idx as nat, 8));
    assert(bytes.subrange(8, 24) =~= le_bytes(msg.timestamp as nat, 16));
    assert(bytes.subrange(24, 40) =~= le_bytes(msg.hash as nat, 16));
}

/// A built probe survives the wire and passes the integrity check: for every
/// index and send time, decoding the encoding of the built message gives an
/// equal message, whose hash is in order.
pub proof fn lemma_built_message_round_trips(idx: u64, timestamp: u128)
    ensures
        parse_wire(wire_bytes(built_message(idx, timestamp))) == Some(
            built_message(idx, timestamp),
        ),
        built_message(idx, timestamp).hash_ok(),
{
    lemma_wire_round_trip(built_message(idx, timestamp));
}

/// The split-socket variant is inverse too.
pub proof fn lemma_prefixed_wire_round_trip(port: u16, msg: RawMessage)
    ensures
        prefixed_wire_bytes(port, msg).len() == 42,
        parse_prefixed_wire(prefixed_wire_bytes(port, msg)) == Some((port, msg)),
        parse_return_port(prefixed_wire_bytes(port, msg)) == Some(port),
{
    lemma_pow256_widths();
    lemma_le_bytes_len(port as nat, 2);
    lemma_le_value_of_bytes(port as nat, 2);
    lemma_wire_round_trip(msg);
    let bytes = prefixed_wire_bytes(port, msg);
    assert(bytes.subrange(0, 2) =~= le_bytes(port as nat, 2));
    assert(bytes.subrange(2, bytes.len() as int) =~= wire_bytes(msg));
}

/// What damage to the index or the send time does to a built probe. Let
/// `received` be 40 bytes that carry the hash field of the probe built from
/// `idx` and `timestamp` untouched, but differ from its encoding somewhere in
/// the first 24 bytes (one flipped bit is such a difference). Then `received`
/// decodes to a message with another index or another send time and the old
/// hash, and the integrity check accepts that message only if the two
/// different (index, send time) pairs have the same hash.
pub proof fn lemma_corruption_is_caught_unless_hashes_collide(
    idx: u64,
    timestamp: u128,
    received: Seq<u8>,
)
    requires
        received.len() == 40,
        received.subrange(24, 40) == wire_bytes(built_message(idx, timestamp)).subrange(24, 40),
        received.subrange(0, 24) != wire_bytes(built_message(idx, timestamp)).subrange(0, 24),
    ensures
        parse_wire(received) is Some,
        parse_wire(received)->0.hash == message_hash(idx, timestamp),
        parse_wire(received)->0.idx != idx || parse_wire(received)->0.timestamp != timestamp,
        parse_wire(received)->0.hash_ok() <==> message_hash(
            parse_wire(received)->0.idx,
            parse_wire(received)->0.timestamp,
        ) == message_hash(idx, timestamp),
{
    lemma_pow256_widths();
    let sent = built_message(idx, timestamp);
    let got = parse_wire(received)->0;
    lemma_wire_round_trip(sent);
    let bytes = wire_bytes(sent);
    lemma_le_bytes_len(idx as nat, 8);
    lemma_le_bytes_len(timestamp as nat, 16);
    lemma_le_bytes_len(sent.hash as nat, 16);
    assert(bytes.subrange(24, 40) =~= le_bytes(sent.hash as nat, 16));
    assert(bytes.subrange(0, 24) =~= le_bytes(idx as nat, 8) + le_bytes(timestamp as nat, 16));
    lemma_le_value_of_bytes(sent.hash as nat, 16);
    assert(got.hash == sent.hash);
    if got.idx == idx && got.timestamp == timestamp {
        let front = received.subrange(0, 8);
        let middle = received.subrange(8, 24);
        lemma_le_value_bound(front);
        lemma_le_value_bound(middle);
        lemma_le_bytes_of_value(front);
        lemma_le_bytes_of_value(middle);
        assert(front == le_bytes(idx as nat, 8));
        assert(middle == le_bytes(timestamp as nat, 16));
        assert(received.subrange(0, 24) =~= front + middle);
        assert(false);
    }
}

} // verus!
