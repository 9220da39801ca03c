//! The wire codec: what a message looks like as bytes, and back.
//!
//! Nothing frames a message on the wire. A server writes the bytes of one
//! message in one write, and a client decodes one message from the bytes of
//! one read. Bytes after the first message of a read are dropped: the bus
//! relies on the transport handing over each write as one read.

use vstd::prelude::*;

verus! {

/// A type whose values can travel on the bus.
///
/// Both ends agree on the type beforehand; no tag travels with the bytes. An
/// implementation owes its users that `decode` gives back an equal value from
/// the bytes that `encode` made.
///
/// A verified implementation says what its bytes are: it gives `wire` and
/// `parse`, declares `obeys_wire_spec`, and proves `encode` and `decode`
/// against them. Of any other implementation nothing is assumed: the bus
/// promises of its `encode` and `decode` only what holds whatever they return.
pub trait BroadcastMessage: Sized + Clone + Send + Sync + 'static {
    /// Whether `wire` and `parse` say what `encode` and `decode` do.
    open spec fn obeys_wire_spec() -> bool {
        false
    }

    /// The bytes of this value, or `None` where it cannot be encoded.
    open spec fn wire(&self) -> Option<Seq<u8>> {
        None
    }

    /// The value that `bytes` begin with, or `None` where they begin with
    /// none. What follows the value in `bytes` plays no part.
    open spec fn parse(bytes: Seq<u8>) -> Option<Self> {
        None
    }

    /// The bytes of this value.
    fn encode(&self) -> (encoded: Result<Vec<u8>, bincode::error::EncodeError>)
        ensures
            Self::obeys_wire_spec() ==> match self.wire() {
                Some(bytes) => encoded matches Ok(b) && b@ == bytes,
                None => encoded is Err,
            },
    ;

    /// The value that `bytes` begin with.
    fn decode(bytes: &[u8]) -> (decoded: Result<Self, bincode::error::DecodeError>)
        ensures
            Self::obeys_wire_spec() ==> match Self::parse(bytes@) {
                Some(message) => decoded == Ok::<Self, bincode::error::DecodeError>(message),
                None => decoded is Err,
            },
    ;
}

/// The `n` lowest bytes of `v`, the lowest first.
pub open spec fn le_bytes(v: nat, n: nat) -> Seq<u8>
    decreases n,
{
    if n == 0 {
        Seq::empty()
    } else {
        seq![(v % 256) as u8] + le_bytes(v / 256, (n - 1) as nat)
    }
}

/// The number that `bytes` spell, the lowest byte first.
pub open spec fn le_value(bytes: Seq<u8>) -> nat
    decreases bytes.len(),
{
    if bytes.len() == 0 {
        0
    } else {
        bytes[0] as nat + 256 * le_value(bytes.subrange(1, bytes.len() as int))
    }
}

/// 256 to the power `n`.
pub open spec fn radix(n: nat) -> nat
    decreases n,
{
    if n == 0 {
        1
    } else {
        256 * radix((n - 1) as nat)
    }
}

/// How many bytes follow a first byte `tag` in an integer's encoding.
pub open spec fn payload_width(tag: u8) -> nat {
    if tag < 251 {
        0
    } else if tag == 251 {
        2
    } else if tag == 252 {
        4
    } else {
        8
    }
}

/// The bytes of an unsigned 64-bit integer: itself below 251, else a tag and
/// the shortest of 2, 4 or 8 little-endian bytes that hold it.
pub open spec fn wire_u64(v: u64) -> Seq<u8> {
    if v < 251 {
        seq![v as u8]
    } else if v < 0x1_0000 {
        seq![251u8] + le_bytes(v as nat, 2)
    } else if v < 0x1_0000_0000 {
        seq![252u8] + le_bytes(v as nat, 4)
    } else {
        seq![253u8] + le_bytes(v as nat, 8)
    }
}

/// The integer that `bytes` begin with and how many bytes it takes, or `None`
/// where they begin with none: no byte at all, a first byte above 253, or
/// fewer bytes after the tag than it announces.
pub open spec fn parse_u64(bytes: Seq<u8>) -> Option<(u64, nat)> {
    if bytes.len() == 0 || bytes[0] > 253 {
        None
    } else if bytes[0] < 251 {
        Some((bytes[0] as u64, 1nat))
    } else {
        let w = payload_width(bytes[0]);
        if bytes.len() < 1 + w {
            None
        } else {
            Some((le_value(bytes.subrange(1, (1 + w) as int)) as u64, 1 + w))
        }
    }
}

/// Calls `bincode::encode_to_vec` on a `u64` with the standard configuration
/// (little endian, variable-length integers). Claims that the call succeeds,
/// since writing into a vector cannot fail, and that the bytes are those of
/// the format's description of a variable-length integer.
#[verifier::external_body]
fn bincode_encode_u64(v: u64) -> (r: Result<Vec<u8>, bincode::error::EncodeError>)
    ensures
        r is Ok,
        r matches Ok(b) ==> b@ == wire_u64(v),
{
    bincode::encode_to_vec(v, bincode::config::standard())
}

/// Calls `bincode::decode_from_slice` for a `u64` with the standard
/// configuration. Claims that it reads the first byte as a tag, then the 0, 2,
/// 4 or 8 bytes that the tag announces, lowest first, whether or not a shorter
/// form would have held the number; that it returns the number with the count
/// of bytes read; and that it fails exactly where the bytes run out or the tag
/// is above 253.
#[verifier::external_body]
fn bincode_decode_u64(bytes: &[u8]) -> (r: Result<(u64, usize), bincode::error::DecodeError>)
    ensures
        r is Ok <==> parse_u64(bytes@) is Some,
        r matches Ok(p) ==> parse_u64(bytes@) == Some((p.0, p.1 as nat)),
{
    bincode::decode_from_slice::<u64, _>(bytes, bincode::config::standard())
}

impl BroadcastMessage for u64 {
    open spec fn obeys_wire_spec() -> bool {
        true
    }

    open spec fn wire(&self) -> Option<Seq<u8>> {
        Some(wire_u64(*self))
    }

    open spec fn parse(bytes: Seq<u8>) -> Option<u64> {
        match parse_u64(bytes) {
            Some(found) => Some(found.0),
            None => None,
        }
    }

    /// Always succeeds, with the bytes of `wire_u64`.
    fn encode(&self) -> (r: Result<Vec<u8>, bincode::error::EncodeError>) {
        bincode_encode_u64(*self)
    }

    /// Succeeds exactly where `parse_u64` finds an integer, and returns it.
    /// What follows the integer in `bytes` is ignored.
    fn decode(bytes: &[u8]) -> (r: Result<u64, bincode::error::DecodeError>) {
        match bincode_decode_u64(bytes) {
            Ok(p) => Ok(p.0),
            Err(e) => Err(e),
        }
    }
}

/// Whether decoding gives back what was encoded, for every value of `T`.
pub open spec fn round_trips<T: BroadcastMessage>() -> bool {
    T::obeys_wire_spec() && forall|message: T|
        (#[trigger] message.wire()) matches Some(bytes) ==> T::parse(bytes) == Some(message)
}

/// Whether no value of `T` is encoded as no bytes at all. A read of no bytes
/// means that the peer is gone, so such a message could not arrive.
pub open spec fn never_empty<T: BroadcastMessage>() -> bool {
    forall|message: T| (#[trigger] message.wire()) matches Some(bytes) ==> bytes.len() > 0
}

/// `le_bytes` gives as many bytes as asked for.
pub proof fn lemma_le_bytes_len(v: nat, n: nat)
    ensures
        le_bytes(v, n).len() == n,
    decreases n,
{
    if n > 0 {
        lemma_le_bytes_len(v / 256, (n - 1) as nat);
    }
}

/// Reading back the `n` low bytes of a number below `256^n` gives the number.
pub proof fn lemma_le_round_trip(v: nat, n: nat)
    requires
        v < radix(n),
    ensures
        le_value(le_bytes(v, n)) == v,
    decreases n,
{
    if n > 0 {
        let rest = le_bytes(v / 256, (n - 1) as nat);
        let all = le_bytes(v, n);
        lemma_le_bytes_len(v / 256, (n - 1) as nat);
        assert(all.subrange(1, all.len() as int) =~= rest);
        lemma_le_round_trip(v / 256, (n - 1) as nat);
        assert(all[0] as nat == v % 256);
    }
}

/// Round trip of the integer codec: decoding the bytes of `v`, with anything
/// at all behind them, gives `v` and the length of its encoding.
pub proof fn law_u64_round_trip(v: u64, rest: Seq<u8>)
    ensures
        parse_u64(wire_u64(v) + rest) == Some((v, wire_u64(v).len())),
{
    reveal_with_fuel(radix, 9);
    let bytes = wire_u64(v) + rest;
    if v >= 251 {
        let w: nat = if v < 0x1_0000 {
            2
        } else if v < 0x1_0000_0000 {
            4
        } else {
            8
        };
        lemma_le_bytes_len(v as nat, w);
        lemma_le_round_trip(v as nat, w);
        assert(bytes.subrange(1, (1 + w) as int) =~= le_bytes(v as nat, w));
    }
}

/// Two integers with the same bytes are the same integer, and no encoding is
/// the beginning of another: a reader needs no delimiter to find the end.
pub proof fn law_u64_wire_is_prefix_free(a: u64, b: u64, rest: Seq<u8>)
    requires
        wire_u64(a) + rest == wire_u64(b),
    ensures
        a == b,
        rest.len() == 0,
{
    law_u64_round_trip(a, rest);
    law_u64_round_trip(b, Seq::empty());
    assert(wire_u64(b) + Seq::<u8>::empty() =~= wire_u64(b));
}

/// Integers round-trip, and none is encoded as no bytes.
pub proof fn law_u64_messages_round_trip()
    ensures
        round_trips::<u64>(),
        never_empty::<u64>(),
{
    assert forall|message: u64| #[trigger] message.wire() is Some implies u64::parse(
        message.wire().unwrap(),
    ) == Some(message) && message.wire().unwrap().len() > 0 by {
        law_u64_round_trip(message, Seq::empty());
        assert(wire_u64(message) + Seq::<u8>::empty() =~= wire_u64(message));
    }
}

} // verus!
