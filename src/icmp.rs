//! ICMP: the Internet Control Message Protocol.
//!
//! The header is eight bytes: type, code, checksum, identifier and sequence
//! number, the last three big-endian; the payload is the rest of the buffer.
use core::marker::PhantomData;
use vstd::prelude::*;

use crate::checksum::{
    byte_weight, checksum_of, checksum_verifies, compute_checksum, lemma_checksum_changes,
    lemma_checksum_verifies, lemma_word_sum_update, verify_checksum, with_field, word_count,
    word_sum, zero_field,
};
use crate::{ChecksumState, Invalid, Kind, Unknown, Valid};

verus! {

/// Size of the ICMP header.
pub const HEADER_SIZE: u16 = 8;

/// Offset of the checksum field.
pub const CHECKSUM: usize = 2;

/// ICMP types.
#[derive(Clone, Copy, Debug, PartialEq, Eq, Structural)]
pub enum Type {
    /// Echo Reply
    EchoReply,
    /// Destination Unreachable
    DestinationUnreachable,
    /// Echo Request
    EchoRequest,
    /// Any other type byte, kept as it is
    Other(u8),
}

/// The type named by a type byte.
pub open spec fn type_of_byte(b: u8) -> Type {
    if b == 0 {
        Type::EchoReply
    } else if b == 3 {
        Type::DestinationUnreachable
    } else if b == 8 {
        Type::EchoRequest
    } else {
        Type::Other(b)
    }
}

/// The type byte of a type.
pub open spec fn byte_of_type(t: Type) -> u8 {
    match t {
        Type::EchoReply => 0,
        Type::DestinationUnreachable => 3,
        Type::EchoRequest => 8,
        Type::Other(b) => b,
    }
}

impl Type {
    /// Decodes a type byte.
    pub fn from_byte(b: u8) -> (r: Type)
        ensures
            r == type_of_byte(b),
    {
        match b {
            0 => Type::EchoReply,
            3 => Type::DestinationUnreachable,
            8 => Type::EchoRequest,
            _ => Type::Other(b),
        }
    }

    /// Encodes this type as its byte.
    pub fn to_byte(self) -> (r: u8)
        ensures
            r == byte_of_type(self),
    {
        match self {
            Type::EchoReply => 0,
            Type::DestinationUnreachable => 3,
            Type::EchoRequest => 8,
            Type::Other(b) => b,
        }
    }
}

/// Decoding a byte to a type and encoding it back gives the byte again.
pub proof fn lemma_type_round_trip(b: u8)
    ensures
        byte_of_type(type_of_byte(b)) == b,
{
}

/// Subtype marker: Echo Reply.
pub struct EchoReply;

/// Subtype marker: Echo Request.
pub struct EchoRequest;

/// The subtypes whose type byte is fixed and whose code is zero.
pub trait Echo: Kind {}

impl Kind for EchoReply {
    open spec fn fixed_type() -> Option<u8> {
        Some(0u8)
    }

    fn known_type() -> (r: Option<u8>) {
        Some(0)
    }
}

impl Kind for EchoRequest {
    open spec fn fixed_type() -> Option<u8> {
        Some(8u8)
    }

    fn known_type() -> (r: Option<u8>) {
        Some(8)
    }
}

impl Echo for EchoReply {}

impl Echo for EchoRequest {}

/// An ICMP packet over an owned byte buffer, with a subtype marker `T` and a
/// checksum marker `C`.
pub struct Packet<T, C> {
    buffer: Vec<u8>,
    _type: PhantomData<T>,
    _checksum: PhantomData<C>,
}

impl<T, C> View for Packet<T, C> {
    type V = Seq<u8>;

    /// The bytes of the packet, header and payload.
    closed spec fn view(&self) -> Seq<u8> {
        self.buffer@
    }
}

impl<T: Kind, C: ChecksumState> Packet<T, C> {
    /// The packet holds a full header; a fixed subtype's type and code bytes
    /// are in place; under `Valid` the checksum verifies.
    pub open spec fn wf(&self) -> bool {
        &&& self@.len() >= HEADER_SIZE
        &&& (T::fixed_type() matches Some(t) ==> self@[0] == t && self@[1] == 0)
        &&& (C::guaranteed() ==> checksum_verifies(self@))
    }

    /// Wraps a buffer under any markers, without reading it.
    fn unchecked(buffer: Vec<u8>) -> (r: Self)
        ensures
            r@ == buffer@,
    {
        Packet { buffer, _type: PhantomData, _checksum: PhantomData }
    }

    /// Gives up the buffer.
    fn into_buffer(self) -> (r: Vec<u8>)
        ensures
            r@ == self@,
    {
        self.buffer
    }

    /// The bytes of the packet.
    fn as_ref(&self) -> (r: &[u8])
        ensures
            r@ == self@,
    {
        self.buffer.as_slice()
    }

    /// The bytes of the packet, to write in place.
    fn as_mut(&mut self) -> (r: &mut [u8])
        ensures
            r@ == old(self)@,
            final(r)@ == final(self)@,
    {
        self.buffer.as_mut_slice()
    }

    /// Returns the Type field of the header.
    pub fn get_type(&self) -> (r: Type)
        requires
            self.wf(),
        ensures
            r == type_of_byte(self@[0]),
    {
        match T::known_type() {
            Some(t) => Type::from_byte(t),
            None => Type::from_byte(self.as_ref()[0]),
        }
    }

    /// Returns the Code field of the header.
    pub fn get_code(&self) -> (r: u8)
        requires
            self.wf(),
        ensures
            r == self@[1],
    {
        match T::known_type() {
            Some(_) => 0,
            None => self.as_ref()[1],
        }
    }

    /// Returns the Identifier field of the header.
    pub fn get_identifier(&self) -> (r: u16)
        requires
            self.wf(),
        ensures
            r == be16_at(self@, 4),
    {
        read_be16(self.as_ref(), 4)
    }

    /// Returns the Sequence Number field of the header.
    pub fn get_sequence_number(&self) -> (r: u16)
        requires
            self.wf(),
        ensures
            r == be16_at(self@, 6),
    {
        read_be16(self.as_ref(), 6)
    }

    /// Returns the Checksum field of the header.
    pub fn get_checksum(&self) -> (r: u16)
        requires
            self.wf(),
        ensures
            r == be16_at(self@, 2),
    {
        read_be16(self.as_ref(), CHECKSUM)
    }

    /// View into the payload: the bytes after the header.
    pub fn payload(&self) -> (r: &[u8])
        requires
            self.wf(),
        ensures
            r@ == self@.subrange(HEADER_SIZE as int, self@.len() as int),
    {
        self.as_ref().split_at(HEADER_SIZE as usize).1
    }

    /// Returns the length (header and payload) of this packet.
    pub fn len(&self) -> (r: u16)
        requires
            self.wf(),
            self@.len() <= u16::MAX,
        ensures
            r == self@.len(),
    {
        self.as_ref().len() as u16
    }

    /// Returns the bytes of this packet.
    pub fn as_bytes(&self) -> (r: &[u8])
        ensures
            r@ == self@,
    {
        self.as_ref()
    }
}

impl<T: Kind> Packet<T, Invalid> {
    /// Sets the Identifier field of the header.
    pub fn set_identifier(&mut self, ident: u16)
        requires
            old(self).wf(),
        ensures
            final(self).wf(),
            final(self)@ == with_field(old(self)@, 4, ident),
    {
        write_be16(&mut self.buffer, 4, ident);
    }

    /// Sets the Sequence Number field of the header.
    pub fn set_sequence_number(&mut self, seq_no: u16)
        requires
            old(self).wf(),
        ensures
            final(self).wf(),
            final(self)@ == with_field(old(self)@, 6, seq_no),
    {
        write_be16(&mut self.buffer, 6, seq_no);
    }

    /// Mutable view into the payload: the bytes after the header.
    pub fn payload_mut(&mut self) -> (r: &mut [u8])
        requires
            old(self).wf(),
        ensures
            r@ == old(self)@.subrange(HEADER_SIZE as int, old(self)@.len() as int),
            final(self)@ == old(self)@.subrange(0, HEADER_SIZE as int) + final(r)@,
    {
        let (_header, payload) = self.as_mut().split_at_mut(HEADER_SIZE as usize);
        payload
    }

    /// Computes the checksum over the whole packet, the field taken as zero,
    /// writes it into the Checksum field, and marks the packet `Valid`.
    pub fn update_checksum(self) -> (r: Packet<T, Valid>)
        requires
            self.wf(),
        ensures
            r.wf(),
            r@ == with_field(self@, CHECKSUM as int, checksum_of(self@, CHECKSUM as int)),
    {
        let mut buffer = self.into_buffer();
        let cksum = compute_checksum(buffer.as_slice(), CHECKSUM);
        proof {
            lemma_checksum_verifies(buffer@, CHECKSUM as int);
        }
        write_be16(&mut buffer, CHECKSUM, cksum);
        Packet::unchecked(buffer)
    }
}

impl<T: Kind> Packet<T, Valid> {
    /// Drops the guarantee on the checksum; no byte changes.
    fn invalidate_header_checksum(self) -> (r: Packet<T, Invalid>)
        requires
            self.wf(),
        ensures
            r.wf(),
            r@ == self@,
    {
        Packet::unchecked(self.into_buffer())
    }
}

impl Packet<Unknown, Invalid> {
    /// Sets the Type field of the header.
    pub fn set_type(&mut self, type_: Type)
        requires
            old(self).wf(),
        ensures
            final(self).wf(),
            final(self)@ == old(self)@.update(0, byte_of_type(type_)),
    {
        let b = type_.to_byte();
        self.buffer.set(0, b);
    }

    /// Sets the Code field of the header.
    pub fn set_code(&mut self, code: u8)
        requires
            old(self).wf(),
        ensures
            final(self).wf(),
            final(self)@ == old(self)@.update(1, code),
    {
        self.buffer.set(1, code);
    }
}

impl Packet<Unknown, Valid> {
    /// Parses received bytes: fails, handing the bytes back, when they are
    /// shorter than the header or their checksum does not verify.
    pub fn parse(bytes: Vec<u8>) -> (r: Result<Self, Vec<u8>>)
        ensures
            r is Ok <==> bytes@.len() >= HEADER_SIZE && checksum_verifies(bytes@),
            r matches Ok(p) ==> p.wf() && p@ == bytes@,
            r matches Err(b) ==> b@ == bytes@,
    {
        if bytes.len() < HEADER_SIZE as usize {
            return Err(bytes);
        }
        if verify_checksum(bytes.as_slice()) {
            Ok(Packet::unchecked(bytes))
        } else {
            Err(bytes)
        }
    }

    /// Sets the Type field of the header; the checksum is no longer trusted.
    pub fn set_type(self, type_: Type) -> (r: Packet<Unknown, Invalid>)
        requires
            self.wf(),
        ensures
            r.wf(),
            r@ == self@.update(0, byte_of_type(type_)),
    {
        let mut packet = self.invalidate_header_checksum();
        packet.set_type(type_);
        packet
    }

    /// Sets the Code field of the header; the checksum is no longer trusted.
    pub fn set_code(self, code: u8) -> (r: Packet<Unknown, Invalid>)
        requires
            self.wf(),
        ensures
            r.wf(),
            r@ == self@.update(1, code),
    {
        let mut packet = self.invalidate_header_checksum();
        packet.set_code(code);
        packet
    }
}

impl<T: Kind> Packet<T, Valid> {
    /// Sets the Identifier field of the header; the checksum is no longer
    /// trusted.
    pub fn set_identifier(self, ident: u16) -> (r: Packet<T, Invalid>)
        requires
            self.wf(),
        ensures
            r.wf(),
            r@ == with_field(self@, 4, ident),
    {
        let mut packet = self.invalidate_header_checksum();
        packet.set_identifier(ident);
        packet
    }

    /// Sets the Sequence Number field of the header; the checksum is no
    /// longer trusted.
    pub fn set_sequence_number(self, seq_no: u16) -> (r: Packet<T, Invalid>)
        requires
            self.wf(),
        ensures
            r.wf(),
            r@ == with_field(self@, 6, seq_no),
    {
        let mut packet = self.invalidate_header_checksum();
        packet.set_sequence_number(seq_no);
        packet
    }
}

impl<C: ChecksumState> Packet<Unknown, C> {
    /// Downcasts this packet to the subtype `E`: succeeds when the type byte
    /// is `E`'s and the code is zero, and otherwise hands the packet back
    /// unchanged.
    pub fn downcast<E: Echo>(self) -> (r: Result<Packet<E, C>, Self>)
        requires
            self.wf(),
        ensures
            r is Ok <==> E::fixed_type() == Some(self@[0]) && self@[1] == 0,
            r matches Ok(p) ==> p.wf() && p@ == self@,
            r matches Err(p) ==> p.wf() && p@ == self@,
    {
        match E::known_type() {
            Some(t) => {
                if self.as_ref()[0] == t && self.as_ref()[1] == 0 {
                    Ok(Packet::unchecked(self.into_buffer()))
                } else {
                    Err(self)
                }
            },
            None => Err(self),
        }
    }
}

impl Packet<EchoRequest, Invalid> {
    /// Turns a buffer of at least eight bytes into an Echo Request packet:
    /// writes its type byte and a zero code, and leaves the other bytes.
    pub fn new(buffer: Vec<u8>) -> (r: Self)
        requires
            buffer@.len() >= HEADER_SIZE,
        ensures
            r.wf(),
            r@ == buffer@.update(0, 8).update(1, 0),
    {
        let mut packet: Packet<Unknown, Invalid> = Packet::unchecked(buffer);
        packet.set_type(Type::EchoRequest);
        packet.set_code(0);
        Packet::unchecked(packet.into_buffer())
    }
}

/// The bytes of the Echo Reply built in place from the Echo Request bytes
/// `s`: the type byte becomes Echo Reply's, then the checksum is recomputed.
pub open spec fn echo_reply_of(s: Seq<u8>) -> Seq<u8> {
    let t = s.update(0, 0);
    with_field(t, CHECKSUM as int, checksum_of(t, CHECKSUM as int))
}

/// The Echo Reply built from an Echo Request keeps its length, code,
/// identifier, sequence number and payload; only the type byte and the
/// checksum field change, and the checksum verifies.
pub proof fn lemma_echo_reply_transform(s: Seq<u8>)
    requires
        s.len() >= HEADER_SIZE,
    ensures
        echo_reply_of(s).len() == s.len(),
        echo_reply_of(s)[0] == byte_of_type(Type::EchoReply),
        forall|i: int| 0 < i < s.len() && i != 2 && i != 3 ==> echo_reply_of(s)[i] == s[i],
        be16_at(echo_reply_of(s), 4) == be16_at(s, 4),
        be16_at(echo_reply_of(s), 6) == be16_at(s, 6),
        echo_reply_of(s).subrange(HEADER_SIZE as int, s.len() as int) == s.subrange(
            HEADER_SIZE as int,
            s.len() as int,
        ),
        checksum_verifies(echo_reply_of(s)),
{
    let r = echo_reply_of(s);
    lemma_checksum_verifies(s.update(0, 0), CHECKSUM as int);
    assert(r.subrange(HEADER_SIZE as int, s.len() as int) =~= s.subrange(
        HEADER_SIZE as int,
        s.len() as int,
    ));
}

/// The checksum field that `update_checksum` writes into the bytes `t`.
pub open spec fn updated_checksum_field(t: Seq<u8>) -> u16 {
    be16_at(with_field(t, CHECKSUM as int, checksum_of(t, CHECKSUM as int)), CHECKSUM as int)
}

proof fn lemma_updated_field(t: Seq<u8>)
    requires
        t.len() >= HEADER_SIZE,
    ensures
        updated_checksum_field(t) == checksum_of(t, CHECKSUM as int),
{
    let c = checksum_of(t, CHECKSUM as int);
    assert(((c / 256) as u8) as nat * 256 + ((c % 256) as u8) as nat == c) by (nonlinear_arith)
        requires
            c <= 0xFFFF,
    ;
}

/// Setting the type or the code of a `Valid` packet to a different byte and
/// updating the checksum always gives a different checksum field.
pub proof fn lemma_type_or_code_change_moves_checksum(s: Seq<u8>, i: int, x: u8)
    requires
        s.len() >= HEADER_SIZE,
        checksum_verifies(s),
        i == 0 || i == 1,
        x != s[i],
    ensures
        updated_checksum_field(s.update(i, x)) != be16_at(s, CHECKSUM as int),
{
    let t = s.update(i, x);
    let z = zero_field(s, 2);
    let n = word_count(s);
    lemma_word_sum_update(z, i, x, n);
    assert(zero_field(t, 2) =~= z.update(i, x));
    assert(word_count(z) == n && word_count(t) == n);
    let zs = word_sum(z, n);
    let zt = word_sum(zero_field(t, 2), n);
    let w = byte_weight(i);
    let a = s[i] as int;
    let b = x as int;
    assert(zt % 0xFFFF != zs % 0xFFFF) by (nonlinear_arith)
        requires
            zt + w * a == zs + w * b,
            w == 256 || w == 1,
            0 <= a < 256,
            0 <= b < 256,
            a != b,
    ;
    lemma_checksum_changes(s, t);
    lemma_updated_field(t);
}

/// Setting the identifier or the sequence number of a `Valid` packet and
/// updating the checksum gives a different checksum field, unless the field
/// only switches between 0x0000 and 0xFFFF, which the one's-complement sum
/// cannot tell apart.
pub proof fn lemma_field_change_moves_checksum(s: Seq<u8>, offset: int, v: u16)
    requires
        s.len() >= HEADER_SIZE,
        checksum_verifies(s),
        offset == 4 || offset == 6,
        v % 0xFFFF != be16_at(s, offset) % 0xFFFF,
    ensures
        updated_checksum_field(with_field(s, offset, v)) != be16_at(s, CHECKSUM as int),
{
    let hi = (v / 256) as u8;
    let lo = (v % 256) as u8;
    let t = with_field(s, offset, v);
    let z = zero_field(s, 2);
    let m = z.update(offset, hi);
    let n = word_count(s);
    assert(word_count(z) == n && word_count(m) == n && word_count(t) == n);
    lemma_word_sum_update(z, offset, hi, n);
    lemma_word_sum_update(m, offset + 1, lo, n);
    assert(zero_field(t, 2) =~= m.update(offset + 1, lo));
    let zs = word_sum(z, n);
    let zt = word_sum(zero_field(t, 2), n);
    let a = s[offset] as int * 256 + s[offset + 1] as int;
    assert(a == be16_at(s, offset));
    assert(hi as int * 256 + lo as int == v) by (nonlinear_arith)
        requires
            hi == (v / 256) as u8,
            lo == (v % 256) as u8,
            v <= 0xFFFF,
    ;
    assert(zt + a == zs + v);
    assert(zt % 0xFFFF != zs % 0xFFFF) by (nonlinear_arith)
        requires
            zt + a == zs + v,
            v % 0xFFFF != a % 0xFFFF,
    ;
    lemma_checksum_changes(s, t);
    lemma_updated_field(t);
}

impl Packet<EchoReply, Valid> {
    /// Builds an Echo Reply in place from an Echo Request.
    pub fn from<C: ChecksumState>(p: Packet<EchoRequest, C>) -> (r: Self)
        requires
            p.wf(),
        ensures
            r.wf(),
            r@ == echo_reply_of(p@),
    {
        let mut p: Packet<Unknown, Invalid> = Packet::unchecked(p.into_buffer());
        p.set_type(Type::EchoReply);
        let p: Packet<EchoReply, Invalid> = Packet::unchecked(p.into_buffer());
        p.update_checksum()
    }
}

impl<T, C> Clone for Packet<T, C> {
    /// Copies the bytes under the same markers.
    fn clone(&self) -> (r: Self)
        ensures
            r@ == self@,
    {
        Packet { buffer: self.buffer.clone(), _type: PhantomData, _checksum: PhantomData }
    }
}

/// The big-endian 16-bit value in the two bytes of `s` at `i`.
pub open spec fn be16_at(s: Seq<u8>, i: int) -> u16 {
    (s[i] as nat * 256 + s[i + 1] as nat) as u16
}

/// Writes `v` big-endian into the two bytes of `b` at `i`.
fn write_be16(b: &mut Vec<u8>, i: usize, v: u16)
    requires
        i + 1 < old(b).len(),
    ensures
        final(b)@ == with_field(old(b)@, i as int, v),
{
    b.set(i, (v / 256) as u8);
    b.set(i + 1, (v % 256) as u8);
}

/// Reads the big-endian value in the two bytes of `b` at `i`.
fn read_be16(b: &[u8], i: usize) -> (r: u16)
    requires
        i + 1 < b@.len(),
    ensures
        r == be16_at(b@, i as int),
{
    (b[i] as u16) * 256 + b[i + 1] as u16
}

} // verus!
