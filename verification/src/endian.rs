//! Integers held in network byte order, so that a value read off the wire cannot be mistaken
//! for a host-order integer.

use vstd::arithmetic::div_mod::lemma_fundamental_div_mod_converse;
use vstd::prelude::*;

verus! {

/// The number whose big-endian representation is the two given bytes.
pub open spec fn be16(b0: u8, b1: u8) -> int {
    b0 as int * 0x100 + b1 as int
}

/// The number whose big-endian representation is the four given bytes.
pub open spec fn be32(b0: u8, b1: u8, b2: u8, b3: u8) -> int {
    b0 as int * 0x100_0000 + b1 as int * 0x1_0000 + b2 as int * 0x100 + b3 as int
}

/// The two bytes of a 16-bit number, most significant first.
pub open spec fn be16_bytes(n: u16) -> Seq<u8> {
    seq![(n / 0x100) as u8, (n % 0x100) as u8]
}

/// The four bytes of a 32-bit number, most significant first.
pub open spec fn be32_bytes(n: u32) -> Seq<u8> {
    seq![
        (n / 0x100_0000) as u8,
        (n / 0x1_0000 % 0x100) as u8,
        (n / 0x100 % 0x100) as u8,
        (n % 0x100) as u8,
    ]
}

/// Reading back the bytes of a 16-bit number gives the number.
pub proof fn lemma_be16_of_bytes(n: u16)
    ensures
        be16(be16_bytes(n)[0], be16_bytes(n)[1]) == n,
{
}

/// The bytes of the number that two bytes spell are those two bytes.
pub proof fn lemma_be16_bytes_of(b0: u8, b1: u8)
    ensures
        0 <= be16(b0, b1) <= u16::MAX,
        be16_bytes(be16(b0, b1) as u16) == seq![b0, b1],
{
    let n = be16(b0, b1);
    lemma_fundamental_div_mod_converse(n, 0x100, b0 as int, b1 as int);
    assert(be16_bytes(n as u16) =~= seq![b0, b1]);
}

/// Reading back the bytes of a 32-bit number gives the number.
pub proof fn lemma_be32_of_bytes(n: u32)
    ensures
        be32(be32_bytes(n)[0], be32_bytes(n)[1], be32_bytes(n)[2], be32_bytes(n)[3]) == n,
{
    let n = n as int;
    let q1 = n / 0x100;
    let q2 = n / 0x1_0000;
    let q3 = n / 0x100_0000;
    assert(q2 == q1 / 0x100 && q3 == q2 / 0x100) by (nonlinear_arith)
        requires
            0 <= n,
            q1 == n / 0x100,
            q2 == n / 0x1_0000,
            q3 == n / 0x100_0000,
    ;
    assert(n == q1 * 0x100 + n % 0x100);
    assert(q1 == q2 * 0x100 + q1 % 0x100);
    assert(q2 == q3 * 0x100 + q2 % 0x100);
}

/// The bytes of the number that four bytes spell are those four bytes.
pub proof fn lemma_be32_bytes_of(b0: u8, b1: u8, b2: u8, b3: u8)
    ensures
        0 <= be32(b0, b1, b2, b3) <= u32::MAX,
        be32_bytes(be32(b0, b1, b2, b3) as u32) == seq![b0, b1, b2, b3],
{
    let n = be32(b0, b1, b2, b3);
    let q1 = b0 as int * 0x1_0000 + b1 as int * 0x100 + b2 as int;
    let q2 = b0 as int * 0x100 + b1 as int;
    lemma_fundamental_div_mod_converse(n, 0x100, q1, b3 as int);
    lemma_fundamental_div_mod_converse(n, 0x1_0000, q2, b2 as int * 0x100 + b3 as int);
    lemma_fundamental_div_mod_converse(
        n,
        0x100_0000,
        b0 as int,
        b1 as int * 0x1_0000 + b2 as int * 0x100 + b3 as int,
    );
    lemma_fundamental_div_mod_converse(q1, 0x100, q2, b2 as int);
    lemma_fundamental_div_mod_converse(q2, 0x100, b0 as int, b1 as int);
    assert(be32_bytes(n as u32) =~= seq![b0, b1, b2, b3]);
}

/// A 16-bit unsigned integer stored as its two bytes in network order.
#[derive(Clone, Copy, Debug)]
pub struct NetworkU16 {
    data: [u8; 2],
}

impl View for NetworkU16 {
    type V = u16;

    closed spec fn view(&self) -> u16 {
        be16(self.data[0], self.data[1]) as u16
    }
}

impl NetworkU16 {
    /// The stored bytes, in the order they travel.
    pub closed spec fn wire(self) -> Seq<u8> {
        self.data@
    }

    /// The stored bytes spell the value, and the value spells the bytes.
    pub proof fn lemma_wire(self)
        ensures
            self.wire().len() == 2,
            self@ == be16(self.wire()[0], self.wire()[1]),
            self.wire() == be16_bytes(self@),
    {
        lemma_be16_bytes_of(self.data[0], self.data[1]);
    }

    pub fn new(input: u16) -> (r: NetworkU16)
        ensures
            r@ == input,
            r.wire() == be16_bytes(input),
    {
        let r = NetworkU16 { data: [(input / 0x100) as u8, (input % 0x100) as u8] };
        assert(r.data@ =~= be16_bytes(input));
        r
    }

    pub fn get(self) -> (r: u16)
        ensures
            r == self@,
    {
        let hi: u16 = self.data[0] as u16;
        let lo: u16 = self.data[1] as u16;
        hi * 0x100 + lo
    }

    /// Takes two bytes as they came off the wire.
    pub fn from_wire(b0: u8, b1: u8) -> (r: NetworkU16)
        ensures
            r@ == be16(b0, b1),
            r.wire() == seq![b0, b1],
    {
        let r = NetworkU16 { data: [b0, b1] };
        assert(r.data@ =~= seq![b0, b1]);
        r
    }

    /// The two bytes to put on the wire.
    pub fn to_wire(self) -> (r: [u8; 2])
        ensures
            r@ == self.wire(),
    {
        self.data
    }
}

/// A 32-bit unsigned integer stored as its four bytes in network order.
#[derive(Clone, Copy, Debug)]
pub struct NetworkU32 {
    data: [u8; 4],
}

impl View for NetworkU32 {
    type V = u32;

    closed spec fn view(&self) -> u32 {
        be32(self.data[0], self.data[1], self.data[2], self.data[3]) as u32
    }
}

impl NetworkU32 {
    /// The stored bytes, in the order they travel.
    pub closed spec fn wire(self) -> Seq<u8> {
        self.data@
    }

    /// The stored bytes spell the value, and the value spells the bytes.
    pub proof fn lemma_wire(self)
        ensures
            self.wire().len() == 4,
            self@ == be32(self.wire()[0], self.wire()[1], self.wire()[2], self.wire()[3]),
            self.wire() == be32_bytes(self@),
    {
        lemma_be32_bytes_of(self.data[0], self.data[1], self.data[2], self.data[3]);
    }

    pub fn new(input: u32) -> (r: NetworkU32)
        ensures
            r@ == input,
            r.wire() == be32_bytes(input),
    {
        let r = NetworkU32 {
            data: [
                (input / 0x100_0000) as u8,
                (input / 0x1_0000 % 0x100) as u8,
                (input / 0x100 % 0x100) as u8,
                (input % 0x100) as u8,
            ],
        };
        assert(r.data@ =~= be32_bytes(input));
        r
    }

    pub fn get(self) -> (r: u32)
        ensures
            r == self@,
    {
        let b0: u32 = self.data[0] as u32;
        let b1: u32 = self.data[1] as u32;
        let b2: u32 = self.data[2] as u32;
        let b3: u32 = self.data[3] as u32;
        b0 * 0x100_0000 + b1 * 0x1_0000 + b2 * 0x100 + b3
    }

    /// Takes four bytes as they came off the wire.
    pub fn from_wire(b0: u8, b1: u8, b2: u8, b3: u8) -> (r: NetworkU32)
        ensures
            r@ == be32(b0, b1, b2, b3),
            r.wire() == seq![b0, b1, b2, b3],
    {
        let r = NetworkU32 { data: [b0, b1, b2, b3] };
        assert(r.data@ =~= seq![b0, b1, b2, b3]);
        r
    }

    /// The four bytes to put on the wire.
    pub fn to_wire(self) -> (r: [u8; 4])
        ensures
            r@ == self.wire(),
    {
        self.data
    }
}

} // verus!
