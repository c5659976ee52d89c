//! Variable Byte Integer codec: MQTT's 1-to-4-byte self-delimited unsigned
//! integer, used for remaining-length and properties-length fields.
use crate::frame::Error;
use vstd::prelude::*;

verus! {

/// 128^k, the place value of the k-th byte of a Variable Byte Integer.
pub open spec fn pow128(k: nat) -> nat
    decreases k,
{
    if k == 0 {
        1
    } else {
        128 * pow128((k - 1) as nat)
    }
}

/// Outcome of reading a Variable Byte Integer from position `pos` of a byte
/// sequence: the value with the position one past its last byte, a request
/// for more bytes, or a malformed encoding (a fifth continuation byte).
pub enum ParsedVarint {
    Done(u32, int),
    More,
    Bad,
}

pub open spec fn spec_decode_varint_rec(s: Seq<u8>, pos: int, k: nat, acc: nat) -> ParsedVarint
    decreases 4 - k,
{
    if k >= 4 {
        ParsedVarint::Bad
    } else if pos < 0 || pos >= s.len() {
        ParsedVarint::More
    } else if s[pos] < 128 {
        ParsedVarint::Done(((acc + (s[pos] as nat) * pow128(k)) % 0x100000000) as u32, pos + 1)
    } else {
        spec_decode_varint_rec(s, pos + 1, k + 1, acc + ((s[pos] - 128) as nat) * pow128(k))
    }
}

/// What decoding a Variable Byte Integer at `pos` yields.
pub open spec fn spec_decode_varint(s: Seq<u8>, pos: int) -> ParsedVarint {
    spec_decode_varint_rec(s, pos, 0, 0)
}

/// Largest value a Variable Byte Integer can carry (2^28 - 1).
pub const VARINT_MAX: u32 = 268435455;

/// The wire encoding of `n`: little-endian groups of 7 bits, the high bit of
/// each byte set while more groups follow.
pub open spec fn spec_varint(n: nat) -> Seq<u8>
    decreases n,
{
    if n < 128 {
        seq![n as u8]
    } else {
        seq![((n % 128) + 128) as u8] + spec_varint(n / 128)
    }
}

/// Exact length of the encoding, for values in the permitted range.
pub proof fn lemma_varint_len(n: nat)
    requires
        n <= VARINT_MAX,
    ensures
        spec_varint(n).len() == if n < 128 {
            1int
        } else if n < 16384 {
            2int
        } else if n < 2097152 {
            3int
        } else {
            4int
        },
    decreases n,
{
    if n >= 128 {
        lemma_varint_len(n / 128);
    }
}

/// An unsigned integer in [0, 2^28 - 1] together with its codec.
#[derive(Debug, Clone, Copy, PartialEq, Eq, Structural)]
pub struct VariableByteInteger {
    pub data: u32,
}

/// pow128 stays within u32 range for the byte positions a varint can have.
pub proof fn lemma_pow128_small(k: nat)
    requires
        k <= 4,
    ensures
        pow128(k) <= 268435456,
        k <= 3 ==> pow128(k) <= 2097152,
{
    assert(pow128(0) == 1);
    assert(pow128(1) == 128);
    assert(pow128(2) == 16384);
    assert(pow128(3) == 2097152);
    assert(pow128(4) == 268435456);
}

fn decode_rec(buf: &Vec<u8>, pos: usize, k: u8, acc: u32, mult: u32) -> (r: Result<
    (u32, usize),
    Error,
>)
    requires
        k <= 4,
        mult == pow128(k as nat),
        acc < mult,
    ensures
        (match r {
            Ok((v, end)) => spec_decode_varint_rec(buf@, pos as int, k as nat, acc as nat)
                == ParsedVarint::Done(v, end as int) && pos < end <= buf@.len() && v <= VARINT_MAX,
            Err(Error::Incomplete) => spec_decode_varint_rec(buf@, pos as int, k as nat, acc as nat)
                is More,
            Err(Error::MalformedPacket) => spec_decode_varint_rec(
                buf@,
                pos as int,
                k as nat,
                acc as nat,
            ) is Bad,
            Err(_) => false,
        }),
    decreases 4 - k,
{
    proof {
        lemma_pow128_small(k as nat);
    }
    if k >= 4 {
        return Err(Error::MalformedPacket);
    }
    if pos >= buf.len() {
        return Err(Error::Incomplete);
    }
    let b: u8 = buf[pos];
    if b < 128 {
        proof {
            assert((b as nat) * pow128(k as nat) <= 127 * pow128(k as nat)) by (nonlinear_arith)
                requires
                    b < 128,
            ;
            assert(acc + 127 * pow128(k as nat) < 128 * pow128(k as nat)) by (nonlinear_arith)
                requires
                    acc < pow128(k as nat),
            ;
            assert(128 * pow128(k as nat) == pow128((k + 1) as nat));
            lemma_pow128_small((k + 1) as nat);
        }
        let v: u32 = acc + (b as u32) * mult;
        proof {
            assert((acc as nat + (b as nat) * pow128(k as nat)) % 0x100000000 == v as nat);
        }
        Ok((v, pos + 1))
    } else {
        proof {
            assert(((b - 128) as nat) * pow128(k as nat) <= 127 * pow128(k as nat))
                by (nonlinear_arith)
                requires
                    b >= 128,
            ;
            assert(acc + 127 * pow128(k as nat) < 128 * pow128(k as nat)) by (nonlinear_arith)
                requires
                    acc < pow128(k as nat),
            ;
            assert(128 * pow128(k as nat) == pow128((k + 1) as nat));
            lemma_pow128_small((k + 1) as nat);
        }
        decode_rec(buf, pos + 1, k + 1, acc + ((b - 128) as u32) * mult, mult * 128)
    }
}

impl VariableByteInteger {
    pub fn new() -> (r: VariableByteInteger)
        ensures
            r.data == 0,
    {
        VariableByteInteger { data: 0 }
    }

    pub fn encode(self) -> (encoded: Vec<u8>)
        requires
            self.data <= VARINT_MAX,
        ensures
            encoded@ == spec_varint(self.data as nat),
            1 <= encoded@.len() <= 4,
    {
        VariableByteInteger::encode_u32(self.data)
    }

    pub fn encode_u32(data: u32) -> (encoded: Vec<u8>)
        requires
            data <= VARINT_MAX,
        ensures
            encoded@ == spec_varint(data as nat),
            1 <= encoded@.len() <= 4,
    {
        let mut x: u32 = data;
        let mut encoded: Vec<u8> = Vec::new();
        proof {
            assert(Seq::<u8>::empty() + spec_varint(data as nat) =~= spec_varint(data as nat));
        }
        while x >= 128
            invariant
                x <= data,
                spec_varint(data as nat) == encoded@ + spec_varint(x as nat),
            decreases x,
        {
            let b: u8 = ((x % 128) + 128) as u8;
            proof {
                assert((encoded@ + seq![b]) + spec_varint((x / 128) as nat) =~= encoded@
                    + spec_varint(x as nat));
            }
            encoded.push(b);
            x = x / 128;
        }
        encoded.push(x as u8);
        proof {
            assert(encoded@ =~= spec_varint(data as nat));
            lemma_varint_len(data as nat);
        }
        encoded
    }

    /// Reads a Variable Byte Integer starting at `pos`, returning the value
    /// and the number of bytes consumed. Fails with `Incomplete` when the
    /// buffer ends mid-integer and with `MalformedPacket` when a fifth
    /// continuation byte would be needed.
    pub fn decode(buf: &Vec<u8>, pos: usize) -> (r: Result<(u32, usize), Error>)
        ensures
            (match r {
                Ok((v, n)) => spec_decode_varint(buf@, pos as int) == ParsedVarint::Done(
                    v,
                    pos + n,
                ) && 1 <= n && pos + n <= buf@.len() && v <= VARINT_MAX,
                Err(Error::Incomplete) => spec_decode_varint(buf@, pos as int) is More,
                Err(Error::MalformedPacket) => spec_decode_varint(buf@, pos as int) is Bad,
                Err(_) => false,
            }),
    {
        match decode_rec(buf, pos, 0, 0, 1) {
            Ok((v, end)) => Ok((v, end - pos)),
            Err(e) => Err(e),
        }
    }

    /// Reads a Variable Byte Integer and wraps it in the struct, alongside
    /// the number of bytes consumed.
    pub fn from(buf: &Vec<u8>, pos: usize) -> (r: Result<(VariableByteInteger, usize), Error>)
        ensures
            (match r {
                Ok((vi, n)) => spec_decode_varint(buf@, pos as int) == ParsedVarint::Done(
                    vi.data,
                    pos + n,
                ) && 1 <= n && pos + n <= buf@.len() && vi.data <= VARINT_MAX,
                Err(Error::Incomplete) => spec_decode_varint(buf@, pos as int) is More,
                Err(Error::MalformedPacket) => spec_decode_varint(buf@, pos as int) is Bad,
                Err(_) => false,
            }),
    {
        match VariableByteInteger::decode(buf, pos) {
            Ok((v, n)) => Ok((VariableByteInteger { data: v }, n)),
            Err(e) => Err(e),
        }
    }
}

pub proof fn lemma_varint_round_trip_rec(s: Seq<u8>, pos: int, k: nat, acc: nat, n: nat)
    requires
        k <= 3,
        n < pow128((4 - k) as nat),
        acc < pow128(k),
        0 <= pos,
        pos + spec_varint(n).len() <= s.len(),
        s.subrange(pos, pos + spec_varint(n).len()) == spec_varint(n),
    ensures
        spec_decode_varint_rec(s, pos, k, acc) == ParsedVarint::Done(
            ((acc + n * pow128(k)) % 0x100000000) as u32,
            pos + spec_varint(n).len(),
        ),
    decreases n,
{
    lemma_pow128_small(k);
    let len = spec_varint(n).len();
    assert(s[pos] == spec_varint(n)[0]);
    if n < 128 {
        assert(spec_varint(n) == seq![n as u8]);
        assert(s[pos] == n as u8);
        assert((s[pos] as nat) * pow128(k) == n * pow128(k));
    } else {
        let b: u8 = ((n % 128) + 128) as u8;
        assert(spec_varint(n) == seq![b] + spec_varint(n / 128));
        assert(s[pos] == b);
        assert(b >= 128);
        let acc2 = acc + ((b - 128) as nat) * pow128(k);
        assert((b - 128) as nat == n % 128);
        assert(acc2 < pow128(k + 1)) by (nonlinear_arith)
            requires
                acc < pow128(k),
                acc2 == acc + (n % 128) * pow128(k),
                n % 128 < 128,
                pow128(k + 1) == 128 * pow128(k),
        ;
        assert(n / 128 < pow128((4 - (k + 1)) as nat)) by (nonlinear_arith)
            requires
                n < pow128((4 - k) as nat),
                pow128((4 - k) as nat) == 128 * pow128((4 - (k + 1)) as nat),
        ;
        let len2 = spec_varint(n / 128).len();
        assert(len == 1 + len2);
        assert forall|i: int| 0 <= i < len2 implies #[trigger] s.subrange(
            pos + 1,
            pos + 1 + len2,
        )[i] == spec_varint(n / 128)[i] by {
            assert(s.subrange(pos, pos + len)[i + 1] == s[pos + i + 1]);
            assert(spec_varint(n)[i + 1] == spec_varint(n / 128)[i]);
            assert(s.subrange(pos + 1, pos + 1 + len2)[i] == s[pos + 1 + i]);
        }
        assert(s.subrange(pos + 1, pos + 1 + len2) =~= spec_varint(n / 128));
        lemma_varint_round_trip_rec(s, pos + 1, k + 1, acc2, n / 128);
        assert(acc2 + (n / 128) * pow128(k + 1) == acc + n * pow128(k)) by (nonlinear_arith)
            requires
                acc2 == acc + (n % 128) * pow128(k),
                pow128(k + 1) == 128 * pow128(k),
        ;
    }
}

/// Law: decoding an encoded Variable Byte Integer, with anything at all
/// after it, gives back the value and consumes exactly the encoding, which
/// is at most 4 bytes long.
pub proof fn lemma_varint_round_trip(n: u32, rest: Seq<u8>)
    requires
        n <= VARINT_MAX,
    ensures
        spec_varint(n as nat).len() <= 4,
        spec_decode_varint(spec_varint(n as nat) + rest, 0) == ParsedVarint::Done(
            n,
            spec_varint(n as nat).len() as int,
        ),
{
    lemma_varint_len(n as nat);
    assert(pow128(0) == 1);
    assert(pow128(1) == 128);
    assert(pow128(2) == 16384);
    assert(pow128(3) == 2097152);
    assert(pow128(4) == 268435456);
    let s = spec_varint(n as nat) + rest;
    assert(s.subrange(0, spec_varint(n as nat).len() as int) =~= spec_varint(n as nat));
    lemma_varint_round_trip_rec(s, 0, 0, 0, n as nat);
    assert(pow128(0) == 1);
    assert((n as nat) * 1 == n as nat);
}

} // verus!
