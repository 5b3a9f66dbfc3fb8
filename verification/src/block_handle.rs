//! The handle of a block of a table file: where the block starts and how
//! long it is, written as two unsigned 64-bit integers in big-endian order.
use vstd::prelude::*;
use crate::error::{Error, ErrorModel};

verus! {

/// The number of bytes that an encoded handle takes.
pub const ENCODED_SIZE: usize = 16;

/// The eight bytes of `x` in big-endian order: the most significant first.
pub open spec fn be_bytes(x: u64) -> Seq<u8> {
    seq![
        (x / 0x100_0000_0000_0000 % 0x100) as u8,
        (x / 0x1_0000_0000_0000 % 0x100) as u8,
        (x / 0x100_0000_0000 % 0x100) as u8,
        (x / 0x1_0000_0000 % 0x100) as u8,
        (x / 0x100_0000 % 0x100) as u8,
        (x / 0x1_0000 % 0x100) as u8,
        (x / 0x100 % 0x100) as u8,
        (x % 0x100) as u8,
    ]
}

/// The integer that the first eight bytes of `s` spell in big-endian order.
pub open spec fn be_value(s: Seq<u8>) -> int {
    s[0] * 0x100_0000_0000_0000 + s[1] * 0x1_0000_0000_0000 + s[2] * 0x100_0000_0000 + s[3]
        * 0x1_0000_0000 + s[4] * 0x100_0000 + s[5] * 0x1_0000 + s[6] * 0x100 + s[7]
}

/// The quotients of `x` by the powers of 256, each from the one before.
proof fn lemma_quotients(x: int)
    requires
        0 <= x,
    ensures
        x / 0x1_0000 == x / 0x100 / 0x100,
        x / 0x100_0000 == x / 0x1_0000 / 0x100,
        x / 0x1_0000_0000 == x / 0x100_0000 / 0x100,
        x / 0x100_0000_0000 == x / 0x1_0000_0000 / 0x100,
        x / 0x1_0000_0000_0000 == x / 0x100_0000_0000 / 0x100,
        x / 0x100_0000_0000_0000 == x / 0x1_0000_0000_0000 / 0x100,
{
    vstd::arithmetic::div_mod::lemma_div_denominator(x, 0x100, 0x100);
    vstd::arithmetic::div_mod::lemma_div_denominator(x, 0x1_0000, 0x100);
    vstd::arithmetic::div_mod::lemma_div_denominator(x, 0x100_0000, 0x100);
    vstd::arithmetic::div_mod::lemma_div_denominator(x, 0x1_0000_0000, 0x100);
    vstd::arithmetic::div_mod::lemma_div_denominator(x, 0x100_0000_0000, 0x100);
    vstd::arithmetic::div_mod::lemma_div_denominator(x, 0x1_0000_0000_0000, 0x100);
}

/// The bytes of an integer spell that integer.
pub proof fn lemma_be_value_of_bytes(x: u64)
    ensures
        be_bytes(x).len() == 8,
        be_value(be_bytes(x)) == x,
{
    lemma_quotients(x as int);
    let q1 = x / 0x100;
    let q2 = q1 / 0x100;
    let q3 = q2 / 0x100;
    let q4 = q3 / 0x100;
    let q5 = q4 / 0x100;
    let q6 = q5 / 0x100;
    let q7 = q6 / 0x100;
    assert(q7 < 0x100);
    assert(x == q1 * 0x100 + x % 0x100);
    assert(q1 == q2 * 0x100 + q1 % 0x100);
    assert(q2 == q3 * 0x100 + q2 % 0x100);
    assert(q3 == q4 * 0x100 + q3 % 0x100);
    assert(q4 == q5 * 0x100 + q4 % 0x100);
    assert(q5 == q6 * 0x100 + q5 % 0x100);
    assert(q6 == q7 * 0x100 + q6 % 0x100);
    let s = be_bytes(x);
    assert(s[0] == q7 % 0x100);
    assert(s[1] == q6 % 0x100);
    assert(s[2] == q5 % 0x100);
    assert(s[3] == q4 % 0x100);
    assert(s[4] == q3 % 0x100);
    assert(s[5] == q2 % 0x100);
    assert(s[6] == q1 % 0x100);
    assert(s[7] == x % 0x100);
}

/// The integer that eight bytes spell has these bytes.
pub proof fn lemma_be_bytes_of_value(s: Seq<u8>)
    requires
        s.len() == 8,
    ensures
        be_bytes(be_value(s) as u64) == s,
{
    let x = be_value(s);
    lemma_quotients(x);
    let q1 = x / 0x100;
    let q2 = q1 / 0x100;
    let q3 = q2 / 0x100;
    let q4 = q3 / 0x100;
    let q5 = q4 / 0x100;
    let q6 = q5 / 0x100;
    let q7 = q6 / 0x100;
    let h1 = s[0] * 0x1_0000_0000_0000 + s[1] * 0x100_0000_0000 + s[2] * 0x1_0000_0000 + s[3]
        * 0x100_0000 + s[4] * 0x1_0000 + s[5] * 0x100 + s[6];
    assert(x == h1 * 0x100 + s[7]);
    assert(q1 == h1 && x % 0x100 == s[7]);
    let h2 = s[0] * 0x100_0000_0000 + s[1] * 0x1_0000_0000 + s[2] * 0x100_0000 + s[3] * 0x1_0000
        + s[4] * 0x100 + s[5];
    assert(h1 == h2 * 0x100 + s[6]);
    assert(q2 == h2 && q1 % 0x100 == s[6]);
    let h3 = s[0] * 0x1_0000_0000 + s[1] * 0x100_0000 + s[2] * 0x1_0000 + s[3] * 0x100 + s[4];
    assert(h2 == h3 * 0x100 + s[5]);
    assert(q3 == h3 && q2 % 0x100 == s[5]);
    let h4 = s[0] * 0x100_0000 + s[1] * 0x1_0000 + s[2] * 0x100 + s[3];
    assert(h3 == h4 * 0x100 + s[4]);
    assert(q4 == h4 && q3 % 0x100 == s[4]);
    let h5 = s[0] * 0x1_0000 + s[1] * 0x100 + s[2];
    assert(h4 == h5 * 0x100 + s[3]);
    assert(q5 == h5 && q4 % 0x100 == s[3]);
    let h6 = s[0] * 0x100 + s[1];
    assert(h5 == h6 * 0x100 + s[2]);
    assert(q6 == h6 && q5 % 0x100 == s[2]);
    assert(q7 == s[0] && q6 % 0x100 == s[1]);
    assert(q7 % 0x100 == s[0]);
    let t = be_bytes(x as u64);
    assert(t[0] == s[0]);
    assert(t[1] == s[1]);
    assert(t[2] == s[2]);
    assert(t[3] == s[3]);
    assert(t[4] == s[4]);
    assert(t[5] == s[5]);
    assert(t[6] == s[6]);
    assert(t[7] == s[7]);
    assert(t =~= s);
}

/// Where a block lies in its file.
#[derive(Clone, Copy, Debug, PartialEq, Eq, Structural)]
pub struct BlockHandle {
    pub offset: u64,
    pub length: u64,
}

/// Appends `n` to `buf` as eight bytes in big-endian order, by
/// `bytes::BufMut::put_u64` on a vector, which extends the vector by the
/// big-endian bytes of `n` and fails only where the vector cannot grow by
/// eight bytes.
#[verifier::external_body]
fn put_u64(buf: &mut Vec<u8>, n: u64)
    requires
        old(buf)@.len() + 8 <= isize::MAX,
    ensures
        final(buf)@ == old(buf)@ + be_bytes(n),
{
    bytes::BufMut::put_u64(buf, n)
}

/// The number of bytes left to read, by `bytes::Buf::remaining` on a byte
/// slice, which is the length of the slice.
#[verifier::external_body]
fn remaining(buf: &&[u8]) -> (n: usize)
    ensures
        n == buf@.len(),
{
    bytes::Buf::remaining(buf)
}

/// Reads eight bytes as an integer in big-endian order, by
/// `bytes::Buf::get_u64` on a byte slice, which returns the integer that
/// the first eight bytes spell and leaves the slice without them. It fails
/// where fewer than eight bytes are left.
#[verifier::external_body]
fn get_u64(buf: &mut &[u8]) -> (n: u64)
    requires
        old(buf)@.len() >= 8,
    ensures
        n == be_value(old(buf)@),
        final(buf)@ == old(buf)@.subrange(8, old(buf)@.len() as int),
{
    bytes::Buf::get_u64(buf)
}

impl BlockHandle {
    /// The sixteen bytes of a handle: the offset, then the length.
    pub open spec fn encoding(self) -> Seq<u8> {
        be_bytes(self.offset) + be_bytes(self.length)
    }

    /// The handle that the first sixteen bytes of `bytes` spell.
    pub open spec fn decoding(bytes: Seq<u8>) -> BlockHandle {
        BlockHandle {
            offset: be_value(bytes) as u64,
            length: be_value(bytes.subrange(8, bytes.len() as int)) as u64,
        }
    }

    /// Decoding what was encoded gives the handle back, whatever follows
    /// the sixteen bytes.
    pub proof fn law_decoding_inverts_encoding(self, rest: Seq<u8>)
        ensures
            self.encoding().len() == ENCODED_SIZE,
            Self::decoding(self.encoding() + rest) == self,
    {
        let bytes = self.encoding() + rest;
        lemma_be_value_of_bytes(self.offset);
        lemma_be_value_of_bytes(self.length);
        assert(be_value(bytes) == be_value(be_bytes(self.offset)));
        assert(be_value(bytes.subrange(8, bytes.len() as int)) == be_value(
            be_bytes(self.length),
        ));
    }

    /// Encoding what was decoded gives the sixteen bytes back.
    pub proof fn law_encoding_inverts_decoding(bytes: Seq<u8>)
        requires
            bytes.len() >= ENCODED_SIZE,
        ensures
            Self::decoding(bytes).encoding() == bytes.subrange(0, ENCODED_SIZE as int),
    {
        let first = bytes.subrange(0, 8);
        let second = bytes.subrange(8, 16);
        lemma_be_bytes_of_value(first);
        lemma_be_bytes_of_value(second);
        assert(be_value(bytes) == be_value(first));
        assert(be_value(bytes.subrange(8, bytes.len() as int)) == be_value(second));
        assert(first + second =~= bytes.subrange(0, ENCODED_SIZE as int));
    }

    /// Appends the encoding of the handle to `buf`.
    pub fn encode_to(&self, buf: &mut Vec<u8>)
        requires
            old(buf)@.len() + ENCODED_SIZE <= isize::MAX,
        ensures
            final(buf)@ == old(buf)@ + self.encoding(),
    {
        put_u64(buf, self.offset);
        put_u64(buf, self.length);
        assert(buf@ =~= old(buf)@ + self.encoding());
    }

    /// The encoding of the handle.
    pub fn encode_to_vec(&self) -> (bytes: Vec<u8>)
        ensures
            bytes@ == self.encoding(),
            bytes@.len() == ENCODED_SIZE,
    {
        let mut buf = Vec::with_capacity(ENCODED_SIZE);
        self.encode_to(&mut buf);
        assert(buf@ =~= self.encoding());
        buf
    }

    /// Reads a handle from the front of `buf`, and leaves `buf` behind the
    /// sixteen bytes read. Where `buf` holds fewer than sixteen bytes
    /// nothing is read, and the bytes are reported as corrupted.
    pub fn decode_from(buf: &mut &[u8]) -> (res: Result<BlockHandle, Error>)
        ensures
            old(buf)@.len() >= ENCODED_SIZE ==> {
                &&& res == Ok::<BlockHandle, Error>(Self::decoding(old(buf)@))
                &&& final(buf)@ == old(buf)@.subrange(
                    ENCODED_SIZE as int,
                    old(buf)@.len() as int,
                )
            },
            old(buf)@.len() < ENCODED_SIZE ==> {
                &&& res matches Err(e) && e@ == ErrorModel::Corrupted(
                    "block handle is too small"@,
                )
                &&& final(buf)@ == old(buf)@
            },
    {
        if remaining(buf) >= ENCODED_SIZE {
            let offset = get_u64(buf);
            let length = get_u64(buf);
            assert(buf@ =~= old(buf)@.subrange(ENCODED_SIZE as int, old(buf)@.len() as int));
            let handle = BlockHandle { offset, length };
            Ok(handle)
        } else {
            Err(Error::corrupted("block handle is too small"))
        }
    }
}

} // verus!
