use vstd::prelude::*;
use crate::common::error::Error;
use crate::common::io::{appended, decoded, unchanged, Reader, Writer};

verus! {

/// The least number of bytes that hold `value`.
pub open spec fn unsigned_len(value: u32) -> nat {
    if value < 0x100 {
        1
    } else if value < 0x1_0000 {
        2
    } else if value < 0x100_0000 {
        3
    } else {
        4
    }
}

/// The low `len` bytes of `value`, most significant first, for `len` from 1
/// to 4; no bytes for any other `len`.
pub open spec fn be_bytes(value: u32, len: nat) -> Seq<u8> {
    let b0 = (value % 256) as u8;
    let b1 = ((value / 0x100) % 256) as u8;
    let b2 = ((value / 0x1_0000) % 256) as u8;
    let b3 = ((value / 0x100_0000) % 256) as u8;
    if len == 1 {
        seq![b0]
    } else if len == 2 {
        seq![b1, b0]
    } else if len == 3 {
        seq![b2, b1, b0]
    } else if len == 4 {
        seq![b3, b2, b1, b0]
    } else {
        Seq::empty()
    }
}

/// The number that up to four bytes spell, most significant first.
pub open spec fn be_value(s: Seq<u8>) -> nat {
    if s.len() == 1 {
        s[0] as nat
    } else if s.len() == 2 {
        (s[0] * 0x100 + s[1]) as nat
    } else if s.len() == 3 {
        (s[0] * 0x1_0000 + s[1] * 0x100 + s[2]) as nat
    } else if s.len() == 4 {
        (s[0] * 0x100_0000 + s[1] * 0x1_0000 + s[2] * 0x100 + s[3]) as nat
    } else {
        0
    }
}

/// An unsigned number in the fewest bytes that hold it.
pub open spec fn unsigned_wire(value: u32) -> Seq<u8> {
    be_bytes(value, unsigned_len(value))
}

/// What `len` declared bytes at the front of `s` hold as an unsigned number.
/// A declared length of nothing, or of more than four bytes, is refused.
pub open spec fn parse_unsigned(len: u32, s: Seq<u8>) -> Result<(u32, nat), Error> {
    if len < 1 || len > 4 {
        Err(Error::InvalidValue)
    } else if s.len() < len {
        Err(Error::Truncated)
    } else {
        Ok((be_value(s.take(len as int)) as u32, len as nat))
    }
}

/// Bytes written for a number that fits them spell that number again.
pub proof fn lemma_be_value_of_be_bytes(value: u32, len: nat)
    requires
        unsigned_len(value) <= len <= 4,
    ensures
        be_bytes(value, len).len() == len,
        be_value(be_bytes(value, len)) == value,
{
}

/// Up to four bytes never spell more than a `u32` holds.
pub proof fn lemma_be_value_bound(s: Seq<u8>)
    ensures
        be_value(s) <= u32::MAX,
        s.len() == 1 ==> be_value(s) < 0x100,
        s.len() == 2 ==> be_value(s) < 0x1_0000,
        s.len() == 3 ==> be_value(s) < 0x100_0000,
{
}

/// Decoding the shortest encoding of a number, whatever follows it, gives
/// the number back and uses exactly those bytes.
pub proof fn lemma_unsigned_roundtrip(value: u32, rest: Seq<u8>)
    ensures
        parse_unsigned(unsigned_len(value) as u32, unsigned_wire(value) + rest) == Ok::<
            (u32, nat),
            Error,
        >((value, unsigned_len(value))),
{
    let len = unsigned_len(value);
    lemma_be_value_of_be_bytes(value, len);
    assert((unsigned_wire(value) + rest).take(len as int) =~= unsigned_wire(value));
}

/// The least number of bytes that hold `value`: 1 up to 255, 2 up to 65,535,
/// 3 up to 16,777,215, and 4 beyond.
pub fn get_len_u32(value: u32) -> (len: u32)
    ensures
        len == unsigned_len(value),
        1 <= len <= 4,
{
    if value < 0x100 {
        1
    } else if value < 0x1_0000 {
        2
    } else if value < 0x100_0000 {
        3
    } else {
        4
    }
}

/// The four bytes of `value`, most significant first.
pub fn be_array(value: u32) -> (bytes: [u8; 4])
    ensures
        bytes@ == be_bytes(value, 4),
{
    let bytes: [u8; 4] = [
        ((value / 0x100_0000) % 256) as u8,
        ((value / 0x1_0000) % 256) as u8,
        ((value / 0x100) % 256) as u8,
        (value % 256) as u8,
    ];
    assert(bytes@ =~= be_bytes(value, 4));
    bytes
}

/// The low bytes of a number are the last of its four bytes.
pub proof fn lemma_low_be_bytes(value: u32, len: nat)
    requires
        1 <= len <= 4,
    ensures
        be_bytes(value, 4).subrange(4 - len, 4) == be_bytes(value, len),
{
    assert(be_bytes(value, 4).subrange(4 - len, 4) =~= be_bytes(value, len));
}

/// Writes the low `len` bytes of `value`, most significant first.
pub fn encode_unsigned(writer: &mut Writer, len: u32, value: u32) -> (r: Result<(), Error>)
    requires
        old(writer).wf(),
    ensures
        1 <= len <= 4 ==> appended(*old(writer), *final(writer), r, be_bytes(value, len as nat)),
        !(1 <= len <= 4) ==> r == Err::<(), Error>(Error::InvalidValue) && unchanged(
            *old(writer),
            *final(writer),
        ),
{
    if len < 1 || len > 4 {
        return Err(Error::InvalidValue);
    }
    if writer.room() < len as usize {
        return Err(Error::Overflow);
    }
    let b0: u8 = (value % 256) as u8;
    let b1: u8 = ((value / 0x100) % 256) as u8;
    let b2: u8 = ((value / 0x1_0000) % 256) as u8;
    let b3: u8 = ((value / 0x100_0000) % 256) as u8;
    if len >= 4 {
        let _ = writer.push(b3);
    }
    if len >= 3 {
        let _ = writer.push(b2);
    }
    if len >= 2 {
        let _ = writer.push(b1);
    }
    let _ = writer.push(b0);
    assert(writer@ =~= old(writer)@ + be_bytes(value, len as nat));
    Ok(())
}

/// Reads an unsigned number of `len` bytes, most significant first.
pub fn decode_unsigned(len: u32, reader: &mut Reader, buf: &[u8]) -> (r: Result<u32, Error>)
    ensures
        decoded(
            *old(reader),
            *final(reader),
            buf@,
            r,
            parse_unsigned(len, old(reader).remaining(buf@)),
        ),
{
    if len < 1 || len > 4 {
        return Err(Error::InvalidValue);
    }
    let bytes = match reader.read_slice(len as usize, buf) {
        Ok(bytes) => bytes,
        Err(e) => {
            return Err(e);
        },
    };
    proof {
        lemma_be_value_bound(bytes@);
    }
    let mut value: u32 = 0;
    let mut i: usize = 0;
    while i < bytes.len()
        invariant
            i <= bytes@.len() <= 4,
            value == be_value(bytes@.take(i as int)),
            i < 4 ==> value < 0x100_0000,
        decreases bytes@.len() - i,
    {
        proof {
            lemma_be_value_bound(bytes@.take(i as int));
            lemma_be_value_bound(bytes@.take(i + 1));
            assert(forall|k: int| 0 <= k <= i ==> bytes@.take(i + 1)[k] == bytes@[k]);
            assert(forall|k: int| 0 <= k < i ==> bytes@.take(i as int)[k] == bytes@[k]);
        }
        value = value * 256 + bytes[i] as u32;
        i = i + 1;
    }
    assert(bytes@.take(i as int) =~= bytes@);
    Ok(value)
}

} // verus!
