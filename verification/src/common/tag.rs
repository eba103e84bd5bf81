use vstd::prelude::*;
use crate::common::error::Error;
use crate::common::helper::{
    be_array, be_bytes, be_value, decode_unsigned, encode_unsigned, get_len_u32,
    lemma_be_value_of_be_bytes, lemma_low_be_bytes, lemma_unsigned_roundtrip, parse_unsigned,
    unsigned_len, unsigned_wire,
};
use crate::common::io::{
    appended, decoded, lemma_appended_twice, lemma_moved_twice, Reader, Writer,
};

verus! {

/// The primitive type that an application tag announces.
#[derive(Debug, Clone, Copy, PartialEq, Eq, Structural)]
pub enum ApplicationTagNumber {
    Null,
    Boolean,
    UnsignedInt,
    SignedInt,
    Real,
    Double,
    OctetString,
    CharacterString,
    BitString,
    Enumerated,
    Date,
    Time,
    ObjectId,
}

impl ApplicationTagNumber {
    /// The tag number on the wire.
    pub open spec fn code(self) -> u8 {
        match self {
            ApplicationTagNumber::Null => 0,
            ApplicationTagNumber::Boolean => 1,
            ApplicationTagNumber::UnsignedInt => 2,
            ApplicationTagNumber::SignedInt => 3,
            ApplicationTagNumber::Real => 4,
            ApplicationTagNumber::Double => 5,
            ApplicationTagNumber::OctetString => 6,
            ApplicationTagNumber::CharacterString => 7,
            ApplicationTagNumber::BitString => 8,
            ApplicationTagNumber::Enumerated => 9,
            ApplicationTagNumber::Date => 10,
            ApplicationTagNumber::Time => 11,
            ApplicationTagNumber::ObjectId => 12,
        }
    }

    /// The type that a tag number stands for, if it stands for one.
    pub open spec fn of_code(code: u8) -> Option<ApplicationTagNumber> {
        if code == 0 {
            Some(ApplicationTagNumber::Null)
        } else if code == 1 {
            Some(ApplicationTagNumber::Boolean)
        } else if code == 2 {
            Some(ApplicationTagNumber::UnsignedInt)
        } else if code == 3 {
            Some(ApplicationTagNumber::SignedInt)
        } else if code == 4 {
            Some(ApplicationTagNumber::Real)
        } else if code == 5 {
            Some(ApplicationTagNumber::Double)
        } else if code == 6 {
            Some(ApplicationTagNumber::OctetString)
        } else if code == 7 {
            Some(ApplicationTagNumber::CharacterString)
        } else if code == 8 {
            Some(ApplicationTagNumber::BitString)
        } else if code == 9 {
            Some(ApplicationTagNumber::Enumerated)
        } else if code == 10 {
            Some(ApplicationTagNumber::Date)
        } else if code == 11 {
            Some(ApplicationTagNumber::Time)
        } else if code == 12 {
            Some(ApplicationTagNumber::ObjectId)
        } else {
            None
        }
    }

    /// The code on the wire.
    pub fn to_u8(self) -> (code: u8)
        ensures
            code == self.code(),
            code <= 12,
    {
        match self {
            ApplicationTagNumber::Null => 0,
            ApplicationTagNumber::Boolean => 1,
            ApplicationTagNumber::UnsignedInt => 2,
            ApplicationTagNumber::SignedInt => 3,
            ApplicationTagNumber::Real => 4,
            ApplicationTagNumber::Double => 5,
            ApplicationTagNumber::OctetString => 6,
            ApplicationTagNumber::CharacterString => 7,
            ApplicationTagNumber::BitString => 8,
            ApplicationTagNumber::Enumerated => 9,
            ApplicationTagNumber::Date => 10,
            ApplicationTagNumber::Time => 11,
            ApplicationTagNumber::ObjectId => 12,
        }
    }

    /// The value that a code stands for, if it stands for one.
    pub fn from_u8(code: u8) -> (number: Option<ApplicationTagNumber>)
        ensures
            number == ApplicationTagNumber::of_code(code),
    {
        match code {
            0 => Some(ApplicationTagNumber::Null),
            1 => Some(ApplicationTagNumber::Boolean),
            2 => Some(ApplicationTagNumber::UnsignedInt),
            3 => Some(ApplicationTagNumber::SignedInt),
            4 => Some(ApplicationTagNumber::Real),
            5 => Some(ApplicationTagNumber::Double),
            6 => Some(ApplicationTagNumber::OctetString),
            7 => Some(ApplicationTagNumber::CharacterString),
            8 => Some(ApplicationTagNumber::BitString),
            9 => Some(ApplicationTagNumber::Enumerated),
            10 => Some(ApplicationTagNumber::Date),
            11 => Some(ApplicationTagNumber::Time),
            12 => Some(ApplicationTagNumber::ObjectId),
            _ => None,
        }
    }
}

/// The class of a tag together with its number.
#[derive(Debug, Clone, Copy, PartialEq, Eq, Structural)]
pub enum TagNumber {
    /// A value that describes its own type.
    Application(ApplicationTagNumber),
    /// A value whose meaning follows from its place in a structure.
    ContextSpecific(u8),
    /// The start of a constructed value.
    ContextSpecificOpening(u8),
    /// The end of a constructed value.
    ContextSpecificClosing(u8),
}

/// The header that precedes every encoded value: class, number and either the
/// length of what follows or, for a boolean, the value itself.
#[derive(Debug, Clone, Copy, PartialEq, Eq, Structural)]
pub struct Tag {
    pub number: TagNumber,
    pub value: u32,
}

/// The first byte of a tag: the number, or 15 where it is spelled out in the
/// next byte, in the high four bits; then the class bit; then three bits that
/// hold a value up to 4, or 5 for a length that follows, 6 for an opening and
/// 7 for a closing tag.
pub open spec fn first_byte(number: u8, context: bool, low: u8) -> u8 {
    ((if number >= 15 {
        15
    } else {
        number as int
    }) * 16 + (if context {
        8int
    } else {
        0
    }) + low) as u8
}

/// The bytes that spell out a length or value of 5 or more behind the tag: the
/// value itself up to 253, else 254 and two bytes, or 255 and four.
pub open spec fn extended_wire(value: u32) -> Seq<u8> {
    if value <= 4 {
        Seq::empty()
    } else if value <= 253 {
        seq![value as u8]
    } else if value <= 0xFFFF {
        seq![254u8] + be_bytes(value, 2)
    } else {
        seq![255u8] + be_bytes(value, 4)
    }
}

/// The three low bits that announce `value`.
pub open spec fn low_bits(value: u32) -> u8 {
    if value <= 4 {
        value as u8
    } else {
        5
    }
}

/// The byte that spells out a context tag number of 15 or more.
pub open spec fn number_wire(number: u8) -> Seq<u8> {
    if number >= 15 {
        seq![number]
    } else {
        Seq::empty()
    }
}

impl Tag {
    /// An opening or closing tag carries no value.
    pub open spec fn wf(self) -> bool {
        match self.number {
            TagNumber::ContextSpecificOpening(_) | TagNumber::ContextSpecificClosing(_) => self.value
                == 0,
            _ => true,
        }
    }

    /// The tag on the wire.
    pub open spec fn wire(self) -> Seq<u8> {
        match self.number {
            TagNumber::Application(number) => seq![
                first_byte(number.code(), false, low_bits(self.value)),
            ] + extended_wire(self.value),
            TagNumber::ContextSpecific(number) => seq![
                first_byte(number, true, low_bits(self.value)),
            ] + number_wire(number) + extended_wire(self.value),
            TagNumber::ContextSpecificOpening(number) => seq![first_byte(number, true, 6)]
                + number_wire(number),
            TagNumber::ContextSpecificClosing(number) => seq![first_byte(number, true, 7)]
                + number_wire(number),
        }
    }

    /// The tag at the front of `s`, and the number of bytes it takes.
    #[verifier::opaque]
    pub open spec fn parse(s: Seq<u8>) -> Result<(Tag, nat), Error> {
        if s.len() < 1 {
            Err(Error::Truncated)
        } else {
            let high = s[0] / 16;
            let context = (s[0] / 8) % 2 == 1;
            let low = s[0] % 8;
            if !context {
                match ApplicationTagNumber::of_code(high) {
                    None => Err(Error::InvalidValue),
                    Some(number) => if low >= 6 {
                        Err(Error::InvalidValue)
                    } else {
                        match parse_extended(low, s.skip(1)) {
                            Err(e) => Err(e),
                            Ok((value, used)) => Ok(
                                (Tag { number: TagNumber::Application(number), value }, 1 + used),
                            ),
                        }
                    },
                }
            } else {
                match parse_number(high, s.skip(1)) {
                    Err(e) => Err(e),
                    Ok((number, n)) => if low == 6 {
                        Ok((Tag { number: TagNumber::ContextSpecificOpening(number), value: 0 }, 1 + n))
                    } else if low == 7 {
                        Ok((Tag { number: TagNumber::ContextSpecificClosing(number), value: 0 }, 1 + n))
                    } else {
                        match parse_extended(low, s.skip(1 + n as int)) {
                            Err(e) => Err(e),
                            Ok((value, used)) => Ok(
                                (
                                    Tag { number: TagNumber::ContextSpecific(number), value },
                                    1 + n + used,
                                ),
                            ),
                        }
                    },
                }
            }
        }
    }

    /// Puts the parts together.
    pub fn new(number: TagNumber, value: u32) -> (tag: Tag)
        ensures
            tag == (Tag { number, value }),
    {
        Tag { number, value }
    }

    /// The length or value of the tag at the front of `s`, which has to be
    /// of class and number `number`.
    pub open spec fn expect(number: TagNumber, s: Seq<u8>) -> Result<(u32, nat), Error> {
        match Tag::parse(s) {
            Err(e) => Err(e),
            Ok((tag, n)) => if tag.number == number {
                Ok((tag.value, n))
            } else {
                Err(Error::InvalidValue)
            },
        }
    }

    /// The tag at the front of `s`, without the number of bytes it takes.
    pub open spec fn first(s: Seq<u8>) -> Result<Tag, Error> {
        match Tag::parse(s) {
            Err(e) => Err(e),
            Ok((tag, _)) => Ok(tag),
        }
    }

    /// Reads a tag of class and number `number` and returns its length or
    /// value.
    pub fn decode_expected(number: TagNumber, reader: &mut Reader, buf: &[u8]) -> (r: Result<
        u32,
        Error,
    >)
        ensures
            decoded(
                *old(reader),
                *final(reader),
                buf@,
                r,
                Tag::expect(number, old(reader).remaining(buf@)),
            ),
    {
        let start = *reader;
        match Tag::decode(reader, buf) {
            Err(e) => Err(e),
            Ok(tag) => if tag.number == number {
                Ok(tag.value)
            } else {
                *reader = start;
                Err(Error::InvalidValue)
            },
        }
    }

    /// Looks at the next tag without moving past it.
    pub fn peek(reader: &Reader, buf: &[u8]) -> (r: Result<Tag, Error>)
        ensures
            r == Tag::first(reader.remaining(buf@)),
    {
        let mut at = *reader;
        Tag::decode(&mut at, buf)
    }

    /// The number of bytes that the tag takes on the wire.
    pub fn encoded_len(&self) -> (n: usize)
        ensures
            n == self.wire().len(),
            1 <= n <= 7,
    {
        let number_len: usize = match self.number {
            TagNumber::Application(_) => 0,
            TagNumber::ContextSpecific(number)
            | TagNumber::ContextSpecificOpening(number)
            | TagNumber::ContextSpecificClosing(number) => if number >= 15 {
                1
            } else {
                0
            },
        };
        let value_len: usize = match self.number {
            TagNumber::ContextSpecificOpening(_) | TagNumber::ContextSpecificClosing(_) => 0,
            _ => if self.value <= 4 {
                0
            } else if self.value <= 253 {
                1
            } else if self.value <= 0xFFFF {
                3
            } else {
                5
            },
        };
        1 + number_len + value_len
    }

    /// Writes the tag.
    pub fn encode(&self, writer: &mut Writer) -> (r: Result<(), Error>)
        requires
            old(writer).wf(),
        ensures
            appended(*old(writer), *final(writer), r, self.wire()),
    {
        if writer.room() < self.encoded_len() {
            return Err(Error::Overflow);
        }
        let (number, context, plain): (u8, bool, bool) = match self.number {
            TagNumber::Application(number) => (number.to_u8(), false, true),
            TagNumber::ContextSpecific(number) => (number, true, true),
            TagNumber::ContextSpecificOpening(number) => (number, true, false),
            TagNumber::ContextSpecificClosing(number) => (number, true, false),
        };
        let low: u8 = match self.number {
            TagNumber::ContextSpecificOpening(_) => 6,
            TagNumber::ContextSpecificClosing(_) => 7,
            _ => if self.value <= 4 {
                self.value as u8
            } else {
                5
            },
        };
        let high: u8 = if number >= 15 {
            15
        } else {
            number
        };
        let class: u8 = if context {
            8
        } else {
            0
        };
        let first: u8 = high * 16 + class + low;
        assert(first == first_byte(number, context, low));
        let _ = writer.push(first);
        if context && number >= 15 {
            let _ = writer.push(number);
        }
        if plain && self.value > 4 {
            if self.value <= 253 {
                let _ = writer.push(self.value as u8);
            } else if self.value <= 0xFFFF {
                let _ = writer.push(254);
                let _ = encode_unsigned(writer, 2, self.value);
            } else {
                let _ = writer.push(255);
                let _ = encode_unsigned(writer, 4, self.value);
            }
        }
        assert(writer@ =~= old(writer)@ + self.wire());
        Ok(())
    }

    /// Writes the tag and the bytes behind it, or nothing where the two do not
    /// fit.
    pub fn encode_with(&self, bytes: &[u8], writer: &mut Writer) -> (r: Result<(), Error>)
        requires
            old(writer).wf(),
        ensures
            appended(*old(writer), *final(writer), r, self.wire() + bytes@),
    {
        let start = writer.len();
        match self.encode(writer) {
            Ok(()) => {},
            Err(e) => {
                return Err(e);
            },
        }
        let ghost tagged = *writer;
        let r = writer.extend_from_slice(bytes);
        proof {
            lemma_appended_twice(*old(writer), tagged, *writer, r, self.wire(), bytes@);
        }
        writer.settle(start, r)
    }

    /// Writes a tag of class and number `number` that announces `len` bytes,
    /// and the low `len` bytes of `value` behind it, or nothing where the two
    /// do not fit.
    pub fn encode_number(number: TagNumber, len: u32, value: u32, writer: &mut Writer) -> (r: Result<
        (),
        Error,
    >)
        requires
            old(writer).wf(),
            1 <= len <= 4,
        ensures
            appended(
                *old(writer),
                *final(writer),
                r,
                Tag { number, value: len }.wire() + be_bytes(value, len as nat),
            ),
    {
        let bytes = be_array(value);
        let low = vstd::slice::slice_subrange(bytes.as_slice(), 4 - len as usize, 4);
        proof {
            lemma_low_be_bytes(value, len as nat);
        }
        Tag::new(number, len).encode_with(low, writer)
    }

    /// Reads a tag.
    pub fn decode(reader: &mut Reader, buf: &[u8]) -> (r: Result<Tag, Error>)
        ensures
            decoded(*old(reader), *final(reader), buf@, r, Tag::parse(old(reader).remaining(buf@))),
    {
        proof {
            reveal(Tag::parse);
        }
        let mut at = *reader;
        let first = match at.read_byte(buf) {
            Ok(byte) => byte,
            Err(e) => {
                return Err(e);
            },
        };
        let ghost after_first = at;
        let high: u8 = first / 16;
        let context = (first / 8) % 2 == 1;
        let low: u8 = first % 8;
        if !context {
            let number = match ApplicationTagNumber::from_u8(high) {
                Some(number) => number,
                None => {
                    return Err(Error::InvalidValue);
                },
            };
            if low >= 6 {
                return Err(Error::InvalidValue);
            }
            let value = match decode_extended(low, &mut at, buf) {
                Ok(value) => value,
                Err(e) => {
                    return Err(e);
                },
            };
            proof {
                let used = parse_extended(low, after_first.remaining(buf@))->Ok_0.1;
                lemma_moved_twice(*old(reader), after_first, at, buf@, 1, used);
            }
            *reader = at;
            Ok(Tag { number: TagNumber::Application(number), value })
        } else {
            let number: u8 = if high < 15 {
                high
            } else {
                match at.read_byte(buf) {
                    Ok(byte) => byte,
                    Err(e) => {
                        return Err(e);
                    },
                }
            };
            let ghost n: nat = if high < 15 {
                0
            } else {
                1
            };
            let ghost after_number = at;
            proof {
                assert(after_first.remaining(buf@).skip(0) =~= after_first.remaining(buf@));
                lemma_moved_twice(*old(reader), after_first, after_number, buf@, 1, n);
            }
            if low == 6 {
                *reader = at;
                Ok(Tag { number: TagNumber::ContextSpecificOpening(number), value: 0 })
            } else if low == 7 {
                *reader = at;
                Ok(Tag { number: TagNumber::ContextSpecificClosing(number), value: 0 })
            } else {
                let value = match decode_extended(low, &mut at, buf) {
                    Ok(value) => value,
                    Err(e) => {
                        return Err(e);
                    },
                };
                proof {
                    let used = parse_extended(low, after_number.remaining(buf@))->Ok_0.1;
                    lemma_moved_twice(*old(reader), after_number, at, buf@, 1 + n, used);
                }
                *reader = at;
                Ok(Tag { number: TagNumber::ContextSpecific(number), value })
            }
        }
    }
}

/// Reads the length or value that the three low bits `low` announce.
fn decode_extended(low: u8, reader: &mut Reader, buf: &[u8]) -> (r: Result<u32, Error>)
    ensures
        decoded(
            *old(reader),
            *final(reader),
            buf@,
            r,
            parse_extended(low, old(reader).remaining(buf@)),
        ),
{
    if low <= 4 {
        assert(reader.remaining(buf@).skip(0) =~= reader.remaining(buf@));
        return Ok(low as u32);
    }
    let mut at = *reader;
    let ghost s = reader.remaining(buf@);
    let first = match at.read_byte(buf) {
        Ok(byte) => byte,
        Err(e) => {
            return Err(e);
        },
    };
    if first < 254 {
        *reader = at;
        return Ok(first as u32);
    }
    let len: u32 = if first == 255 {
        4
    } else {
        2
    };
    let ghost after_first = at;
    let value = match decode_unsigned(len, &mut at, buf) {
        Ok(value) => value,
        Err(e) => {
            return Err(e);
        },
    };
    proof {
        assert(s.skip(1).take(len as int) =~= s.subrange(1, 1 + len));
        lemma_moved_twice(*old(reader), after_first, at, buf@, 1, len as nat);
    }
    *reader = at;
    Ok(value)
}

/// What spells out a length or value reads back as that value.
pub proof fn lemma_extended_roundtrip(value: u32, rest: Seq<u8>)
    ensures
        parse_extended(low_bits(value), extended_wire(value) + rest) == Ok::<(u32, nat), Error>(
            (value, extended_wire(value).len()),
        ),
{
    let s = extended_wire(value) + rest;
    if value <= 4 {
    } else if value <= 253 {
    } else if value <= 0xFFFF {
        lemma_be_value_of_be_bytes(value, 2);
        assert(s.subrange(1, 3) =~= be_bytes(value, 2));
    } else {
        lemma_be_value_of_be_bytes(value, 4);
        assert(s.subrange(1, 5) =~= be_bytes(value, 4));
    }
}

/// The three parts of a first byte can be read off it again.
proof fn lemma_first_byte(number: u8, context: bool, low: u8)
    requires
        low <= 7,
    ensures
        first_byte(number, context, low) / 16 == (if number >= 15 {
            15
        } else {
            number as int
        }),
        ((first_byte(number, context, low) / 8) % 2 == 1) == context,
        first_byte(number, context, low) % 8 == low,
{
}

proof fn lemma_application_roundtrip(number: ApplicationTagNumber, value: u32, rest: Seq<u8>)
    ensures
        ({
            let tag = Tag { number: TagNumber::Application(number), value };
            Tag::parse(tag.wire() + rest) == Ok::<(Tag, nat), Error>((tag, tag.wire().len()))
        }),
{
    reveal(Tag::parse);
    let tag = Tag { number: TagNumber::Application(number), value };
    let s = tag.wire() + rest;
    lemma_first_byte(number.code(), false, low_bits(value));
    assert(s[0] == first_byte(number.code(), false, low_bits(value)));
    assert(ApplicationTagNumber::of_code(number.code()) == Some(number));
    assert(s.skip(1) =~= extended_wire(value) + rest);
    lemma_extended_roundtrip(value, rest);
}

proof fn lemma_context_roundtrip(number: u8, value: u32, rest: Seq<u8>)
    ensures
        ({
            let tag = Tag { number: TagNumber::ContextSpecific(number), value };
            Tag::parse(tag.wire() + rest) == Ok::<(Tag, nat), Error>((tag, tag.wire().len()))
        }),
{
    reveal(Tag::parse);
    let tag = Tag { number: TagNumber::ContextSpecific(number), value };
    let s = tag.wire() + rest;
    let n = number_wire(number).len();
    lemma_first_byte(number, true, low_bits(value));
    assert(s[0] == first_byte(number, true, low_bits(value)));
    assert(s.skip(1) =~= number_wire(number) + (extended_wire(value) + rest));
    assert(s.skip(1 + n as int) =~= extended_wire(value) + rest);
    lemma_extended_roundtrip(value, rest);
}

proof fn lemma_bracket_roundtrip(number: u8, opening: bool, rest: Seq<u8>)
    ensures
        ({
            let tag = Tag {
                number: if opening {
                    TagNumber::ContextSpecificOpening(number)
                } else {
                    TagNumber::ContextSpecificClosing(number)
                },
                value: 0,
            };
            Tag::parse(tag.wire() + rest) == Ok::<(Tag, nat), Error>((tag, tag.wire().len()))
        }),
{
    reveal(Tag::parse);
    let low: u8 = if opening {
        6
    } else {
        7
    };
    let s = seq![first_byte(number, true, low)] + number_wire(number) + rest;
    lemma_first_byte(number, true, low);
    assert(s[0] == first_byte(number, true, low));
    assert(s.skip(1) =~= number_wire(number) + rest);
}

/// Decoding an encoded tag, whatever follows it, gives the tag back and uses
/// exactly its bytes: for every class, every tag number on either side of 15
/// and every length or value on either side of 5.
pub proof fn lemma_tag_roundtrip(tag: Tag, rest: Seq<u8>)
    requires
        tag.wf(),
    ensures
        Tag::parse(tag.wire() + rest) == Ok::<(Tag, nat), Error>((tag, tag.wire().len())),
{
    match tag.number {
        TagNumber::Application(number) => {
            lemma_application_roundtrip(number, tag.value, rest);
        },
        TagNumber::ContextSpecific(number) => {
            lemma_context_roundtrip(number, tag.value, rest);
        },
        TagNumber::ContextSpecificOpening(number) => {
            lemma_bracket_roundtrip(number, true, rest);
        },
        TagNumber::ContextSpecificClosing(number) => {
            lemma_bracket_roundtrip(number, false, rest);
        },
    }
}

/// A tag takes at least one byte.
pub proof fn lemma_tag_parse_used(s: Seq<u8>)
    ensures
        Tag::parse(s) matches Ok((_, n)) ==> n >= 1,
{
    reveal(Tag::parse);
}

/// A tag in front of a payload reads as that tag, and the payload is what
/// follows it.
pub proof fn lemma_tagged_split(tag: Tag, payload: Seq<u8>)
    requires
        tag.wf(),
    ensures
        Tag::parse(tag.wire() + payload) == Ok::<(Tag, nat), Error>((tag, tag.wire().len())),
        (tag.wire() + payload).skip(tag.wire().len() as int) == payload,
{
    lemma_tag_roundtrip(tag, payload);
    assert((tag.wire() + payload).skip(tag.wire().len() as int) =~= payload);
}

/// A tag and a payload cut short: inside the tag nothing is read; behind it
/// the tag is read and the payload is what is left of it.
pub proof fn lemma_tagged_take(tag: Tag, payload: Seq<u8>, k: int)
    requires
        tag.wf(),
        0 <= k <= tag.wire().len() + payload.len(),
    ensures
        k < tag.wire().len() ==> Tag::parse((tag.wire() + payload).take(k)) == Err::<
            (Tag, nat),
            Error,
        >(Error::Truncated),
        k >= tag.wire().len() ==> Tag::parse((tag.wire() + payload).take(k)) == Ok::<
            (Tag, nat),
            Error,
        >((tag, tag.wire().len())) && (tag.wire() + payload).take(k).skip(
            tag.wire().len() as int,
        ) == payload.take(k - tag.wire().len()),
{
    let n = tag.wire().len() as int;
    if k < n {
        lemma_tag_truncated(tag, k);
        assert((tag.wire() + payload).take(k) =~= tag.wire().take(k));
    } else {
        assert((tag.wire() + payload).take(k) =~= tag.wire() + payload.take(k - n));
        lemma_tagged_split(tag, payload.take(k - n));
    }
}

/// A tag cut short anywhere reads as truncated input, never as another tag.
pub proof fn lemma_tag_truncated(tag: Tag, k: int)
    requires
        0 <= k < tag.wire().len(),
    ensures
        Tag::parse(tag.wire().take(k)) == Err::<(Tag, nat), Error>(Error::Truncated),
{
    reveal(Tag::parse);
    let s = tag.wire().take(k);
    if k >= 1 {
        match tag.number {
            TagNumber::Application(number) => {
                assert(ApplicationTagNumber::of_code(number.code()) == Some(number));
                assert(s.skip(1) =~= extended_wire(tag.value).take(k - 1));
            },
            TagNumber::ContextSpecific(number) => {
                let n = number_wire(number).len();
                assert(s.skip(1) =~= (number_wire(number) + extended_wire(tag.value)).take(k - 1));
                if k >= 1 + n {
                    assert(s.skip(1 + n as int) =~= extended_wire(tag.value).take(k - 1 - n));
                }
            },
            TagNumber::ContextSpecificOpening(number) => {
                assert(s.skip(1) =~= number_wire(number).take(k - 1));
            },
            TagNumber::ContextSpecificClosing(number) => {
                assert(s.skip(1) =~= number_wire(number).take(k - 1));
            },
        }
    }
}

/// The context tag number that the high four bits `high` of a first byte
/// announce: themselves, or the byte that follows where they are 15.
pub open spec fn parse_number(high: u8, s: Seq<u8>) -> Result<(u8, nat), Error> {
    if high < 15 {
        Ok((high, 0nat))
    } else if s.len() < 1 {
        Err(Error::Truncated)
    } else {
        Ok((s[0], 1nat))
    }
}

/// The length or value that the three low bits `low` of a first byte announce:
/// themselves up to 4, else what the bytes that follow spell out.
pub open spec fn parse_extended(low: u8, s: Seq<u8>) -> Result<(u32, nat), Error> {
    if low <= 4 {
        Ok((low as u32, 0nat))
    } else if s.len() < 1 {
        Err(Error::Truncated)
    } else if s[0] == 255 {
        if s.len() < 5 {
            Err(Error::Truncated)
        } else {
            Ok((be_value(s.subrange(1, 5)) as u32, 5nat))
        }
    } else if s[0] == 254 {
        if s.len() < 3 {
            Err(Error::Truncated)
        } else {
            Ok((be_value(s.subrange(1, 3)) as u32, 3nat))
        }
    } else {
        Ok((s[0] as u32, 1nat))
    }
}

/// An unsigned number behind a context tag of number `number`.
pub open spec fn context_unsigned_wire(number: u8, value: u32) -> Seq<u8> {
    Tag { number: TagNumber::ContextSpecific(number), value: unsigned_len(value) as u32 }.wire()
        + unsigned_wire(value)
}

/// The unsigned number at the front of `s` behind a context tag, which has to
/// be of number `number`.
pub open spec fn parse_context_unsigned(number: u8, s: Seq<u8>) -> Result<(u32, nat), Error> {
    match Tag::expect(TagNumber::ContextSpecific(number), s) {
        Err(e) => Err(e),
        Ok((len, n)) => match parse_unsigned(len, s.skip(n as int)) {
            Err(e) => Err(e),
            Ok((value, m)) => Ok((value, n + m)),
        },
    }
}

/// Writes an unsigned number behind a context tag, or nothing where the two
/// do not fit.
pub fn encode_context_unsigned(number: u8, value: u32, writer: &mut Writer) -> (r: Result<(), Error>)
    requires
        old(writer).wf(),
    ensures
        appended(*old(writer), *final(writer), r, context_unsigned_wire(number, value)),
{
    Tag::encode_number(TagNumber::ContextSpecific(number), get_len_u32(value), value, writer)
}

/// Reads an unsigned number behind a context tag of number `number`.
pub fn decode_context_unsigned(number: u8, reader: &mut Reader, buf: &[u8]) -> (r: Result<
    u32,
    Error,
>)
    ensures
        decoded(
            *old(reader),
            *final(reader),
            buf@,
            r,
            parse_context_unsigned(number, old(reader).remaining(buf@)),
        ),
{
    let mut at = *reader;
    let len = match Tag::decode_expected(TagNumber::ContextSpecific(number), &mut at, buf) {
        Ok(len) => len,
        Err(e) => {
            return Err(e);
        },
    };
    let ghost behind_tag = at;
    let value = match decode_unsigned(len, &mut at, buf) {
        Ok(value) => value,
        Err(e) => {
            return Err(e);
        },
    };
    proof {
        let n = Tag::expect(TagNumber::ContextSpecific(number), reader.remaining(buf@))->Ok_0.1;
        let m = parse_unsigned(len, behind_tag.remaining(buf@))->Ok_0.1;
        lemma_moved_twice(*old(reader), behind_tag, at, buf@, n, m);
    }
    *reader = at;
    Ok(value)
}

/// An unsigned number behind a context tag reads back as that number,
/// whatever follows it.
pub proof fn lemma_context_unsigned_roundtrip(number: u8, value: u32, rest: Seq<u8>)
    ensures
        parse_context_unsigned(number, context_unsigned_wire(number, value) + rest) == Ok::<
            (u32, nat),
            Error,
        >((value, context_unsigned_wire(number, value).len())),
{
    let tag = Tag { number: TagNumber::ContextSpecific(number), value: unsigned_len(value) as u32 };
    assert(context_unsigned_wire(number, value) + rest =~= tag.wire() + (unsigned_wire(value)
        + rest));
    lemma_tagged_split(tag, unsigned_wire(value) + rest);
    lemma_unsigned_roundtrip(value, rest);
    lemma_be_value_of_be_bytes(value, unsigned_len(value));
}

} // verus!
