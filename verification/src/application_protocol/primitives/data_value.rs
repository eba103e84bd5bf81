use vstd::prelude::*;
use crate::common::error::Error;
use crate::common::helper::{
    be_bytes, decode_unsigned, get_len_u32, lemma_unsigned_roundtrip, parse_unsigned, unsigned_len,
    unsigned_wire,
};
use crate::common::io::{
    appended, decoded, decoded_as, encoded, lemma_moved_on, lemma_moved_twice, Reader, Writer,
};
use crate::common::daily_schedule::WeeklySchedule;
use crate::common::list::status;
use crate::common::object_id::{ObjectId, ObjectType};
use crate::common::property_id::PropertyId;
use crate::common::spec::{
    Binary, EngineeringUnits, EventState, LogBufferResultFlags, LoggingType, NotifyType,
    StatusFlags,
};
use vstd::string::StringSliceAdditionalSpecFns;
use vstd::utf8::{decode_utf8, encode_utf8, valid_utf8};
use crate::common::helper::lemma_be_value_of_be_bytes;
use crate::common::object_id::lemma_object_id_roundtrip;
use crate::common::tag::{
    lemma_tagged_split, lemma_tagged_take, ApplicationTagNumber, Tag, TagNumber,
};

verus! {

/// An enumerated value. The wire carries only a number; what the number means
/// follows from the property it belongs to and from the kind of the object.
#[derive(Debug, Clone, Copy, PartialEq, Eq, Structural)]
pub enum Enumerated {
    Units(EngineeringUnits),
    Binary(Binary),
    ObjectType(ObjectType),
    EventState(EventState),
    NotifyType(NotifyType),
    LoggingType(LoggingType),
    /// A number with no known meaning in its place, carried as it is.
    Unknown(u32),
}

/// Whether objects of this kind have a binary present value.
pub open spec fn is_binary_kind(object_type: ObjectType) -> bool {
    object_type == ObjectType::ObjectBinaryInput || object_type == ObjectType::ObjectBinaryOutput
        || object_type == ObjectType::ObjectBinaryValue
}

impl Enumerated {
    /// The number on the wire.
    pub open spec fn code(self) -> u32 {
        match self {
            Enumerated::Units(x) => x.code(),
            Enumerated::Binary(x) => x.code(),
            Enumerated::ObjectType(x) => x.code(),
            Enumerated::EventState(x) => x.code(),
            Enumerated::NotifyType(x) => x.code(),
            Enumerated::LoggingType(x) => x.code(),
            Enumerated::Unknown(x) => x,
        }
    }

    /// What the number `value` means for property `property_id` of an object
    /// of kind `object_type`. A number without a meaning there stays raw.
    pub open spec fn resolve(value: u32, object_type: ObjectType, property_id: PropertyId) -> Enumerated {
        match property_id {
            PropertyId::PropUnits => match EngineeringUnits::of_code(value) {
                Some(x) => Enumerated::Units(x),
                None => Enumerated::Unknown(value),
            },
            PropertyId::PropPresentValue => if is_binary_kind(object_type) {
                match Binary::of_code(value) {
                    Some(x) => Enumerated::Binary(x),
                    None => Enumerated::Unknown(value),
                }
            } else {
                Enumerated::Unknown(value)
            },
            PropertyId::PropObjectType => match ObjectType::of_code(value) {
                Some(x) => Enumerated::ObjectType(x),
                None => Enumerated::Unknown(value),
            },
            PropertyId::PropEventState => match EventState::of_code(value) {
                Some(x) => Enumerated::EventState(x),
                None => Enumerated::Unknown(value),
            },
            PropertyId::PropNotifyType => match NotifyType::of_code(value) {
                Some(x) => Enumerated::NotifyType(x),
                None => Enumerated::Unknown(value),
            },
            PropertyId::PropLoggingType => match LoggingType::of_code(value) {
                Some(x) => Enumerated::LoggingType(x),
                None => Enumerated::Unknown(value),
            },
            _ => Enumerated::Unknown(value),
        }
    }

    /// The value is the reading of its own number in the given place.
    pub open spec fn fits(self, object_type: ObjectType, property_id: PropertyId) -> bool {
        Enumerated::resolve(self.code(), object_type, property_id) == self
    }

    /// The tag of the value on the wire.
    pub open spec fn tag(self) -> Tag {
        Tag {
            number: TagNumber::Application(ApplicationTagNumber::Enumerated),
            value: unsigned_len(self.code()) as u32,
        }
    }

    /// The value on the wire: its tag and its number in the fewest bytes.
    pub open spec fn wire(self) -> Seq<u8> {
        self.tag().wire() + unsigned_wire(self.code())
    }

    /// The number on the wire.
    pub fn to_u32(&self) -> (code: u32)
        ensures
            code == self.code(),
    {
        match self {
            Enumerated::Units(x) => x.to_u32(),
            Enumerated::Binary(x) => x.to_u32(),
            Enumerated::ObjectType(x) => x.to_u32(),
            Enumerated::EventState(x) => x.to_u32(),
            Enumerated::NotifyType(x) => x.to_u32(),
            Enumerated::LoggingType(x) => x.to_u32(),
            Enumerated::Unknown(x) => *x,
        }
    }

    /// Reads the number `value` as the place it comes from demands.
    pub fn from_u32(value: u32, object_type: ObjectType, property_id: PropertyId) -> (e: Enumerated)
        ensures
            e == Enumerated::resolve(value, object_type, property_id),
            e.code() == value,
            e.fits(object_type, property_id),
    {
        match property_id {
            PropertyId::PropUnits => match EngineeringUnits::from_u32(value) {
                Some(x) => Enumerated::Units(x),
                None => Enumerated::Unknown(value),
            },
            PropertyId::PropPresentValue => match object_type {
                ObjectType::ObjectBinaryInput
                | ObjectType::ObjectBinaryOutput
                | ObjectType::ObjectBinaryValue => match Binary::from_u32(value) {
                    Some(x) => Enumerated::Binary(x),
                    None => Enumerated::Unknown(value),
                },
                _ => Enumerated::Unknown(value),
            },
            PropertyId::PropObjectType => match ObjectType::from_u32(value) {
                Some(x) => Enumerated::ObjectType(x),
                None => Enumerated::Unknown(value),
            },
            PropertyId::PropEventState => match EventState::from_u32(value) {
                Some(x) => Enumerated::EventState(x),
                None => Enumerated::Unknown(value),
            },
            PropertyId::PropNotifyType => match NotifyType::from_u32(value) {
                Some(x) => Enumerated::NotifyType(x),
                None => Enumerated::Unknown(value),
            },
            PropertyId::PropLoggingType => match LoggingType::from_u32(value) {
                Some(x) => Enumerated::LoggingType(x),
                None => Enumerated::Unknown(value),
            },
            _ => Enumerated::Unknown(value),
        }
    }

    /// Writes the tag and the number.
    pub fn encode(&self, writer: &mut Writer) -> (r: Result<(), Error>)
        requires
            old(writer).wf(),
        ensures
            appended(*old(writer), *final(writer), r, self.wire()),
    {
        let value = self.to_u32();
        Tag::encode_number(
            TagNumber::Application(ApplicationTagNumber::Enumerated),
            get_len_u32(value),
            value,
            writer,
        )
    }
}

/// The number of the enumerated value at the front of `s`, whatever it means.
pub open spec fn parse_raw_enumerated(s: Seq<u8>) -> Result<(u32, nat), Error> {
    match Tag::expect(TagNumber::Application(ApplicationTagNumber::Enumerated), s) {
        Err(e) => Err(e),
        Ok((len, n)) => match parse_unsigned(len, s.skip(n as int)) {
            Err(e) => Err(e),
            Ok((value, m)) => Ok((value, n + m)),
        },
    }
}

/// Reads an enumerated value and returns its number, whatever it means.
pub fn decode_raw_enumerated(reader: &mut Reader, buf: &[u8]) -> (r: Result<u32, Error>)
    ensures
        decoded(
            *old(reader),
            *final(reader),
            buf@,
            r,
            parse_raw_enumerated(old(reader).remaining(buf@)),
        ),
{
    let mut at = *reader;
    let len = match Tag::decode_expected(
        TagNumber::Application(ApplicationTagNumber::Enumerated),
        &mut at,
        buf,
    ) {
        Ok(len) => len,
        Err(e) => {
            return Err(e);
        },
    };
    let ghost behind_tag = at;
    let value = match decode_unsigned(len, &mut at, buf) {
        Ok(value) => value,
        Err(e) => {
            return Err(e);
        },
    };
    proof {
        lemma_moved_on(*old(reader), behind_tag, at, buf@);
    }
    *reader = at;
    Ok(value)
}

/// An encoded enumerated value reads back as its number, whatever follows.
pub proof fn lemma_raw_enumerated_roundtrip(value: Enumerated, rest: Seq<u8>)
    ensures
        parse_raw_enumerated(value.wire() + rest) == Ok::<(u32, nat), Error>(
            (value.code(), value.wire().len()),
        ),
{
    assert(value.wire() + rest =~= value.tag().wire() + (unsigned_wire(value.code()) + rest));
    lemma_tagged_split(value.tag(), unsigned_wire(value.code()) + rest);
    lemma_unsigned_roundtrip(value.code(), rest);
    lemma_be_value_of_be_bytes(value.code(), unsigned_len(value.code()));
}

/// A calendar date. The wire holds the year as a byte counted from 1900; in
/// every field 255 stands for "any".
#[derive(Debug, Clone, Copy, PartialEq, Eq, Structural)]
pub struct Date {
    pub year: u16,
    pub month: u8,
    pub day: u8,
    /// 1 for Monday up to 7 for Sunday.
    pub wday: u8,
}

impl Date {
    /// The number of bytes of a date on the wire.
    pub const LEN: u32 = 4;

    /// The year is one that a byte counted from 1900 can hold.
    pub open spec fn wf(self) -> bool {
        1900 <= self.year <= 2155
    }

    /// The date that four bytes hold.
    pub open spec fn of_bytes(year: u8, month: u8, day: u8, wday: u8) -> Date {
        Date { year: (year + 1900) as u16, month, day, wday }
    }

    /// The date on the wire; none for a year out of range.
    pub open spec fn wire(self) -> Result<Seq<u8>, Error> {
        if self.wf() {
            Ok(seq![(self.year - 1900) as u8, self.month, self.day, self.wday])
        } else {
            Err(Error::InvalidValue)
        }
    }

    /// The date at the front of `s`.
    pub open spec fn parse(s: Seq<u8>) -> Result<(Date, nat), Error> {
        if s.len() < 4 {
            Err(Error::Truncated)
        } else {
            Ok((Date::of_bytes(s[0], s[1], s[2], s[3]), 4nat))
        }
    }

    /// Whether the date can go on the wire.
    pub fn is_valid(&self) -> (b: bool)
        ensures
            b == self.wf(),
    {
        1900 <= self.year && self.year <= 2155
    }

    /// The date that the four bytes of the tag's value hold, the highest byte
    /// being the year.
    pub fn decode_from_tag(tag: &Tag) -> (date: Date)
        ensures
            date == Date::of_bytes(
                be_bytes(tag.value, 4)[0],
                be_bytes(tag.value, 4)[1],
                be_bytes(tag.value, 4)[2],
                be_bytes(tag.value, 4)[3],
            ),
            date.wf(),
    {
        let value = tag.value;
        let bytes: [u8; 4] = [
            ((value / 0x100_0000) % 256) as u8,
            ((value / 0x1_0000) % 256) as u8,
            ((value / 0x100) % 256) as u8,
            (value % 256) as u8,
        ];
        Self::decode_inner(bytes)
    }

    /// Reads a date.
    pub fn decode(reader: &mut Reader, buf: &[u8]) -> (r: Result<Date, Error>)
        ensures
            decoded(*old(reader), *final(reader), buf@, r, Date::parse(old(reader).remaining(buf@))),
            r matches Ok(date) ==> date.wf(),
    {
        let bytes = match reader.read_slice(4, buf) {
            Ok(bytes) => bytes,
            Err(e) => {
                return Err(e);
            },
        };
        Ok(Self::decode_inner([bytes[0], bytes[1], bytes[2], bytes[3]]))
    }

    /// The date that four bytes hold.
    pub fn decode_inner(value: [u8; 4]) -> (date: Date)
        ensures
            date == Date::of_bytes(value[0], value[1], value[2], value[3]),
            date.wf(),
    {
        let year: u16 = value[0] as u16 + 1900;
        let month = value[1];
        let day = value[2];
        let wday = value[3];
        Date { year, month, day, wday }
    }

    /// The four bytes of a date whose year is in range.
    fn bytes(&self) -> (bytes: [u8; 4])
        requires
            self.wf(),
        ensures
            bytes@ == self.wire().unwrap(),
    {
        let bytes: [u8; 4] = [(self.year - 1900) as u8, self.month, self.day, self.wday];
        assert(bytes@ =~= self.wire().unwrap());
        bytes
    }

    /// Writes the four bytes of the date.
    pub fn encode(&self, writer: &mut Writer) -> (r: Result<(), Error>)
        requires
            old(writer).wf(),
        ensures
            encoded(*old(writer), *final(writer), r, self.wire()),
    {
        if !self.is_valid() {
            return Err(Error::InvalidValue);
        }
        writer.extend_from_slice(self.bytes().as_slice())
    }
}

/// A time of day, to the hundredth of a second.
#[derive(Debug, Clone, Copy, PartialEq, Eq, Structural)]
pub struct Time {
    pub hour: u8,
    pub minute: u8,
    pub second: u8,
    pub hundredths: u8,
}

impl Time {
    /// The number of bytes of a time on the wire.
    pub const LEN: u32 = 4;

    /// The time on the wire.
    pub open spec fn wire(self) -> Seq<u8> {
        seq![self.hour, self.minute, self.second, self.hundredths]
    }

    /// The time at the front of `s`.
    pub open spec fn parse(s: Seq<u8>) -> Result<(Time, nat), Error> {
        if s.len() < 4 {
            Err(Error::Truncated)
        } else {
            Ok((Time { hour: s[0], minute: s[1], second: s[2], hundredths: s[3] }, 4nat))
        }
    }

    /// Reads a time.
    pub fn decode(reader: &mut Reader, buf: &[u8]) -> (r: Result<Time, Error>)
        ensures
            decoded(*old(reader), *final(reader), buf@, r, Time::parse(old(reader).remaining(buf@))),
    {
        let bytes = match reader.read_slice(4, buf) {
            Ok(bytes) => bytes,
            Err(e) => {
                return Err(e);
            },
        };
        Ok(Time { hour: bytes[0], minute: bytes[1], second: bytes[2], hundredths: bytes[3] })
    }

    /// The four bytes of the time.
    fn bytes(&self) -> (bytes: [u8; 4])
        ensures
            bytes@ == self.wire(),
    {
        let bytes: [u8; 4] = [self.hour, self.minute, self.second, self.hundredths];
        assert(bytes@ =~= self.wire());
        bytes
    }

    /// Writes the four bytes of the time.
    pub fn encode(&self, writer: &mut Writer) -> (r: Result<(), Error>)
        requires
            old(writer).wf(),
        ensures
            appended(*old(writer), *final(writer), r, self.wire()),
    {
        writer.extend_from_slice(self.bytes().as_slice())
    }
}

/// A text. It borrows from the buffer it was decoded from.
#[derive(Debug, Clone, Copy, PartialEq, Eq)]
pub struct CharacterString<'a> {
    pub inner: &'a str,
}

impl<'a> View for CharacterString<'a> {
    type V = Seq<char>;

    open spec fn view(&self) -> Seq<char> {
        self.inner@
    }
}

/// The tag of a text of these characters on the wire.
pub open spec fn text_tag(chars: Seq<char>) -> Tag {
    Tag {
        number: TagNumber::Application(ApplicationTagNumber::CharacterString),
        value: (encode_utf8(chars).len() + 1) as u32,
    }
}

/// A text on the wire: its tag, a byte of 0 that names UTF-8, and the
/// characters in UTF-8. A text too long for a tag has no wire form.
pub open spec fn text_wire(chars: Seq<char>) -> Result<Seq<u8>, Error> {
    if encode_utf8(chars).len() >= u32::MAX {
        Err(Error::InvalidValue)
    } else {
        Ok(text_tag(chars).wire() + seq![0u8] + encode_utf8(chars))
    }
}

/// The text in the `len` bytes at the front of `s`, the first of which names
/// the character set. Only UTF-8, named by 0, is read.
pub open spec fn parse_text(len: u32, s: Seq<u8>) -> Result<(Seq<char>, nat), Error> {
    if len < 1 {
        Err(Error::InvalidValue)
    } else if s.len() < 1 {
        Err(Error::Truncated)
    } else if s[0] != 0 {
        Err(Error::InvalidValue)
    } else if s.len() < len {
        Err(Error::Truncated)
    } else if !valid_utf8(s.subrange(1, len as int)) {
        Err(Error::InvalidValue)
    } else {
        Ok((decode_utf8(s.subrange(1, len as int)), len as nat))
    }
}

/// `core::str::from_utf8`: the text that the bytes spell where they are valid
/// UTF-8, and nothing where they are not.
#[verifier::external_body]
fn str_from_utf8<'a>(bytes: &'a [u8]) -> (text: Option<&'a str>)
    ensures
        text.is_some() == valid_utf8(bytes@),
        text matches Some(t) ==> t.spec_bytes() == bytes@,
{
    match core::str::from_utf8(bytes) {
        Ok(text) => Some(text),
        Err(_) => None,
    }
}

impl<'a> CharacterString<'a> {
    /// Reads a text that takes `len` bytes, the character set byte included.
    pub fn decode(len: u32, reader: &mut Reader, buf: &'a [u8]) -> (r: Result<
        CharacterString<'a>,
        Error,
    >)
        ensures
            decoded_as(
                *old(reader),
                *final(reader),
                buf@,
                r,
                parse_text(len, old(reader).remaining(buf@)),
            ),
    {
        if len < 1 {
            return Err(Error::InvalidValue);
        }
        let mut at = *reader;
        let character_set = match at.read_byte(buf) {
            Ok(byte) => byte,
            Err(e) => {
                return Err(e);
            },
        };
        if character_set != 0 {
            return Err(Error::InvalidValue);
        }
        let mut at = *reader;
        let bytes = match at.read_slice(len as usize, buf) {
            Ok(bytes) => bytes,
            Err(e) => {
                return Err(e);
            },
        };
        let text = vstd::slice::slice_subrange(bytes, 1, len as usize);
        assert(text@ =~= reader.remaining(buf@).subrange(1, len as int));
        match str_from_utf8(text) {
            Some(inner) => {
                proof {
                    vstd::utf8::encode_utf8_decode_utf8(inner@);
                }
                *reader = at;
                Ok(CharacterString { inner })
            },
            None => Err(Error::InvalidValue),
        }
    }

    /// Writes the tag, the character set and the text.
    pub fn encode(&self, writer: &mut Writer) -> (r: Result<(), Error>)
        requires
            old(writer).wf(),
        ensures
            encoded(*old(writer), *final(writer), r, text_wire(self@)),
    {
        let bytes = self.inner.as_bytes();
        if bytes.len() >= 0xFFFF_FFFF {
            return Err(Error::InvalidValue);
        }
        let tag = Tag::new(
            TagNumber::Application(ApplicationTagNumber::CharacterString),
            bytes.len() as u32 + 1,
        );
        let tag_len = tag.encoded_len();
        if writer.room() < tag_len + 1 || writer.room() - tag_len - 1 < bytes.len() {
            return Err(Error::Overflow);
        }
        let _ = tag.encode(writer);
        let _ = writer.push(0);
        let _ = writer.extend_from_slice(bytes);
        assert(writer@ =~= old(writer)@ + text_wire(self@).unwrap());
        Ok(())
    }
}

/// A string of bits without a known meaning. It borrows from the buffer it
/// was decoded from.
#[derive(Debug, Clone, Copy, PartialEq, Eq)]
pub struct CustomBitStream<'a> {
    /// The number of bits at the end of the last byte that do not count.
    pub unused_bits: u8,
    pub bits: &'a [u8],
}

impl<'a> View for CustomBitStream<'a> {
    type V = (u8, Seq<u8>);

    open spec fn view(&self) -> (u8, Seq<u8>) {
        (self.unused_bits, self.bits@)
    }
}

/// A string of bits. The wire carries a count of unused bits and the bytes;
/// what the bits mean follows from the property they belong to.
#[derive(Debug, Clone, Copy, PartialEq, Eq)]
pub enum BitString<'a> {
    StatusFlags(StatusFlags),
    LogBufferResultFlags(LogBufferResultFlags),
    Custom(CustomBitStream<'a>),
}

/// What a [`BitString`] holds.
pub enum BitStringModel {
    StatusFlags(StatusFlags),
    LogBufferResultFlags(LogBufferResultFlags),
    Custom(u8, Seq<u8>),
}

impl<'a> View for BitString<'a> {
    type V = BitStringModel;

    open spec fn view(&self) -> BitStringModel {
        match self {
            BitString::StatusFlags(x) => BitStringModel::StatusFlags(*x),
            BitString::LogBufferResultFlags(x) => BitStringModel::LogBufferResultFlags(*x),
            BitString::Custom(x) => BitStringModel::Custom(x.unused_bits, x.bits@),
        }
    }
}

/// The tag of a string of bits whose count and bytes take `len` bytes.
pub open spec fn bits_tag(len: nat) -> Tag {
    Tag { number: TagNumber::Application(ApplicationTagNumber::BitString), value: len as u32 }
}

impl BitStringModel {
    /// The string on the wire: its tag, the count of unused bits and the
    /// bytes. Flags are one byte with no bit counted as unused. A string too
    /// long for a tag has no wire form.
    pub open spec fn wire(self) -> Result<Seq<u8>, Error> {
        match self {
            BitStringModel::StatusFlags(x) => Ok(bits_tag(2).wire() + seq![0u8, x.bits()]),
            BitStringModel::LogBufferResultFlags(x) => Ok(bits_tag(2).wire() + seq![0u8, x.bits()]),
            BitStringModel::Custom(unused_bits, bits) => if bits.len() >= u32::MAX {
                Err(Error::InvalidValue)
            } else {
                Ok(bits_tag(bits.len() + 1).wire() + seq![unused_bits] + bits)
            },
        }
    }

    /// The string is of the reading that the property asks for.
    pub open spec fn fits(self, property_id: PropertyId) -> bool {
        match self {
            BitStringModel::StatusFlags(_) => property_id == PropertyId::PropStatusFlags,
            BitStringModel::LogBufferResultFlags(_) => property_id == PropertyId::PropLogBuffer,
            BitStringModel::Custom(_, _) => property_id != PropertyId::PropStatusFlags
                && property_id != PropertyId::PropLogBuffer,
        }
    }

    /// The string in the `len` bytes at the front of `s`, read as property
    /// `property_id` asks: as status flags, as the flags of a log record, or
    /// as bits without a meaning.
    pub open spec fn parse(property_id: PropertyId, len: u32, s: Seq<u8>) -> Result<
        (BitStringModel, nat),
        Error,
    > {
        if len < 1 {
            Err(Error::InvalidValue)
        } else if property_id == PropertyId::PropStatusFlags {
            if len != 2 {
                Err(Error::InvalidValue)
            } else if s.len() < 2 {
                Err(Error::Truncated)
            } else {
                match StatusFlags::of_bits(s[1]) {
                    Some(x) => Ok((BitStringModel::StatusFlags(x), 2nat)),
                    None => Err(Error::InvalidValue),
                }
            }
        } else if property_id == PropertyId::PropLogBuffer {
            if len != 2 {
                Err(Error::InvalidValue)
            } else if s.len() < 2 {
                Err(Error::Truncated)
            } else {
                match LogBufferResultFlags::of_bits(s[1]) {
                    Some(x) => Ok((BitStringModel::LogBufferResultFlags(x), 2nat)),
                    None => Err(Error::InvalidValue),
                }
            }
        } else if s.len() < len {
            Err(Error::Truncated)
        } else {
            Ok((BitStringModel::Custom(s[0], s.subrange(1, len as int)), len as nat))
        }
    }
}

impl<'a> BitString<'a> {
    /// Writes the tag, the count of unused bits and the bytes.
    pub fn encode(&self, writer: &mut Writer) -> (r: Result<(), Error>)
        requires
            old(writer).wf(),
        ensures
            encoded(*old(writer), *final(writer), r, self@.wire()),
    {
        match self {
            BitString::StatusFlags(x) => Self::encode_byte_flag(x.to_bits(), writer),
            BitString::LogBufferResultFlags(x) => Self::encode_byte_flag(x.to_bits(), writer),
            BitString::Custom(x) => {
                if x.bits.len() >= 0xFFFF_FFFF {
                    return Err(Error::InvalidValue);
                }
                let tag = Tag::new(
                    TagNumber::Application(ApplicationTagNumber::BitString),
                    x.bits.len() as u32 + 1,
                );
                let tag_len = tag.encoded_len();
                if writer.room() < tag_len + 1 || writer.room() - tag_len - 1 < x.bits.len() {
                    return Err(Error::Overflow);
                }
                let _ = tag.encode(writer);
                let _ = writer.push(x.unused_bits);
                let _ = writer.extend_from_slice(x.bits);
                assert(writer@ =~= old(writer)@ + self@.wire().unwrap());
                Ok(())
            },
        }
    }

    /// Writes a tag, a count of no unused bits and one byte of flags.
    fn encode_byte_flag(byte: u8, writer: &mut Writer) -> (r: Result<(), Error>)
        requires
            old(writer).wf(),
        ensures
            appended(*old(writer), *final(writer), r, bits_tag(2).wire() + seq![0u8, byte]),
    {
        let bytes: [u8; 2] = [0, byte];
        proof {
            assert(bytes@ =~= seq![0u8, byte]);
        }
        Tag::new(TagNumber::Application(ApplicationTagNumber::BitString), 2).encode_with(
            bytes.as_slice(),
            writer,
        )
    }

    /// Reads a string that takes `len` bytes, the count of unused bits
    /// included, as property `property_id` asks.
    pub fn decode(property_id: PropertyId, len: u32, reader: &mut Reader, buf: &'a [u8]) -> (r:
        Result<BitString<'a>, Error>)
        ensures
            decoded_as(
                *old(reader),
                *final(reader),
                buf@,
                r,
                BitStringModel::parse(property_id, len, old(reader).remaining(buf@)),
            ),
    {
        if len < 1 {
            return Err(Error::InvalidValue);
        }
        let start = *reader;
        match property_id {
            PropertyId::PropStatusFlags => {
                let byte = match Self::decode_byte_flag(len, reader, buf) {
                    Ok(byte) => byte,
                    Err(e) => {
                        return Err(e);
                    },
                };
                match StatusFlags::from_bits(byte) {
                    Some(x) => Ok(BitString::StatusFlags(x)),
                    None => {
                        *reader = start;
                        Err(Error::InvalidValue)
                    },
                }
            },
            PropertyId::PropLogBuffer => {
                let byte = match Self::decode_byte_flag(len, reader, buf) {
                    Ok(byte) => byte,
                    Err(e) => {
                        return Err(e);
                    },
                };
                match LogBufferResultFlags::from_bits(byte) {
                    Some(x) => Ok(BitString::LogBufferResultFlags(x)),
                    None => {
                        *reader = start;
                        Err(Error::InvalidValue)
                    },
                }
            },
            _ => {
                let bytes = match reader.read_slice(len as usize, buf) {
                    Ok(bytes) => bytes,
                    Err(e) => {
                        return Err(e);
                    },
                };
                let unused_bits = bytes[0];
                let bits = vstd::slice::slice_subrange(bytes, 1, len as usize);
                assert(bits@ =~= old(reader).remaining(buf@).subrange(1, len as int));
                Ok(BitString::Custom(CustomBitStream { unused_bits, bits }))
            },
        }
    }

    /// Reads the count of unused bits and one byte of flags, which it returns.
    fn decode_byte_flag(len: u32, reader: &mut Reader, buf: &[u8]) -> (r: Result<u8, Error>)
        ensures
            decoded(
                *old(reader),
                *final(reader),
                buf@,
                r,
                if len != 2 {
                    Err(Error::InvalidValue)
                } else if old(reader).remaining(buf@).len() < 2 {
                    Err(Error::Truncated)
                } else {
                    Ok((old(reader).remaining(buf@)[1], 2nat))
                },
            ),
    {
        if len != 2 {
            return Err(Error::InvalidValue);
        }
        match reader.read_slice(2, buf) {
            Ok(bytes) => Ok(bytes[1]),
            Err(e) => Err(e),
        }
    }
}

/// Decoding an encoded date, whatever follows it, gives the date back: the
/// year 1900 is stored as 0 and the year 2155 as 255, and a field of 255
/// comes back as 255.
pub proof fn lemma_date_roundtrip(date: Date, rest: Seq<u8>)
    requires
        date.wf(),
    ensures
        date.wire().unwrap()[0] == date.year - 1900,
        Date::parse(date.wire().unwrap() + rest) == Ok::<(Date, nat), Error>((date, 4nat)),
{
}

/// Decoding an encoded time, whatever follows it, gives the time back.
pub proof fn lemma_time_roundtrip(time: Time, rest: Seq<u8>)
    ensures
        Time::parse(time.wire() + rest) == Ok::<(Time, nat), Error>((time, 4nat)),
{
}

/// A value of the application layer, as it is read from the wire. Real
/// numbers are held by their IEEE 754 bit patterns. Texts and strings of bits
/// borrow from the buffer they were decoded from.
#[derive(Debug, Clone, PartialEq, Eq)]
pub enum ApplicationDataValue<'a> {
    Boolean(bool),
    Real(u32),
    Double(u64),
    Date(Date),
    Time(Time),
    ObjectId(ObjectId),
    CharacterString(CharacterString<'a>),
    Enumerated(Enumerated),
    BitString(BitString<'a>),
    UnsignedInt(u32),
    WeeklySchedule(WeeklySchedule),
}

/// What an [`ApplicationDataValue`] holds.
pub enum ApplicationDataValueModel {
    Boolean(bool),
    Real(u32),
    Double(u64),
    Date(Date),
    Time(Time),
    ObjectId(ObjectId),
    CharacterString(Seq<char>),
    Enumerated(Enumerated),
    BitString(BitStringModel),
    UnsignedInt(u32),
    WeeklySchedule(WeeklySchedule),
}

impl<'a> View for ApplicationDataValue<'a> {
    type V = ApplicationDataValueModel;

    open spec fn view(&self) -> ApplicationDataValueModel {
        match self {
            ApplicationDataValue::Boolean(x) => ApplicationDataValueModel::Boolean(*x),
            ApplicationDataValue::Real(x) => ApplicationDataValueModel::Real(*x),
            ApplicationDataValue::Double(x) => ApplicationDataValueModel::Double(*x),
            ApplicationDataValue::Date(x) => ApplicationDataValueModel::Date(*x),
            ApplicationDataValue::Time(x) => ApplicationDataValueModel::Time(*x),
            ApplicationDataValue::ObjectId(x) => ApplicationDataValueModel::ObjectId(*x),
            ApplicationDataValue::CharacterString(x) => ApplicationDataValueModel::CharacterString(
                x@,
            ),
            ApplicationDataValue::Enumerated(x) => ApplicationDataValueModel::Enumerated(*x),
            ApplicationDataValue::BitString(x) => ApplicationDataValueModel::BitString(x@),
            ApplicationDataValue::UnsignedInt(x) => ApplicationDataValueModel::UnsignedInt(*x),
            ApplicationDataValue::WeeklySchedule(x) => ApplicationDataValueModel::WeeklySchedule(
                *x,
            ),
        }
    }
}

/// The application tag of type `number` with length or value `value`.
pub open spec fn app_tag(number: ApplicationTagNumber, value: u32) -> Tag {
    Tag { number: TagNumber::Application(number), value }
}

/// A number of `len` bytes behind its application tag.
pub open spec fn tagged_number_wire(number: ApplicationTagNumber, len: u32, value: u32) -> Seq<u8> {
    app_tag(number, len).wire() + be_bytes(value, len as nat)
}

/// One parse result carried over to another type of value.
pub open spec fn parsed_as<A, B>(r: Result<(A, nat), Error>, f: spec_fn(A) -> B) -> Result<
    (B, nat),
    Error,
> {
    match r {
        Ok((value, used)) => Ok((f(value), used)),
        Err(e) => Err(e),
    }
}

impl ApplicationDataValueModel {
    /// The value on the wire: its tag, then its bytes. A boolean is carried
    /// by the tag alone, numbers take the fewest bytes that hold them. Long
    /// reals and weekly schedules have no wire form here.
    pub open spec fn wire(self) -> Result<Seq<u8>, Error> {
        match self {
            ApplicationDataValueModel::Boolean(x) => Ok(
                app_tag(ApplicationTagNumber::Boolean, if x {
                    1
                } else {
                    0
                }).wire(),
            ),
            ApplicationDataValueModel::Real(x) => Ok(
                tagged_number_wire(ApplicationTagNumber::Real, 4, x),
            ),
            ApplicationDataValueModel::Double(_) => Err(Error::Unimplemented),
            ApplicationDataValueModel::Date(x) => match x.wire() {
                Ok(bytes) => Ok(app_tag(ApplicationTagNumber::Date, 4).wire() + bytes),
                Err(e) => Err(e),
            },
            ApplicationDataValueModel::Time(x) => Ok(
                app_tag(ApplicationTagNumber::Time, 4).wire() + x.wire(),
            ),
            ApplicationDataValueModel::ObjectId(x) => match x.wire() {
                Ok(bytes) => Ok(app_tag(ApplicationTagNumber::ObjectId, 4).wire() + bytes),
                Err(e) => Err(e),
            },
            ApplicationDataValueModel::CharacterString(x) => text_wire(x),
            ApplicationDataValueModel::Enumerated(x) => Ok(x.wire()),
            ApplicationDataValueModel::BitString(x) => x.wire(),
            ApplicationDataValueModel::UnsignedInt(x) => Ok(
                tagged_number_wire(ApplicationTagNumber::UnsignedInt, unsigned_len(x) as u32, x),
            ),
            ApplicationDataValueModel::WeeklySchedule(_) => Err(Error::Unimplemented),
        }
    }

    /// The value is of the reading that its place asks for: an enumerated
    /// value and a string of bits mean what the property and the kind of the
    /// object make of their bytes.
    pub open spec fn fits(self, object_type: ObjectType, property_id: PropertyId) -> bool {
        match self {
            ApplicationDataValueModel::Enumerated(x) => x.fits(object_type, property_id),
            ApplicationDataValueModel::BitString(x) => x.fits(property_id),
            _ => true,
        }
    }

    /// The value behind the tag `tag`, at the front of `s`, read for property
    /// `property_id` of an object of kind `object_type`. Only application tags
    /// announce a value; an opening tag begins a constructed value, which is
    /// not modelled.
    #[verifier::opaque]
    pub open spec fn parse(
        tag: Tag,
        object_type: ObjectType,
        property_id: PropertyId,
        s: Seq<u8>,
    ) -> Result<(ApplicationDataValueModel, nat), Error> {
        match tag.number {
            TagNumber::Application(number) => match number {
                ApplicationTagNumber::Boolean => Ok(
                    (ApplicationDataValueModel::Boolean(tag.value > 0), 0nat),
                ),
                ApplicationTagNumber::Real => if tag.value != 4 {
                    Err(Error::InvalidValue)
                } else {
                    parsed_as(parse_unsigned(4, s), |x: u32| ApplicationDataValueModel::Real(x))
                },
                ApplicationTagNumber::UnsignedInt => parsed_as(
                    parse_unsigned(tag.value, s),
                    |x: u32| ApplicationDataValueModel::UnsignedInt(x),
                ),
                ApplicationTagNumber::Enumerated => parsed_as(
                    parse_unsigned(tag.value, s),
                    |x: u32|
                        ApplicationDataValueModel::Enumerated(
                            Enumerated::resolve(x, object_type, property_id),
                        ),
                ),
                ApplicationTagNumber::Date => if tag.value != 4 {
                    Err(Error::InvalidValue)
                } else {
                    parsed_as(Date::parse(s), |x: Date| ApplicationDataValueModel::Date(x))
                },
                ApplicationTagNumber::Time => if tag.value != 4 {
                    Err(Error::InvalidValue)
                } else {
                    parsed_as(Time::parse(s), |x: Time| ApplicationDataValueModel::Time(x))
                },
                ApplicationTagNumber::ObjectId => parsed_as(
                    ObjectId::parse(tag.value, s),
                    |x: ObjectId| ApplicationDataValueModel::ObjectId(x),
                ),
                ApplicationTagNumber::CharacterString => parsed_as(
                    parse_text(tag.value, s),
                    |x: Seq<char>| ApplicationDataValueModel::CharacterString(x),
                ),
                ApplicationTagNumber::BitString => parsed_as(
                    BitStringModel::parse(property_id, tag.value, s),
                    |x: BitStringModel| ApplicationDataValueModel::BitString(x),
                ),
                _ => Err(Error::Unimplemented),
            },
            TagNumber::ContextSpecificOpening(_) => Err(Error::Unimplemented),
            _ => Err(Error::InvalidValue),
        }
    }

    /// The tagged value at the front of `s`.
    pub open spec fn parse_tagged(object_type: ObjectType, property_id: PropertyId, s: Seq<u8>) -> Result<
        (ApplicationDataValueModel, nat),
        Error,
    > {
        match Tag::parse(s) {
            Err(e) => Err(e),
            Ok((tag, n)) => match ApplicationDataValueModel::parse(
                tag,
                object_type,
                property_id,
                s.skip(n as int),
            ) {
                Err(e) => Err(e),
                Ok((value, used)) => Ok((value, n + used)),
            },
        }
    }
}

impl<'a> ApplicationDataValue<'a> {
    /// Writes the value with its tag, or nothing where it does not fit or has
    /// no wire form.
    pub fn encode(&self, writer: &mut Writer) -> (r: Result<(), Error>)
        requires
            old(writer).wf(),
        ensures
            encoded(*old(writer), *final(writer), r, self@.wire()),
    {
        match self {
            ApplicationDataValue::Boolean(x) => Tag::new(
                TagNumber::Application(ApplicationTagNumber::Boolean),
                if *x {
                    1
                } else {
                    0
                },
            ).encode(writer),
            ApplicationDataValue::Real(x) => Tag::encode_number(
                TagNumber::Application(ApplicationTagNumber::Real),
                4,
                *x,
                writer,
            ),
            ApplicationDataValue::Date(x) => {
                if !x.is_valid() {
                    return Err(Error::InvalidValue);
                }
                Tag::new(
                    TagNumber::Application(ApplicationTagNumber::Date),
                    Date::LEN,
                ).encode_with(x.bytes().as_slice(), writer)
            },
            ApplicationDataValue::Time(x) => Tag::new(
                TagNumber::Application(ApplicationTagNumber::Time),
                Time::LEN,
            ).encode_with(x.bytes().as_slice(), writer),
            ApplicationDataValue::ObjectId(x) => {
                if !x.is_valid() {
                    return Err(Error::InvalidValue);
                }
                Tag::new(
                    TagNumber::Application(ApplicationTagNumber::ObjectId),
                    ObjectId::LEN,
                ).encode_with(x.bytes().as_slice(), writer)
            },
            ApplicationDataValue::CharacterString(x) => x.encode(writer),
            ApplicationDataValue::Enumerated(x) => x.encode(writer),
            ApplicationDataValue::BitString(x) => x.encode(writer),
            ApplicationDataValue::UnsignedInt(x) => Tag::encode_number(
                TagNumber::Application(ApplicationTagNumber::UnsignedInt),
                get_len_u32(*x),
                *x,
                writer,
            ),
            ApplicationDataValue::Double(_) => Err(Error::Unimplemented),
            ApplicationDataValue::WeeklySchedule(_) => Err(Error::Unimplemented),
        }
    }

    /// Reads the value that follows the tag `tag`, already read, as property
    /// `property_id` of the object `object_id` asks.
    pub fn decode(
        tag: &Tag,
        object_id: &ObjectId,
        property_id: &PropertyId,
        reader: &mut Reader,
        buf: &'a [u8],
    ) -> (r: Result<ApplicationDataValue<'a>, Error>)
        ensures
            decoded_as(
                *old(reader),
                *final(reader),
                buf@,
                r,
                ApplicationDataValueModel::parse(
                    *tag,
                    object_id.object_type,
                    *property_id,
                    old(reader).remaining(buf@),
                ),
            ),
    {
        proof {
            reveal(ApplicationDataValueModel::parse);
        }
        let tag_num = match tag.number {
            TagNumber::Application(x) => x,
            TagNumber::ContextSpecificOpening(_) => {
                return Err(Error::Unimplemented);
            },
            _ => {
                return Err(Error::InvalidValue);
            },
        };
        match tag_num {
            ApplicationTagNumber::Real => {
                if tag.value != 4 {
                    return Err(Error::InvalidValue);
                }
                match decode_unsigned(4, reader, buf) {
                    Ok(x) => Ok(ApplicationDataValue::Real(x)),
                    Err(e) => Err(e),
                }
            },
            ApplicationTagNumber::ObjectId => match ObjectId::decode(tag.value, reader, buf) {
                Ok(x) => Ok(ApplicationDataValue::ObjectId(x)),
                Err(e) => Err(e),
            },
            ApplicationTagNumber::CharacterString => match CharacterString::decode(
                tag.value,
                reader,
                buf,
            ) {
                Ok(x) => Ok(ApplicationDataValue::CharacterString(x)),
                Err(e) => Err(e),
            },
            ApplicationTagNumber::Enumerated => match decode_unsigned(tag.value, reader, buf) {
                Ok(x) => Ok(
                    ApplicationDataValue::Enumerated(
                        Enumerated::from_u32(x, object_id.object_type, *property_id),
                    ),
                ),
                Err(e) => Err(e),
            },
            ApplicationTagNumber::BitString => match BitString::decode(
                *property_id,
                tag.value,
                reader,
                buf,
            ) {
                Ok(x) => Ok(ApplicationDataValue::BitString(x)),
                Err(e) => Err(e),
            },
            ApplicationTagNumber::Boolean => {
                assert(reader.remaining(buf@).skip(0) =~= reader.remaining(buf@));
                Ok(ApplicationDataValue::Boolean(tag.value > 0))
            },
            ApplicationTagNumber::UnsignedInt => match decode_unsigned(tag.value, reader, buf) {
                Ok(x) => Ok(ApplicationDataValue::UnsignedInt(x)),
                Err(e) => Err(e),
            },
            ApplicationTagNumber::Time => {
                if tag.value != 4 {
                    return Err(Error::InvalidValue);
                }
                match Time::decode(reader, buf) {
                    Ok(x) => Ok(ApplicationDataValue::Time(x)),
                    Err(e) => Err(e),
                }
            },
            ApplicationTagNumber::Date => {
                if tag.value != 4 {
                    return Err(Error::InvalidValue);
                }
                match Date::decode(reader, buf) {
                    Ok(x) => Ok(ApplicationDataValue::Date(x)),
                    Err(e) => Err(e),
                }
            },
            _ => Err(Error::Unimplemented),
        }
    }
}

impl<'a> ApplicationDataValue<'a> {
    /// Reads a tag and the value that follows it, as property `property_id`
    /// of the object `object_id` asks.
    pub fn decode_tagged(
        object_id: &ObjectId,
        property_id: &PropertyId,
        reader: &mut Reader,
        buf: &'a [u8],
    ) -> (r: Result<ApplicationDataValue<'a>, Error>)
        ensures
            decoded_as(
                *old(reader),
                *final(reader),
                buf@,
                r,
                ApplicationDataValueModel::parse_tagged(
                    object_id.object_type,
                    *property_id,
                    old(reader).remaining(buf@),
                ),
            ),
    {
        let mut at = *reader;
        let tag = match Tag::decode(&mut at, buf) {
            Ok(tag) => tag,
            Err(e) => {
                return Err(e);
            },
        };
        let ghost behind_tag = at;
        let value = match ApplicationDataValue::decode(&tag, object_id, property_id, &mut at, buf) {
            Ok(value) => value,
            Err(e) => {
                return Err(e);
            },
        };
        proof {
            let n = Tag::parse(reader.remaining(buf@))->Ok_0.1;
            let m = ApplicationDataValueModel::parse(
                tag,
                object_id.object_type,
                *property_id,
                behind_tag.remaining(buf@),
            )->Ok_0.1;
            lemma_moved_twice(*old(reader), behind_tag, at, buf@, n, m);
        }
        *reader = at;
        Ok(value)
    }
}

impl<'a> ApplicationDataValue<'a> {
    /// Whether the value has a wire form, and if not, why not.
    pub fn check(&self) -> (r: Result<(), Error>)
        ensures
            r == status(self@.wire()),
    {
        match self {
            ApplicationDataValue::Double(_) => Err(Error::Unimplemented),
            ApplicationDataValue::WeeklySchedule(_) => Err(Error::Unimplemented),
            ApplicationDataValue::Date(x) => if x.is_valid() {
                Ok(())
            } else {
                Err(Error::InvalidValue)
            },
            ApplicationDataValue::ObjectId(x) => if x.is_valid() {
                Ok(())
            } else {
                Err(Error::InvalidValue)
            },
            ApplicationDataValue::CharacterString(x) => if x.inner.as_bytes().len() >= 0xFFFF_FFFF {
                Err(Error::InvalidValue)
            } else {
                Ok(())
            },
            ApplicationDataValue::BitString(x) => match x {
                BitString::Custom(bits) => if bits.bits.len() >= 0xFFFF_FFFF {
                    Err(Error::InvalidValue)
                } else {
                    Ok(())
                },
                _ => Ok(()),
            },
            _ => Ok(()),
        }
    }
}

/// A value to be written to a property. Real numbers are held by their IEEE
/// 754 bit patterns.
#[derive(Debug, Clone, PartialEq, Eq)]
pub enum ApplicationDataValueWrite {
    Boolean(bool),
    Enumerated(Enumerated),
    Real(u32),
    WeeklySchedule(WeeklySchedule),
}

impl ApplicationDataValueWrite {
    /// The value as one that is read, which goes on the wire in the same way.
    pub open spec fn model(self) -> ApplicationDataValueModel {
        match self {
            ApplicationDataValueWrite::Boolean(x) => ApplicationDataValueModel::Boolean(x),
            ApplicationDataValueWrite::Enumerated(x) => ApplicationDataValueModel::Enumerated(x),
            ApplicationDataValueWrite::Real(x) => ApplicationDataValueModel::Real(x),
            ApplicationDataValueWrite::WeeklySchedule(x) => ApplicationDataValueModel::WeeklySchedule(
                x,
            ),
        }
    }

    /// Writes the value with its tag, or nothing where it does not fit or has
    /// no wire form.
    pub fn encode(&self, writer: &mut Writer) -> (r: Result<(), Error>)
        requires
            old(writer).wf(),
        ensures
            encoded(*old(writer), *final(writer), r, self.model().wire()),
    {
        match self {
            ApplicationDataValueWrite::Boolean(x) => Tag::new(
                TagNumber::Application(ApplicationTagNumber::Boolean),
                if *x {
                    1
                } else {
                    0
                },
            ).encode(writer),
            ApplicationDataValueWrite::Real(x) => Tag::encode_number(
                TagNumber::Application(ApplicationTagNumber::Real),
                4,
                *x,
                writer,
            ),
            ApplicationDataValueWrite::Enumerated(x) => x.encode(writer),
            ApplicationDataValueWrite::WeeklySchedule(_) => Err(Error::Unimplemented),
        }
    }
}

/// The payload of a value on the wire: what follows its tag.
pub open spec fn payload_of(value: ApplicationDataValueModel) -> Seq<u8> {
    match value {
        ApplicationDataValueModel::Boolean(_) => Seq::empty(),
        ApplicationDataValueModel::Real(x) => be_bytes(x, 4),
        ApplicationDataValueModel::Date(x) => x.wire().unwrap(),
        ApplicationDataValueModel::Time(x) => x.wire(),
        ApplicationDataValueModel::ObjectId(x) => x.wire().unwrap(),
        ApplicationDataValueModel::CharacterString(x) => seq![0u8] + encode_utf8(x),
        ApplicationDataValueModel::Enumerated(x) => unsigned_wire(x.code()),
        ApplicationDataValueModel::BitString(x) => match x {
            BitStringModel::StatusFlags(f) => seq![0u8, f.bits()],
            BitStringModel::LogBufferResultFlags(f) => seq![0u8, f.bits()],
            BitStringModel::Custom(unused_bits, bits) => seq![unused_bits] + bits,
        },
        ApplicationDataValueModel::UnsignedInt(x) => unsigned_wire(x),
        _ => Seq::empty(),
    }
}

/// The tag of a value on the wire.
pub open spec fn tag_of(value: ApplicationDataValueModel) -> Tag {
    match value {
        ApplicationDataValueModel::Boolean(x) => app_tag(ApplicationTagNumber::Boolean, if x {
            1
        } else {
            0
        }),
        ApplicationDataValueModel::Real(_) => app_tag(ApplicationTagNumber::Real, 4),
        ApplicationDataValueModel::Double(_) => app_tag(ApplicationTagNumber::Double, 8),
        ApplicationDataValueModel::Date(_) => app_tag(ApplicationTagNumber::Date, 4),
        ApplicationDataValueModel::Time(_) => app_tag(ApplicationTagNumber::Time, 4),
        ApplicationDataValueModel::ObjectId(_) => app_tag(ApplicationTagNumber::ObjectId, 4),
        ApplicationDataValueModel::CharacterString(x) => text_tag(x),
        ApplicationDataValueModel::Enumerated(x) => x.tag(),
        ApplicationDataValueModel::BitString(x) => match x {
            BitStringModel::Custom(_, bits) => bits_tag(bits.len() + 1),
            _ => bits_tag(2),
        },
        ApplicationDataValueModel::UnsignedInt(x) => app_tag(
            ApplicationTagNumber::UnsignedInt,
            unsigned_len(x) as u32,
        ),
        ApplicationDataValueModel::WeeklySchedule(_) => app_tag(ApplicationTagNumber::Null, 0),
    }
}

/// A value that has a wire form goes on the wire as its tag and its payload,
/// and the tag tells the length of the payload, but for a boolean.
pub proof fn lemma_wire_parts(value: ApplicationDataValueModel)
    requires
        value.wire().is_ok(),
    ensures
        value.wire().unwrap() == tag_of(value).wire() + payload_of(value),
        !(value is Boolean) ==> tag_of(value).value == payload_of(value).len(),
{
    match value {
        ApplicationDataValueModel::CharacterString(x) => {
            assert(text_tag(x).wire() + seq![0u8] + encode_utf8(x) =~= text_tag(x).wire() + (
            seq![0u8] + encode_utf8(x)));
        },
        ApplicationDataValueModel::BitString(x) => {
            match x {
                BitStringModel::Custom(unused_bits, bits) => {
                    assert(bits_tag(bits.len() + 1).wire() + seq![unused_bits] + bits =~= bits_tag(
                        bits.len() + 1,
                    ).wire() + (seq![unused_bits] + bits));
                },
                _ => {},
            }
        },
        ApplicationDataValueModel::Boolean(_) => {
            assert(tag_of(value).wire() + payload_of(value) =~= tag_of(value).wire());
        },
        ApplicationDataValueModel::Real(x) => {
            lemma_be_value_of_be_bytes(x, 4);
        },
        ApplicationDataValueModel::ObjectId(x) => {
            lemma_be_value_of_be_bytes(x.packed(), 4);
        },
        ApplicationDataValueModel::Enumerated(x) => {
            lemma_be_value_of_be_bytes(x.code(), unsigned_len(x.code()));
        },
        ApplicationDataValueModel::UnsignedInt(x) => {
            lemma_be_value_of_be_bytes(x, unsigned_len(x));
        },
        _ => {},
    }
}

proof fn lemma_number_payload_roundtrip(
    value: ApplicationDataValueModel,
    object_type: ObjectType,
    property_id: PropertyId,
    rest: Seq<u8>,
)
    requires
        value is Real || value is UnsignedInt || value is Enumerated,
        value.fits(object_type, property_id),
    ensures
        ApplicationDataValueModel::parse(
            tag_of(value),
            object_type,
            property_id,
            payload_of(value) + rest,
        ) == Ok::<(ApplicationDataValueModel, nat), Error>((value, payload_of(value).len())),
{
    reveal(ApplicationDataValueModel::parse);
    let s = payload_of(value) + rest;
    match value {
        ApplicationDataValueModel::Real(x) => {
            lemma_be_value_of_be_bytes(x, 4);
            assert(s.take(4) =~= be_bytes(x, 4));
            assert(parse_unsigned(4, s) == Ok::<(u32, nat), Error>((x, 4nat)));
        },
        ApplicationDataValueModel::Enumerated(x) => {
            lemma_unsigned_roundtrip(x.code(), rest);
            lemma_be_value_of_be_bytes(x.code(), unsigned_len(x.code()));
            assert(parse_unsigned(tag_of(value).value, s) == Ok::<(u32, nat), Error>(
                (x.code(), unsigned_len(x.code())),
            ));
        },
        ApplicationDataValueModel::UnsignedInt(x) => {
            lemma_unsigned_roundtrip(x, rest);
            lemma_be_value_of_be_bytes(x, unsigned_len(x));
            assert(parse_unsigned(tag_of(value).value, s) == Ok::<(u32, nat), Error>(
                (x, unsigned_len(x)),
            ));
        },
        _ => {},
    }
}

proof fn lemma_text_payload_roundtrip(chars: Seq<char>, rest: Seq<u8>)
    requires
        text_wire(chars).is_ok(),
    ensures
        parse_text(text_tag(chars).value, seq![0u8] + encode_utf8(chars) + rest) == Ok::<
            (Seq<char>, nat),
            Error,
        >((chars, encode_utf8(chars).len() + 1)),
{
    let s = seq![0u8] + encode_utf8(chars) + rest;
    let n = encode_utf8(chars).len() as int;
    assert(s.subrange(1, n + 1) =~= encode_utf8(chars));
    vstd::utf8::encode_utf8_valid_utf8(chars);
    vstd::utf8::encode_utf8_decode_utf8(chars);
}

proof fn lemma_bits_payload_roundtrip(bits: BitStringModel, property_id: PropertyId, rest: Seq<u8>)
    requires
        bits.wire().is_ok(),
        bits.fits(property_id),
    ensures
        ({
            let value = ApplicationDataValueModel::BitString(bits);
            BitStringModel::parse(property_id, tag_of(value).value, payload_of(value) + rest)
                == Ok::<(BitStringModel, nat), Error>((bits, payload_of(value).len()))
        }),
{
    let value = ApplicationDataValueModel::BitString(bits);
    let s = payload_of(value) + rest;
    match bits {
        BitStringModel::Custom(unused_bits, bytes) => {
            assert(s.subrange(1, bytes.len() + 1 as int) =~= bytes);
        },
        BitStringModel::StatusFlags(f) => {
            assert(s[1] == f.bits());
            assert(StatusFlags::of_bits(f.bits()) == Some(f));
        },
        BitStringModel::LogBufferResultFlags(f) => {
            assert(s[1] == f.bits());
            assert(LogBufferResultFlags::of_bits(f.bits()) == Some(f));
        },
    }
}

/// What follows the tag of an encoded value reads back as the value, whatever
/// comes behind it.
pub proof fn lemma_payload_roundtrip(
    value: ApplicationDataValueModel,
    object_type: ObjectType,
    property_id: PropertyId,
    rest: Seq<u8>,
)
    requires
        value.wire().is_ok(),
        value.fits(object_type, property_id),
    ensures
        ApplicationDataValueModel::parse(
            tag_of(value),
            object_type,
            property_id,
            payload_of(value) + rest,
        ) == Ok::<(ApplicationDataValueModel, nat), Error>((value, payload_of(value).len())),
{
    reveal(ApplicationDataValueModel::parse);
    let s = payload_of(value) + rest;
    match value {
        ApplicationDataValueModel::Real(_)
        | ApplicationDataValueModel::Enumerated(_)
        | ApplicationDataValueModel::UnsignedInt(_) => {
            lemma_number_payload_roundtrip(value, object_type, property_id, rest);
        },
        ApplicationDataValueModel::Date(x) => {
            lemma_date_roundtrip(x, rest);
        },
        ApplicationDataValueModel::Time(x) => {
            lemma_time_roundtrip(x, rest);
        },
        ApplicationDataValueModel::ObjectId(x) => {
            lemma_object_id_roundtrip(x, rest);
        },
        ApplicationDataValueModel::CharacterString(x) => {
            lemma_text_payload_roundtrip(x, rest);
        },
        ApplicationDataValueModel::BitString(x) => {
            lemma_bits_payload_roundtrip(x, property_id, rest);
        },
        _ => {},
    }
}

/// Decoding an encoded value, whatever follows it, gives the value back and
/// uses exactly its bytes. This holds of every value that has a wire form and
/// is of the reading that the property and the kind of the object ask for.
pub proof fn lemma_value_roundtrip(
    value: ApplicationDataValueModel,
    object_type: ObjectType,
    property_id: PropertyId,
    rest: Seq<u8>,
)
    requires
        value.wire().is_ok(),
        value.fits(object_type, property_id),
    ensures
        ApplicationDataValueModel::parse_tagged(
            object_type,
            property_id,
            value.wire().unwrap() + rest,
        ) == Ok::<(ApplicationDataValueModel, nat), Error>((value, value.wire().unwrap().len())),
{
    lemma_wire_parts(value);
    let tag = tag_of(value);
    let payload = payload_of(value);
    assert(value.wire().unwrap() + rest =~= tag.wire() + (payload + rest));
    lemma_tagged_split(tag, payload + rest);
    lemma_payload_roundtrip(value, object_type, property_id, rest);
}

proof fn lemma_bits_payload_truncated(bits: BitStringModel, property_id: PropertyId, k: int)
    requires
        bits.wire().is_ok(),
        bits.fits(property_id),
        0 <= k < payload_of(ApplicationDataValueModel::BitString(bits)).len(),
    ensures
        ({
            let value = ApplicationDataValueModel::BitString(bits);
            BitStringModel::parse(property_id, tag_of(value).value, payload_of(value).take(k))
                == Err::<(BitStringModel, nat), Error>(Error::Truncated)
        }),
{
}

proof fn lemma_number_payload_truncated(
    value: ApplicationDataValueModel,
    object_type: ObjectType,
    property_id: PropertyId,
    k: int,
)
    requires
        value is Real || value is UnsignedInt || value is Enumerated,
        0 <= k < payload_of(value).len(),
    ensures
        ApplicationDataValueModel::parse(
            tag_of(value),
            object_type,
            property_id,
            payload_of(value).take(k),
        ) == Err::<(ApplicationDataValueModel, nat), Error>(Error::Truncated),
{
    reveal(ApplicationDataValueModel::parse);
    match value {
        ApplicationDataValueModel::Real(x) => {
            lemma_be_value_of_be_bytes(x, 4);
        },
        ApplicationDataValueModel::Enumerated(x) => {
            lemma_be_value_of_be_bytes(x.code(), unsigned_len(x.code()));
        },
        ApplicationDataValueModel::UnsignedInt(x) => {
            lemma_be_value_of_be_bytes(x, unsigned_len(x));
        },
        _ => {},
    }
}

/// What follows the tag of an encoded value, cut short, reads as truncated
/// input.
pub proof fn lemma_payload_truncated(
    value: ApplicationDataValueModel,
    object_type: ObjectType,
    property_id: PropertyId,
    k: int,
)
    requires
        value.wire().is_ok(),
        value.fits(object_type, property_id),
        0 <= k < payload_of(value).len(),
    ensures
        ApplicationDataValueModel::parse(
            tag_of(value),
            object_type,
            property_id,
            payload_of(value).take(k),
        ) == Err::<(ApplicationDataValueModel, nat), Error>(Error::Truncated),
{
    reveal(ApplicationDataValueModel::parse);
    match value {
        ApplicationDataValueModel::Real(_)
        | ApplicationDataValueModel::Enumerated(_)
        | ApplicationDataValueModel::UnsignedInt(_) => {
            lemma_number_payload_truncated(value, object_type, property_id, k);
        },
        ApplicationDataValueModel::ObjectId(x) => {
            lemma_be_value_of_be_bytes(x.packed(), 4);
        },
        ApplicationDataValueModel::BitString(x) => {
            lemma_bits_payload_truncated(x, property_id, k);
        },
        _ => {},
    }
}

/// An encoded value cut short anywhere reads as truncated input: never as a
/// value, and never as any other error.
pub proof fn lemma_value_truncated(
    value: ApplicationDataValueModel,
    object_type: ObjectType,
    property_id: PropertyId,
    k: int,
)
    requires
        value.wire().is_ok(),
        value.fits(object_type, property_id),
        0 <= k < value.wire().unwrap().len(),
    ensures
        ApplicationDataValueModel::parse_tagged(
            object_type,
            property_id,
            value.wire().unwrap().take(k),
        ) == Err::<(ApplicationDataValueModel, nat), Error>(Error::Truncated),
{
    lemma_wire_parts(value);
    let tag = tag_of(value);
    let payload = payload_of(value);
    lemma_tagged_take(tag, payload, k);
    if k >= tag.wire().len() {
        lemma_payload_truncated(value, object_type, property_id, k - tag.wire().len());
    }
}

} // verus!
