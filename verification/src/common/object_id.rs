use vstd::prelude::*;
use crate::common::error::Error;
use crate::common::helper::{
    be_array, be_bytes, be_value, decode_unsigned, lemma_be_value_of_be_bytes,
};
use crate::common::io::{appended, decoded, encoded, lemma_moved_twice, Reader, Writer};
use crate::common::tag::{lemma_tagged_split, Tag, TagNumber};

verus! {

/// The kind of an object. Codes run from 0 to 1023.
#[derive(Debug, Clone, Copy, PartialEq, Eq, Structural)]
pub enum ObjectType {
    ObjectAnalogInput,
    ObjectAnalogOutput,
    ObjectAnalogValue,
    ObjectBinaryInput,
    ObjectBinaryOutput,
    ObjectBinaryValue,
    ObjectCalendar,
    ObjectCommand,
    ObjectDevice,
    ObjectEventEnrollment,
    ObjectFile,
    ObjectGroup,
    ObjectLoop,
    ObjectMultiStateInput,
    ObjectMultiStateOutput,
    ObjectNotificationClass,
    ObjectProgram,
    ObjectSchedule,
    ObjectAveraging,
    ObjectMultiStateValue,
    ObjectTrendLog,
    ObjectLifeSafetyPoint,
    ObjectLifeSafetyZone,
    ObjectAccumulator,
    ObjectPulseConverter,
    ObjectEventLog,
    ObjectGlobalGroup,
    ObjectTrendLogMultiple,
    ObjectLoadControl,
    ObjectStructuredView,
    ObjectAccessDoor,
    /// A code without a name here, carried as it is.
    Other(u16),
}

impl ObjectType {
    /// The value with a name that a code stands for, if there is one.
    pub open spec fn named(code: u32) -> Option<ObjectType> {
        if code == 0 {
            Some(ObjectType::ObjectAnalogInput)
        } else if code == 1 {
            Some(ObjectType::ObjectAnalogOutput)
        } else if code == 2 {
            Some(ObjectType::ObjectAnalogValue)
        } else if code == 3 {
            Some(ObjectType::ObjectBinaryInput)
        } else if code == 4 {
            Some(ObjectType::ObjectBinaryOutput)
        } else if code == 5 {
            Some(ObjectType::ObjectBinaryValue)
        } else if code == 6 {
            Some(ObjectType::ObjectCalendar)
        } else if code == 7 {
            Some(ObjectType::ObjectCommand)
        } else if code == 8 {
            Some(ObjectType::ObjectDevice)
        } else if code == 9 {
            Some(ObjectType::ObjectEventEnrollment)
        } else if code == 10 {
            Some(ObjectType::ObjectFile)
        } else if code == 11 {
            Some(ObjectType::ObjectGroup)
        } else if code == 12 {
            Some(ObjectType::ObjectLoop)
        } else if code == 13 {
            Some(ObjectType::ObjectMultiStateInput)
        } else if code == 14 {
            Some(ObjectType::ObjectMultiStateOutput)
        } else if code == 15 {
            Some(ObjectType::ObjectNotificationClass)
        } else if code == 16 {
            Some(ObjectType::ObjectProgram)
        } else if code == 17 {
            Some(ObjectType::ObjectSchedule)
        } else if code == 18 {
            Some(ObjectType::ObjectAveraging)
        } else if code == 19 {
            Some(ObjectType::ObjectMultiStateValue)
        } else if code == 20 {
            Some(ObjectType::ObjectTrendLog)
        } else if code == 21 {
            Some(ObjectType::ObjectLifeSafetyPoint)
        } else if code == 22 {
            Some(ObjectType::ObjectLifeSafetyZone)
        } else if code == 23 {
            Some(ObjectType::ObjectAccumulator)
        } else if code == 24 {
            Some(ObjectType::ObjectPulseConverter)
        } else if code == 25 {
            Some(ObjectType::ObjectEventLog)
        } else if code == 26 {
            Some(ObjectType::ObjectGlobalGroup)
        } else if code == 27 {
            Some(ObjectType::ObjectTrendLogMultiple)
        } else if code == 28 {
            Some(ObjectType::ObjectLoadControl)
        } else if code == 29 {
            Some(ObjectType::ObjectStructuredView)
        } else if code == 30 {
            Some(ObjectType::ObjectAccessDoor)
        } else {
            None
        }
    }

    /// The code on the wire.
    pub open spec fn code(self) -> u32 {
        match self {
            ObjectType::ObjectAnalogInput => 0,
            ObjectType::ObjectAnalogOutput => 1,
            ObjectType::ObjectAnalogValue => 2,
            ObjectType::ObjectBinaryInput => 3,
            ObjectType::ObjectBinaryOutput => 4,
            ObjectType::ObjectBinaryValue => 5,
            ObjectType::ObjectCalendar => 6,
            ObjectType::ObjectCommand => 7,
            ObjectType::ObjectDevice => 8,
            ObjectType::ObjectEventEnrollment => 9,
            ObjectType::ObjectFile => 10,
            ObjectType::ObjectGroup => 11,
            ObjectType::ObjectLoop => 12,
            ObjectType::ObjectMultiStateInput => 13,
            ObjectType::ObjectMultiStateOutput => 14,
            ObjectType::ObjectNotificationClass => 15,
            ObjectType::ObjectProgram => 16,
            ObjectType::ObjectSchedule => 17,
            ObjectType::ObjectAveraging => 18,
            ObjectType::ObjectMultiStateValue => 19,
            ObjectType::ObjectTrendLog => 20,
            ObjectType::ObjectLifeSafetyPoint => 21,
            ObjectType::ObjectLifeSafetyZone => 22,
            ObjectType::ObjectAccumulator => 23,
            ObjectType::ObjectPulseConverter => 24,
            ObjectType::ObjectEventLog => 25,
            ObjectType::ObjectGlobalGroup => 26,
            ObjectType::ObjectTrendLogMultiple => 27,
            ObjectType::ObjectLoadControl => 28,
            ObjectType::ObjectStructuredView => 29,
            ObjectType::ObjectAccessDoor => 30,
            ObjectType::Other(code) => code as u32,
        }
    }

    /// A code without a name is carried as such, and only there.
    pub open spec fn wf(self) -> bool {
        match self {
            ObjectType::Other(code) => code < 1024 && ObjectType::named(code as u32).is_none(),
            _ => true,
        }
    }

    /// The kind that a code stands for; none beyond 1023.
    pub open spec fn of_code(code: u32) -> Option<ObjectType> {
        if code >= 1024 {
            None
        } else {
            match ObjectType::named(code) {
                Some(kind) => Some(kind),
                None => Some(ObjectType::Other(code as u16)),
            }
        }
    }

    /// The code on the wire.
    pub fn to_u32(self) -> (code: u32)
        ensures
            code == self.code(),
            self.wf() ==> code < 1024 && ObjectType::of_code(code) == Some(self),
    {
        match self {
            ObjectType::ObjectAnalogInput => 0,
            ObjectType::ObjectAnalogOutput => 1,
            ObjectType::ObjectAnalogValue => 2,
            ObjectType::ObjectBinaryInput => 3,
            ObjectType::ObjectBinaryOutput => 4,
            ObjectType::ObjectBinaryValue => 5,
            ObjectType::ObjectCalendar => 6,
            ObjectType::ObjectCommand => 7,
            ObjectType::ObjectDevice => 8,
            ObjectType::ObjectEventEnrollment => 9,
            ObjectType::ObjectFile => 10,
            ObjectType::ObjectGroup => 11,
            ObjectType::ObjectLoop => 12,
            ObjectType::ObjectMultiStateInput => 13,
            ObjectType::ObjectMultiStateOutput => 14,
            ObjectType::ObjectNotificationClass => 15,
            ObjectType::ObjectProgram => 16,
            ObjectType::ObjectSchedule => 17,
            ObjectType::ObjectAveraging => 18,
            ObjectType::ObjectMultiStateValue => 19,
            ObjectType::ObjectTrendLog => 20,
            ObjectType::ObjectLifeSafetyPoint => 21,
            ObjectType::ObjectLifeSafetyZone => 22,
            ObjectType::ObjectAccumulator => 23,
            ObjectType::ObjectPulseConverter => 24,
            ObjectType::ObjectEventLog => 25,
            ObjectType::ObjectGlobalGroup => 26,
            ObjectType::ObjectTrendLogMultiple => 27,
            ObjectType::ObjectLoadControl => 28,
            ObjectType::ObjectStructuredView => 29,
            ObjectType::ObjectAccessDoor => 30,
            ObjectType::Other(code) => code as u32,
        }
    }

    /// The value that a code stands for, if it stands for one.
    pub fn from_u32(code: u32) -> (kind: Option<ObjectType>)
        ensures
            kind == ObjectType::of_code(code),
            kind matches Some(k) ==> k.wf() && k.code() == code,
    {
        if code >= 1024 {
            return None;
        }
        Some(
            match code {
                0 => ObjectType::ObjectAnalogInput,
                1 => ObjectType::ObjectAnalogOutput,
                2 => ObjectType::ObjectAnalogValue,
                3 => ObjectType::ObjectBinaryInput,
                4 => ObjectType::ObjectBinaryOutput,
                5 => ObjectType::ObjectBinaryValue,
                6 => ObjectType::ObjectCalendar,
                7 => ObjectType::ObjectCommand,
                8 => ObjectType::ObjectDevice,
                9 => ObjectType::ObjectEventEnrollment,
                10 => ObjectType::ObjectFile,
                11 => ObjectType::ObjectGroup,
                12 => ObjectType::ObjectLoop,
                13 => ObjectType::ObjectMultiStateInput,
                14 => ObjectType::ObjectMultiStateOutput,
                15 => ObjectType::ObjectNotificationClass,
                16 => ObjectType::ObjectProgram,
                17 => ObjectType::ObjectSchedule,
                18 => ObjectType::ObjectAveraging,
                19 => ObjectType::ObjectMultiStateValue,
                20 => ObjectType::ObjectTrendLog,
                21 => ObjectType::ObjectLifeSafetyPoint,
                22 => ObjectType::ObjectLifeSafetyZone,
                23 => ObjectType::ObjectAccumulator,
                24 => ObjectType::ObjectPulseConverter,
                25 => ObjectType::ObjectEventLog,
                26 => ObjectType::ObjectGlobalGroup,
                27 => ObjectType::ObjectTrendLogMultiple,
                28 => ObjectType::ObjectLoadControl,
                29 => ObjectType::ObjectStructuredView,
                30 => ObjectType::ObjectAccessDoor,
                _ => ObjectType::Other(code as u16),
            },
        )
    }

    /// Whether the value can go on the wire.
    pub fn is_valid(self) -> (b: bool)
        ensures
            b == self.wf(),
    {
        match self {
            ObjectType::Other(code) => code > 30 && code < 1024,
            _ => true,
        }
    }
}

/// The name of one object in a device: its kind and its instance number,
/// which takes 22 bits.
#[derive(Debug, Clone, Copy, PartialEq, Eq, Structural)]
pub struct ObjectId {
    pub object_type: ObjectType,
    pub id: u32,
}

impl ObjectId {
    /// The number of bytes of an object identifier on the wire.
    pub const LEN: u32 = 4;

    /// The kind is well formed and the instance number takes at most 22 bits.
    pub open spec fn wf(self) -> bool {
        self.object_type.wf() && self.id < 0x40_0000
    }

    /// Kind and instance in one number: the kind in the high ten bits.
    pub open spec fn packed(self) -> u32 {
        (self.object_type.code() * 0x40_0000 + self.id) as u32
    }

    /// The identifier that a packed number holds.
    pub open spec fn unpacked(value: u32) -> ObjectId {
        ObjectId {
            object_type: ObjectType::of_code(value / 0x40_0000).unwrap(),
            id: value % 0x40_0000,
        }
    }

    /// The identifier on the wire; none for one that is not well formed.
    pub open spec fn wire(self) -> Result<Seq<u8>, Error> {
        if self.wf() {
            Ok(be_bytes(self.packed(), 4))
        } else {
            Err(Error::InvalidValue)
        }
    }

    /// The identifier at the front of `s`, declared to take `size` bytes.
    pub open spec fn parse(size: u32, s: Seq<u8>) -> Result<(ObjectId, nat), Error> {
        if size != 4 {
            Err(Error::InvalidValue)
        } else if s.len() < 4 {
            Err(Error::Truncated)
        } else {
            Ok((ObjectId::unpacked(be_value(s.take(4)) as u32), 4nat))
        }
    }

    /// Puts the parts together.
    pub fn new(object_type: ObjectType, id: u32) -> (object_id: ObjectId)
        ensures
            object_id == (ObjectId { object_type, id }),
    {
        ObjectId { object_type, id }
    }

    /// Whether the identifier can go on the wire.
    pub fn is_valid(&self) -> (b: bool)
        ensures
            b == self.wf(),
    {
        self.object_type.is_valid() && self.id < 0x40_0000
    }

    /// The four bytes of a well-formed identifier.
    pub(crate) fn bytes(&self) -> (bytes: [u8; 4])
        requires
            self.wf(),
        ensures
            bytes@ == be_bytes(self.packed(), 4),
    {
        be_array(self.object_type.to_u32() * 0x40_0000 + self.id)
    }

    /// Writes the four bytes of the identifier.
    pub fn encode(&self, writer: &mut Writer) -> (r: Result<(), Error>)
        requires
            old(writer).wf(),
        ensures
            encoded(*old(writer), *final(writer), r, self.wire()),
    {
        if !self.is_valid() {
            return Err(Error::InvalidValue);
        }
        writer.extend_from_slice(self.bytes().as_slice())
    }

    /// Reads an identifier declared to take `size` bytes.
    pub fn decode(size: u32, reader: &mut Reader, buf: &[u8]) -> (r: Result<ObjectId, Error>)
        ensures
            decoded(
                *old(reader),
                *final(reader),
                buf@,
                r,
                ObjectId::parse(size, old(reader).remaining(buf@)),
            ),
            r matches Ok(object_id) ==> object_id.wf(),
    {
        if size != 4 {
            return Err(Error::InvalidValue);
        }
        let value = match decode_unsigned(4, reader, buf) {
            Ok(value) => value,
            Err(e) => {
                return Err(e);
            },
        };
        match ObjectType::from_u32(value / 0x40_0000) {
            Some(object_type) => Ok(ObjectId { object_type, id: value % 0x40_0000 }),
            None => Err(Error::InvalidValue),
        }
    }
}

/// Packing an identifier and unpacking the number gives the identifier back.
pub proof fn lemma_object_id_packing(object_id: ObjectId)
    requires
        object_id.wf(),
    ensures
        ObjectId::unpacked(object_id.packed()) == object_id,
{
}

/// Decoding an encoded identifier, whatever follows it, gives it back.
pub proof fn lemma_object_id_roundtrip(object_id: ObjectId, rest: Seq<u8>)
    requires
        object_id.wf(),
    ensures
        ObjectId::parse(4, object_id.wire().unwrap() + rest) == Ok::<(ObjectId, nat), Error>(
            (object_id, 4nat),
        ),
{
    lemma_be_value_of_be_bytes(object_id.packed(), 4);
    lemma_object_id_packing(object_id);
    assert((object_id.wire().unwrap() + rest).take(4) =~= be_bytes(object_id.packed(), 4));
}

/// The context tag of number `number` in front of an object identifier.
pub open spec fn context_object_id_tag(number: u8) -> Tag {
    Tag { number: TagNumber::ContextSpecific(number), value: 4 }
}

/// A well-formed object identifier behind a context tag of number `number`.
pub open spec fn context_object_id_wire(number: u8, object_id: ObjectId) -> Seq<u8> {
    context_object_id_tag(number).wire() + be_bytes(object_id.packed(), 4)
}

/// The object identifier at the front of `s` behind a context tag, which has
/// to be of number `number`.
pub open spec fn parse_context_object_id(number: u8, s: Seq<u8>) -> Result<(ObjectId, nat), Error> {
    match Tag::expect(TagNumber::ContextSpecific(number), s) {
        Err(e) => Err(e),
        Ok((len, n)) => match ObjectId::parse(len, s.skip(n as int)) {
            Err(e) => Err(e),
            Ok((object_id, m)) => Ok((object_id, n + m)),
        },
    }
}

/// Writes a well-formed object identifier behind a context tag, or nothing
/// where the two do not fit.
pub fn encode_context_object_id(number: u8, object_id: &ObjectId, writer: &mut Writer) -> (r: Result<
    (),
    Error,
>)
    requires
        old(writer).wf(),
        object_id.wf(),
    ensures
        appended(*old(writer), *final(writer), r, context_object_id_wire(number, *object_id)),
{
    Tag::new(TagNumber::ContextSpecific(number), ObjectId::LEN).encode_with(
        object_id.bytes().as_slice(),
        writer,
    )
}

/// Reads an object identifier behind a context tag of number `number`.
pub fn decode_context_object_id(number: u8, reader: &mut Reader, buf: &[u8]) -> (r: Result<
    ObjectId,
    Error,
>)
    ensures
        decoded(
            *old(reader),
            *final(reader),
            buf@,
            r,
            parse_context_object_id(number, old(reader).remaining(buf@)),
        ),
        r matches Ok(object_id) ==> object_id.wf(),
{
    let mut at = *reader;
    let len = match Tag::decode_expected(TagNumber::ContextSpecific(number), &mut at, buf) {
        Ok(len) => len,
        Err(e) => {
            return Err(e);
        },
    };
    let ghost behind_tag = at;
    let object_id = match ObjectId::decode(len, &mut at, buf) {
        Ok(object_id) => object_id,
        Err(e) => {
            return Err(e);
        },
    };
    proof {
        let n = Tag::expect(TagNumber::ContextSpecific(number), reader.remaining(buf@))->Ok_0.1;
        lemma_moved_twice(*old(reader), behind_tag, at, buf@, n, 4);
    }
    *reader = at;
    Ok(object_id)
}

/// An object identifier behind a context tag reads back as that identifier,
/// whatever follows it.
pub proof fn lemma_context_object_id_roundtrip(number: u8, object_id: ObjectId, rest: Seq<u8>)
    requires
        object_id.wf(),
    ensures
        parse_context_object_id(number, context_object_id_wire(number, object_id) + rest) == Ok::<
            (ObjectId, nat),
            Error,
        >((object_id, context_object_id_wire(number, object_id).len())),
{
    let tag = context_object_id_tag(number);
    let bytes = be_bytes(object_id.packed(), 4);
    assert(context_object_id_wire(number, object_id) + rest =~= tag.wire() + (bytes + rest));
    lemma_tagged_split(tag, bytes + rest);
    lemma_object_id_roundtrip(object_id, rest);
    lemma_be_value_of_be_bytes(object_id.packed(), 4);
}

} // verus!
