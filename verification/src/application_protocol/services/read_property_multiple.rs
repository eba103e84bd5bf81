use vstd::prelude::*;
use crate::application_protocol::primitives::data_value::{
    decode_raw_enumerated, lemma_raw_enumerated_roundtrip, lemma_value_roundtrip,
    parse_raw_enumerated, ApplicationDataValue, ApplicationDataValueModel, Enumerated,
};
use crate::common::error::Error;
use crate::common::io::{
    decoded, decoded_as, encoded, lemma_appended_is_written, lemma_moved_on, lemma_moved_twice,
    lemma_written_next, lemma_written_nothing,
    lemma_written_first_failed, lemma_written_twice, moved, written, Reader, Writer,
};
use crate::common::list::{
    join, lemma_join_error_stays, lemma_join_front, lemma_join_take_len, lemma_join_take_next,
    status, lemma_flatten_front, lemma_flatten_take_len, lemma_flatten_take_next,
    lemma_prepend_end, lemma_prepend_next, lemma_prepend_nothing, prepend,
};
use crate::common::object_id::{
    context_object_id_wire, decode_context_object_id, encode_context_object_id,
    lemma_context_object_id_roundtrip, parse_context_object_id, ObjectId, ObjectType,
};
use crate::common::property_id::PropertyId;
use crate::common::tag::{
    context_unsigned_wire, decode_context_unsigned, encode_context_unsigned,
    lemma_context_unsigned_roundtrip, lemma_tag_parse_used, lemma_tagged_split,
    parse_context_unsigned, Tag, TagNumber,
};

verus! {

/// The opening tag of number `number`.
pub open spec fn opening(number: u8) -> Tag {
    Tag { number: TagNumber::ContextSpecificOpening(number), value: 0 }
}

/// The closing tag of number `number`.
pub open spec fn closing(number: u8) -> Tag {
    Tag { number: TagNumber::ContextSpecificClosing(number), value: 0 }
}

/// One object and the properties asked of it.
#[derive(Debug, Clone, PartialEq, Eq)]
pub struct ReadPropertyMultipleObject {
    pub object_id: ObjectId,
    pub property_ids: Vec<PropertyId>,
}

/// What a [`ReadPropertyMultipleObject`] holds.
pub struct ReadPropertyMultipleObjectModel {
    pub object_id: ObjectId,
    pub property_ids: Seq<PropertyId>,
}

impl View for ReadPropertyMultipleObject {
    type V = ReadPropertyMultipleObjectModel;

    open spec fn view(&self) -> ReadPropertyMultipleObjectModel {
        ReadPropertyMultipleObjectModel {
            object_id: self.object_id,
            property_ids: self.property_ids@,
        }
    }
}

/// A request to read several properties of several objects.
#[derive(Debug, Clone, PartialEq, Eq)]
pub struct ReadPropertyMultiple {
    pub objects: Vec<ReadPropertyMultipleObject>,
}

/// What a list of objects holds.
pub open spec fn objects_view(objects: Seq<ReadPropertyMultipleObject>) -> Seq<
    ReadPropertyMultipleObjectModel,
> {
    objects.map_values(|object: ReadPropertyMultipleObject| object@)
}

impl View for ReadPropertyMultiple {
    type V = Seq<ReadPropertyMultipleObjectModel>;

    open spec fn view(&self) -> Seq<ReadPropertyMultipleObjectModel> {
        objects_view(self.objects@)
    }
}

/// One property on the wire: its code behind a context tag of number 0.
pub open spec fn property_wire(id: PropertyId) -> Seq<u8> {
    context_unsigned_wire(0, id.code())
}

/// Properties on the wire, one after the other.
pub open spec fn properties_wire(ids: Seq<PropertyId>) -> Seq<u8> {
    ids.map_values(|id: PropertyId| property_wire(id)).flatten()
}

/// The properties at the front of `s`, up to and with the closing tag of
/// number 1. A property with an array index is not read. A property that
/// took no bytes, or more than there are, would end the list as invalid.
pub open spec fn parse_properties(s: Seq<u8>) -> Result<(Seq<PropertyId>, nat), Error>
    decreases s.len(),
{
    match Tag::parse(s) {
        Err(e) => Err(e),
        Ok((tag, _)) => if tag.number == TagNumber::ContextSpecificClosing(1) {
            Ok((Seq::empty(), Tag::parse(s)->Ok_0.1))
        } else if tag.number == TagNumber::ContextSpecific(1) {
            Err(Error::Unimplemented)
        } else {
            match parse_context_unsigned(0, s) {
                Err(e) => Err(e),
                Ok((code, n)) => if n == 0 || n > s.len() {
                    Err(Error::InvalidValue)
                } else {
                    prepend(seq![PropertyId::of_code(code)], n, parse_properties(s.skip(n as int)))
                },
            }
        },
    }
}

impl ReadPropertyMultipleObjectModel {
    /// The object on the wire: its identifier behind a context tag of number
    /// 0, then its properties between an opening and a closing tag of number 1.
    pub open spec fn wire(self) -> Seq<u8> {
        context_object_id_wire(0, self.object_id) + opening(1).wire() + properties_wire(
            self.property_ids,
        ) + closing(1).wire()
    }

    /// The identifier and every property are well formed.
    pub open spec fn wf(self) -> bool {
        &&& self.object_id.wf()
        &&& forall|i: int| 0 <= i < self.property_ids.len() ==> (#[trigger] self.property_ids[i]).wf()
    }

    /// The object at the front of `s`.
    #[verifier::opaque]
    pub open spec fn parse(s: Seq<u8>) -> Result<(ReadPropertyMultipleObjectModel, nat), Error> {
        match parse_context_object_id(0, s) {
            Err(e) => Err(e),
            Ok((object_id, n)) => match Tag::expect(
                TagNumber::ContextSpecificOpening(1),
                s.skip(n as int),
            ) {
                Err(e) => Err(e),
                Ok((_, m)) => match parse_properties(s.skip((n + m) as int)) {
                    Err(e) => Err(e),
                    Ok((property_ids, k)) => Ok(
                        (ReadPropertyMultipleObjectModel { object_id, property_ids }, n + m + k),
                    ),
                },
            },
        }
    }
}

/// Every object has an identifier that can go on the wire.
pub open spec fn objects_valid(objects: Seq<ReadPropertyMultipleObjectModel>) -> bool {
    forall|i: int| 0 <= i < objects.len() ==> (#[trigger] objects[i]).object_id.wf()
}

/// Objects on the wire, one after the other.
pub open spec fn objects_wire(objects: Seq<ReadPropertyMultipleObjectModel>) -> Seq<u8> {
    objects.map_values(|object: ReadPropertyMultipleObjectModel| object.wire()).flatten()
}

/// The request on the wire; none where an identifier is not well formed.
pub open spec fn request_wire(objects: Seq<ReadPropertyMultipleObjectModel>) -> Result<
    Seq<u8>,
    Error,
> {
    if objects_valid(objects) {
        Ok(objects_wire(objects))
    } else {
        Err(Error::InvalidValue)
    }
}

/// The objects that `s` holds from its front to its end. An object that took
/// no bytes, or more than there are, would end the list as invalid.
pub open spec fn parse_objects(s: Seq<u8>) -> Result<(Seq<ReadPropertyMultipleObjectModel>, nat), Error>
    decreases s.len(),
{
    if s.len() == 0 {
        Ok((Seq::empty(), 0nat))
    } else {
        match ReadPropertyMultipleObjectModel::parse(s) {
            Err(e) => Err(e),
            Ok((object, n)) => if n == 0 || n > s.len() {
                Err(Error::InvalidValue)
            } else {
                prepend(seq![object], n, parse_objects(s.skip(n as int)))
            },
        }
    }
}

impl ReadPropertyMultipleObject {
    /// Puts the parts together.
    pub fn new(object_id: ObjectId, property_ids: Vec<PropertyId>) -> (object:
        ReadPropertyMultipleObject)
        ensures
            object.object_id == object_id,
            object.property_ids == property_ids,
    {
        ReadPropertyMultipleObject { object_id, property_ids }
    }

    /// Writes the object as one step of a longer write.
    pub(crate) fn write(&self, writer: &mut Writer) -> (r: Result<(), Error>)
        requires
            old(writer).wf(),
            self.object_id.wf(),
        ensures
            written(*old(writer), *final(writer), r, self@.wire()),
    {
        let ghost a = context_object_id_wire(0, self.object_id);
        let ghost b = opening(1).wire();
        let ghost c = properties_wire(self.property_ids@);
        let ghost d = closing(1).wire();
        let ghost w0 = *writer;
        let r = encode_context_object_id(0, &self.object_id, writer);
        proof {
            lemma_appended_is_written(w0, *writer, r, a);
        }
        if r.is_err() {
            proof {
                lemma_written_first_failed(w0, *writer, a, b + c + d);
                assert(a + (b + c + d) =~= self@.wire());
            }
            return r;
        }
        let ghost w1 = *writer;
        let r = Tag::new(TagNumber::ContextSpecificOpening(1), 0).encode(writer);
        proof {
            lemma_appended_is_written(w1, *writer, r, b);
            lemma_written_twice(w0, w1, *writer, r, a, b);
        }
        if r.is_err() {
            proof {
                lemma_written_first_failed(w0, *writer, a + b, c + d);
                assert(a + b + (c + d) =~= self@.wire());
            }
            return r;
        }
        let ghost w2 = *writer;
        let r = write_properties(&self.property_ids, writer);
        proof {
            lemma_written_twice(w0, w2, *writer, r, a + b, c);
        }
        if r.is_err() {
            proof {
                lemma_written_first_failed(w0, *writer, a + b + c, d);
            }
            return r;
        }
        let ghost w3 = *writer;
        let r = Tag::new(TagNumber::ContextSpecificClosing(1), 0).encode(writer);
        proof {
            lemma_appended_is_written(w3, *writer, r, d);
            lemma_written_twice(w0, w3, *writer, r, a + b + c, d);
        }
        r
    }

    /// Reads an object.
    pub fn decode(reader: &mut Reader, buf: &[u8]) -> (r: Result<ReadPropertyMultipleObject, Error>)
        ensures
            decoded_as(
                *old(reader),
                *final(reader),
                buf@,
                r,
                ReadPropertyMultipleObjectModel::parse(old(reader).remaining(buf@)),
            ),
    {
        proof {
            reveal(ReadPropertyMultipleObjectModel::parse);
        }
        let mut at = *reader;
        let ghost s = reader.remaining(buf@);
        let object_id = match decode_context_object_id(0, &mut at, buf) {
            Ok(object_id) => object_id,
            Err(e) => {
                return Err(e);
            },
        };
        let ghost r1 = at;
        let ghost n = parse_context_object_id(0, s)->Ok_0.1;
        match Tag::decode_expected(TagNumber::ContextSpecificOpening(1), &mut at, buf) {
            Ok(_) => {},
            Err(e) => {
                return Err(e);
            },
        }
        let ghost r2 = at;
        let ghost m = Tag::expect(TagNumber::ContextSpecificOpening(1), s.skip(n as int))->Ok_0.1;
        proof {
            lemma_moved_twice(*old(reader), r1, r2, buf@, n, m);
        }
        let property_ids = match decode_properties(&mut at, buf) {
            Ok(property_ids) => property_ids,
            Err(e) => {
                return Err(e);
            },
        };
        proof {
            let k = parse_properties(s.skip((n + m) as int))->Ok_0.1;
            lemma_moved_twice(*old(reader), r2, at, buf@, n + m, k);
        }
        *reader = at;
        Ok(ReadPropertyMultipleObject { object_id, property_ids })
    }
}

/// Writes the properties as one step of a longer write.
fn write_properties(ids: &Vec<PropertyId>, writer: &mut Writer) -> (r: Result<(), Error>)
    requires
        old(writer).wf(),
    ensures
        written(*old(writer), *final(writer), r, properties_wire(ids@)),
{
    let ghost w0 = *writer;
    let ghost parts = ids@.map_values(|id: PropertyId| property_wire(id));
    let mut i: usize = 0;
    proof {
        assert(parts.take(0).flatten() =~= Seq::<u8>::empty());
        assert(w0@ + Seq::<u8>::empty() =~= w0@);
        assert(w0@.take(w0@.len() as int) =~= w0@);
        w0.lemma_len_le_capacity();
    }
    while i < ids.len()
        invariant
            i <= ids@.len(),
            w0.wf(),
            w0 == *old(writer),
            parts == ids@.map_values(|id: PropertyId| property_wire(id)),
            written(w0, *writer, Ok(()), parts.take(i as int).flatten()),
        decreases ids@.len() - i,
    {
        let ghost w1 = *writer;
        let r = encode_context_unsigned(0, ids[i].to_u32(), writer);
        proof {
            lemma_appended_is_written(w1, *writer, r, parts[i as int]);
            lemma_written_twice(w0, w1, *writer, r, parts.take(i as int).flatten(), parts[i as int]);
            lemma_flatten_take_next(parts, i as int);
        }
        if r.is_err() {
            proof {
                lemma_flatten_take_len(parts, i + 1);
            }
            return r;
        }
        i = i + 1;
    }
    proof {
        assert(parts.take(i as int) =~= parts);
    }
    Ok(())
}

/// Reads properties up to and with the closing tag of number 1.
fn decode_properties(reader: &mut Reader, buf: &[u8]) -> (r: Result<Vec<PropertyId>, Error>)
    ensures
        decoded_as(
            *old(reader),
            *final(reader),
            buf@,
            r,
            parse_properties(old(reader).remaining(buf@)),
        ),
{
    let mut at = *reader;
    let mut ids: Vec<PropertyId> = Vec::new();
    let ghost s0 = reader.remaining(buf@);
    let ghost mut used: nat = 0;
    proof {
        lemma_prepend_nothing(parse_properties(s0));
        assert(s0.skip(0) =~= s0);
    }
    loop
        invariant
            moved(*reader, at, buf@, used),
            *reader == *old(reader),
            s0 == reader.remaining(buf@),
            parse_properties(s0) == prepend(ids@, used, parse_properties(at.remaining(buf@))),
        decreases at.remaining(buf@).len(),
    {
        let ghost s = at.remaining(buf@);
        let ghost here = at;
        let tag = match Tag::peek(&at, buf) {
            Ok(tag) => tag,
            Err(e) => {
                return Err(e);
            },
        };
        if tag.number == TagNumber::ContextSpecificClosing(1) {
            let _ = Tag::decode(&mut at, buf);
            proof {
                let n = Tag::parse(s)->Ok_0.1;
                lemma_moved_twice(*reader, here, at, buf@, used, n);
                lemma_prepend_end(ids@, used, n);
            }
            *reader = at;
            return Ok(ids);
        }
        if tag.number == TagNumber::ContextSpecific(1) {
            return Err(Error::Unimplemented);
        }
        let code = match decode_context_unsigned(0, &mut at, buf) {
            Ok(code) => code,
            Err(e) => {
                return Err(e);
            },
        };
        let id = PropertyId::from_u32(code);
        proof {
            let n = parse_context_unsigned(0, s)->Ok_0.1;
            lemma_moved_twice(*reader, here, at, buf@, used, n);
            lemma_prepend_next(ids@, used, id, n, parse_properties(at.remaining(buf@)));
            used = used + n;
        }
        ids.push(id);
    }
}

impl ReadPropertyMultiple {
    /// Puts the parts together.
    pub fn new(objects: Vec<ReadPropertyMultipleObject>) -> (request: ReadPropertyMultiple)
        ensures
            request.objects == objects,
    {
        ReadPropertyMultiple { objects }
    }

    /// Whether the request can go on the wire.
    pub fn is_valid(&self) -> (b: bool)
        ensures
            b == objects_valid(self@),
    {
        let mut i: usize = 0;
        while i < self.objects.len()
            invariant
                i <= self.objects@.len(),
                forall|j: int| 0 <= j < i ==> (#[trigger] self@[j]).object_id.wf(),
            decreases self.objects@.len() - i,
        {
            if !self.objects[i].object_id.is_valid() {
                assert(!self@[i as int].object_id.wf());
                return false;
            }
            i = i + 1;
        }
        true
    }

    /// Writes the request, or nothing where it does not fit or has no wire
    /// form.
    pub fn encode(&self, writer: &mut Writer) -> (r: Result<(), Error>)
        requires
            old(writer).wf(),
        ensures
            encoded(*old(writer), *final(writer), r, request_wire(self@)),
    {
        if !self.is_valid() {
            return Err(Error::InvalidValue);
        }
        let start = writer.len();
        let r = self.write(writer);
        proof {
            assert(old(writer)@.take(start as int) =~= old(writer)@);
        }
        writer.settle(start, r)
    }

    /// Writes the request as one step of a longer write.
    pub(crate) fn write(&self, writer: &mut Writer) -> (r: Result<(), Error>)
        requires
            old(writer).wf(),
            objects_valid(self@),
        ensures
            written(*old(writer), *final(writer), r, objects_wire(self@)),
    {
        let ghost w0 = *writer;
        let ghost parts = self@.map_values(|object: ReadPropertyMultipleObjectModel| object.wire());
        let mut i: usize = 0;
        proof {
            assert(parts.take(0).flatten() =~= Seq::<u8>::empty());
            assert(w0@ + Seq::<u8>::empty() =~= w0@);
            assert(w0@.take(w0@.len() as int) =~= w0@);
            w0.lemma_len_le_capacity();
        }
        while i < self.objects.len()
            invariant
                i <= self.objects@.len(),
                w0.wf(),
                w0 == *old(writer),
            w0 == *old(writer),
                objects_valid(self@),
                parts == self@.map_values(|object: ReadPropertyMultipleObjectModel| object.wire()),
                written(w0, *writer, Ok(()), parts.take(i as int).flatten()),
            decreases self.objects@.len() - i,
        {
            let ghost w1 = *writer;
            assert(self@[i as int].object_id.wf());
            let r = self.objects[i].write(writer);
            proof {
                lemma_written_twice(
                    w0,
                    w1,
                    *writer,
                    r,
                    parts.take(i as int).flatten(),
                    parts[i as int],
                );
                lemma_flatten_take_next(parts, i as int);
            }
            if r.is_err() {
                proof {
                    lemma_flatten_take_len(parts, i + 1);
                }
                return r;
            }
            i = i + 1;
        }
        proof {
            assert(parts.take(i as int) =~= parts);
        }
        Ok(())
    }

    /// Reads a request that runs to the end of the input.
    pub fn decode(reader: &mut Reader, buf: &[u8]) -> (r: Result<ReadPropertyMultiple, Error>)
        ensures
            decoded_as(
                *old(reader),
                *final(reader),
                buf@,
                r,
                parse_objects(old(reader).remaining(buf@)),
            ),
    {
        let mut at = *reader;
        let mut objects: Vec<ReadPropertyMultipleObject> = Vec::new();
        let ghost s0 = reader.remaining(buf@);
        let ghost mut used: nat = 0;
        proof {
            lemma_prepend_nothing(parse_objects(s0));
            assert(s0.skip(0) =~= s0);
        }
        while !at.eof(buf)
            invariant
                moved(*reader, at, buf@, used),
                *reader == *old(reader),
            *reader == *old(reader),
                s0 == reader.remaining(buf@),
                parse_objects(s0) == prepend(
                    objects_view(objects@),
                    used,
                    parse_objects(at.remaining(buf@)),
                ),
            decreases at.remaining(buf@).len(),
        {
            let ghost s = at.remaining(buf@);
            let ghost here = at;
            let object = match ReadPropertyMultipleObject::decode(&mut at, buf) {
                Ok(object) => object,
                Err(e) => {
                    return Err(e);
                },
            };
            proof {
                lemma_parse_object_used(s);
                let n = ReadPropertyMultipleObjectModel::parse(s)->Ok_0.1;
                lemma_moved_twice(*reader, here, at, buf@, used, n);
                lemma_prepend_next(
                    objects_view(objects@),
                    used,
                    object@,
                    n,
                    parse_objects(at.remaining(buf@)),
                );
                assert(objects_view(objects@.push(object)) =~= objects_view(objects@).push(
                    object@,
                ));
                used = used + n;
            }
            objects.push(object);
        }
        proof {
            lemma_prepend_end(objects_view(objects@), used, 0);
        }
        *reader = at;
        Ok(ReadPropertyMultiple { objects })
    }
}

/// Why a device could not read a property: the class and the code of the
/// error, as the numbers that the device sent.
#[derive(Debug, Clone, Copy, PartialEq, Eq, Structural)]
pub struct PropertyAccessError {
    pub error_class: u32,
    pub error_code: u32,
}

/// What reading one property gave: its value, or the reason why there is none.
#[derive(Debug, Clone, PartialEq, Eq)]
pub enum PropertyValue<'a> {
    PropValue(ApplicationDataValue<'a>),
    PropError(PropertyAccessError),
}

/// What a [`PropertyValue`] holds.
pub enum PropertyValueModel {
    PropValue(ApplicationDataValueModel),
    PropError(PropertyAccessError),
}

impl<'a> View for PropertyValue<'a> {
    type V = PropertyValueModel;

    open spec fn view(&self) -> PropertyValueModel {
        match self {
            PropertyValue::PropValue(x) => PropertyValueModel::PropValue(x@),
            PropertyValue::PropError(x) => PropertyValueModel::PropError(*x),
        }
    }
}

/// One property and what reading it gave.
#[derive(Debug, Clone, PartialEq, Eq)]
pub struct PropertyResult<'a> {
    pub id: PropertyId,
    pub value: PropertyValue<'a>,
}

/// What a [`PropertyResult`] holds.
pub struct PropertyResultModel {
    pub id: PropertyId,
    pub value: PropertyValueModel,
}

impl<'a> View for PropertyResult<'a> {
    type V = PropertyResultModel;

    open spec fn view(&self) -> PropertyResultModel {
        PropertyResultModel { id: self.id, value: self.value@ }
    }
}

/// What a list of results holds.
pub open spec fn results_view<'a>(results: Seq<PropertyResult<'a>>) -> Seq<PropertyResultModel> {
    results.map_values(|result: PropertyResult<'a>| result@)
}

/// One object and what reading each of its properties gave.
#[derive(Debug, Clone, PartialEq, Eq)]
pub struct ObjectWithResults<'a> {
    pub object_id: ObjectId,
    pub property_results: Vec<PropertyResult<'a>>,
}

/// What an [`ObjectWithResults`] holds.
pub struct ObjectWithResultsModel {
    pub object_id: ObjectId,
    pub property_results: Seq<PropertyResultModel>,
}

impl<'a> View for ObjectWithResults<'a> {
    type V = ObjectWithResultsModel;

    open spec fn view(&self) -> ObjectWithResultsModel {
        ObjectWithResultsModel {
            object_id: self.object_id,
            property_results: results_view(self.property_results@),
        }
    }
}

/// What a list of objects with results holds.
pub open spec fn objects_with_results_view<'a>(objects: Seq<ObjectWithResults<'a>>) -> Seq<
    ObjectWithResultsModel,
> {
    objects.map_values(|object: ObjectWithResults<'a>| object@)
}

/// The answer to a request to read several properties of several objects.
/// Each property succeeds or fails by itself.
#[derive(Debug, Clone, PartialEq, Eq)]
pub struct ReadPropertyMultipleAck<'a> {
    pub objects_with_results: Vec<ObjectWithResults<'a>>,
}

impl<'a> View for ReadPropertyMultipleAck<'a> {
    type V = Seq<ObjectWithResultsModel>;

    open spec fn view(&self) -> Seq<ObjectWithResultsModel> {
        objects_with_results_view(self.objects_with_results@)
    }
}

/// The class and the code of an error at the front of `s`, each an
/// enumerated value.
pub open spec fn parse_error_pair(s: Seq<u8>) -> Result<(PropertyAccessError, nat), Error> {
    match parse_raw_enumerated(s) {
        Err(e) => Err(e),
        Ok((error_class, n)) => match parse_raw_enumerated(s.skip(n as int)) {
            Err(e) => Err(e),
            Ok((error_code, m)) => Ok((PropertyAccessError { error_class, error_code }, n + m)),
        },
    }
}

/// The error at the front of `s`: its class and its code, up to and with the
/// closing tag of number 5.
pub open spec fn parse_access_error(s: Seq<u8>) -> Result<(PropertyAccessError, nat), Error> {
    match parse_error_pair(s) {
        Err(e) => Err(e),
        Ok((error, n)) => match Tag::expect(
            TagNumber::ContextSpecificClosing(5),
            s.skip(n as int),
        ) {
            Err(e) => Err(e),
            Ok((_, k)) => Ok((error, n + k)),
        },
    }
}

/// The value at the front of `s`, read for property `id` of an object of kind
/// `object_type`, up to and with the closing tag of number 4. Only a single
/// value between the tags is read.
pub open spec fn parse_single_value(object_type: ObjectType, id: PropertyId, s: Seq<u8>) -> Result<
    (ApplicationDataValueModel, nat),
    Error,
> {
    match ApplicationDataValueModel::parse_tagged(object_type, id, s) {
        Err(e) => Err(e),
        Ok((value, n)) => match Tag::parse(s.skip(n as int)) {
            Err(e) => Err(e),
            Ok((tag, m)) => if tag.number == TagNumber::ContextSpecificClosing(4) {
                Ok((value, n + m))
            } else {
                Err(Error::Unimplemented)
            },
        },
    }
}

/// What stands behind the property code of a result: a value between tags
/// of number 4, or an error between tags of number 5. An array index, in a
/// tag of number 3, is not read.
pub open spec fn parse_property_value(object_type: ObjectType, id: PropertyId, s: Seq<u8>) -> Result<
    (PropertyValueModel, nat),
    Error,
> {
    match Tag::parse(s) {
        Err(e) => Err(e),
        Ok((tag, n)) => if tag.number == TagNumber::ContextSpecificOpening(4) {
            match parse_single_value(object_type, id, s.skip(n as int)) {
                Err(e) => Err(e),
                Ok((value, m)) => Ok((PropertyValueModel::PropValue(value), n + m)),
            }
        } else if tag.number == TagNumber::ContextSpecificOpening(5) {
            match parse_access_error(s.skip(n as int)) {
                Err(e) => Err(e),
                Ok((error, m)) => Ok((PropertyValueModel::PropError(error), n + m)),
            }
        } else if tag.number == TagNumber::ContextSpecific(3) {
            Err(Error::Unimplemented)
        } else {
            Err(Error::InvalidValue)
        },
    }
}

/// The result at the front of `s`: the code of a property behind a context
/// tag of number 2, then what reading it gave.
#[verifier::opaque]
pub open spec fn parse_result(object_type: ObjectType, s: Seq<u8>) -> Result<
    (PropertyResultModel, nat),
    Error,
> {
    match parse_context_unsigned(2, s) {
        Err(e) => Err(e),
        Ok((code, n)) => match parse_property_value(
            object_type,
            PropertyId::of_code(code),
            s.skip(n as int),
        ) {
            Err(e) => Err(e),
            Ok((value, m)) => Ok(
                (PropertyResultModel { id: PropertyId::of_code(code), value }, n + m),
            ),
        },
    }
}

/// The results at the front of `s`, up to and with the closing tag of
/// number 1. A result that took no bytes, or more than there are, would end
/// the list as invalid.
pub open spec fn parse_results(object_type: ObjectType, s: Seq<u8>) -> Result<
    (Seq<PropertyResultModel>, nat),
    Error,
>
    decreases s.len(),
{
    match Tag::parse(s) {
        Err(e) => Err(e),
        Ok((tag, _)) => if tag.number == TagNumber::ContextSpecificClosing(1) {
            Ok((Seq::empty(), Tag::parse(s)->Ok_0.1))
        } else {
            match parse_result(object_type, s) {
                Err(e) => Err(e),
                Ok((result, n)) => if n == 0 || n > s.len() {
                    Err(Error::InvalidValue)
                } else {
                    prepend(seq![result], n, parse_results(object_type, s.skip(n as int)))
                },
            }
        },
    }
}

impl ObjectWithResultsModel {
    /// The object with its results at the front of `s`.
    #[verifier::opaque]
    pub open spec fn parse(s: Seq<u8>) -> Result<(ObjectWithResultsModel, nat), Error> {
        match parse_context_object_id(0, s) {
            Err(e) => Err(e),
            Ok((object_id, n)) => match Tag::expect(
                TagNumber::ContextSpecificOpening(1),
                s.skip(n as int),
            ) {
                Err(e) => Err(e),
                Ok((_, m)) => match parse_results(object_id.object_type, s.skip((n + m) as int)) {
                    Err(e) => Err(e),
                    Ok((property_results, k)) => Ok(
                        (ObjectWithResultsModel { object_id, property_results }, n + m + k),
                    ),
                },
            },
        }
    }
}

/// The objects with their results that `s` holds from its front to its end.
/// An object that took no bytes, or more than there are, would end the list
/// as invalid.
pub open spec fn parse_ack(s: Seq<u8>) -> Result<(Seq<ObjectWithResultsModel>, nat), Error>
    decreases s.len(),
{
    if s.len() == 0 {
        Ok((Seq::empty(), 0nat))
    } else {
        match ObjectWithResultsModel::parse(s) {
            Err(e) => Err(e),
            Ok((object, n)) => if n == 0 || n > s.len() {
                Err(Error::InvalidValue)
            } else {
                prepend(seq![object], n, parse_ack(s.skip(n as int)))
            },
        }
    }
}

/// Reads the class and the code of an error.
pub fn decode_error_pair(reader: &mut Reader, buf: &[u8]) -> (r: Result<PropertyAccessError, Error>)
    ensures
        decoded(
            *old(reader),
            *final(reader),
            buf@,
            r,
            parse_error_pair(old(reader).remaining(buf@)),
        ),
{
    let mut at = *reader;
    let error_class = match decode_raw_enumerated(&mut at, buf) {
        Ok(x) => x,
        Err(e) => {
            return Err(e);
        },
    };
    let ghost r1 = at;
    let error_code = match decode_raw_enumerated(&mut at, buf) {
        Ok(x) => x,
        Err(e) => {
            return Err(e);
        },
    };
    proof {
        lemma_moved_on(*old(reader), r1, at, buf@);
    }
    *reader = at;
    Ok(PropertyAccessError { error_class, error_code })
}

/// Writes the class and the code of an error as one step of a longer write.
pub(crate) fn write_error_pair(error: &PropertyAccessError, writer: &mut Writer) -> (r: Result<
    (),
    Error,
>)
    requires
        old(writer).wf(),
    ensures
        written(*old(writer), *final(writer), r, access_error_wire(*error)),
{
    let ghost w0 = *writer;
    let ghost c1 = Enumerated::Unknown(error.error_class).wire();
    let ghost c2 = Enumerated::Unknown(error.error_code).wire();
    let r = Enumerated::Unknown(error.error_class).encode(writer);
    proof {
        lemma_appended_is_written(w0, *writer, r, c1);
    }
    if r.is_err() {
        proof {
            lemma_written_first_failed(w0, *writer, c1, c2);
        }
        return r;
    }
    let ghost w1 = *writer;
    let r = Enumerated::Unknown(error.error_code).encode(writer);
    proof {
        lemma_appended_is_written(w1, *writer, r, c2);
        lemma_written_next(w0, w1, *writer, r, c1, c2, Seq::empty());
    }
    r
}

/// Reads the class and the code of an error and the closing tag of number 5.
fn decode_access_error(reader: &mut Reader, buf: &[u8]) -> (r: Result<PropertyAccessError, Error>)
    ensures
        decoded(
            *old(reader),
            *final(reader),
            buf@,
            r,
            parse_access_error(old(reader).remaining(buf@)),
        ),
{
    let mut at = *reader;
    let error = match decode_error_pair(&mut at, buf) {
        Ok(x) => x,
        Err(e) => {
            return Err(e);
        },
    };
    let ghost r1 = at;
    match Tag::decode_expected(TagNumber::ContextSpecificClosing(5), &mut at, buf) {
        Ok(_) => {},
        Err(e) => {
            return Err(e);
        },
    }
    proof {
        lemma_moved_on(*old(reader), r1, at, buf@);
    }
    *reader = at;
    Ok(error)
}

/// Reads one value and the closing tag of number 4.
fn decode_single_value<'a>(
    object_id: &ObjectId,
    id: &PropertyId,
    reader: &mut Reader,
    buf: &'a [u8],
) -> (r: Result<ApplicationDataValue<'a>, Error>)
    ensures
        decoded_as(
            *old(reader),
            *final(reader),
            buf@,
            r,
            parse_single_value(object_id.object_type, *id, old(reader).remaining(buf@)),
        ),
{
    let mut at = *reader;
    let value = match ApplicationDataValue::decode_tagged(object_id, id, &mut at, buf) {
        Ok(x) => x,
        Err(e) => {
            return Err(e);
        },
    };
    let ghost r1 = at;
    let tag = match Tag::decode(&mut at, buf) {
        Ok(x) => x,
        Err(e) => {
            return Err(e);
        },
    };
    if tag.number != TagNumber::ContextSpecificClosing(4) {
        return Err(Error::Unimplemented);
    }
    proof {
        lemma_moved_on(*old(reader), r1, at, buf@);
    }
    *reader = at;
    Ok(value)
}

/// Reads what stands behind the property code of a result.
fn decode_property_value<'a>(
    object_id: &ObjectId,
    id: &PropertyId,
    reader: &mut Reader,
    buf: &'a [u8],
) -> (r: Result<PropertyValue<'a>, Error>)
    ensures
        decoded_as(
            *old(reader),
            *final(reader),
            buf@,
            r,
            parse_property_value(object_id.object_type, *id, old(reader).remaining(buf@)),
        ),
{
    let mut at = *reader;
    let tag = match Tag::decode(&mut at, buf) {
        Ok(x) => x,
        Err(e) => {
            return Err(e);
        },
    };
    let ghost r1 = at;
    if tag.number == TagNumber::ContextSpecificOpening(4) {
        let value = match decode_single_value(object_id, id, &mut at, buf) {
            Ok(x) => x,
            Err(e) => {
                return Err(e);
            },
        };
        proof {
            lemma_moved_on(*old(reader), r1, at, buf@);
        }
        *reader = at;
        Ok(PropertyValue::PropValue(value))
    } else if tag.number == TagNumber::ContextSpecificOpening(5) {
        let error = match decode_access_error(&mut at, buf) {
            Ok(x) => x,
            Err(e) => {
                return Err(e);
            },
        };
        proof {
            lemma_moved_on(*old(reader), r1, at, buf@);
        }
        *reader = at;
        Ok(PropertyValue::PropError(error))
    } else if tag.number == TagNumber::ContextSpecific(3) {
        Err(Error::Unimplemented)
    } else {
        Err(Error::InvalidValue)
    }
}

impl<'a> PropertyResult<'a> {
    /// Reads one result of an object `object_id`.
    pub fn decode(object_id: &ObjectId, reader: &mut Reader, buf: &'a [u8]) -> (r: Result<
        PropertyResult<'a>,
        Error,
    >)
        ensures
            decoded_as(
                *old(reader),
                *final(reader),
                buf@,
                r,
                parse_result(object_id.object_type, old(reader).remaining(buf@)),
            ),
    {
        proof {
            reveal(parse_result);
        }
        let mut at = *reader;
        let code = match decode_context_unsigned(2, &mut at, buf) {
            Ok(x) => x,
            Err(e) => {
                return Err(e);
            },
        };
        let id = PropertyId::from_u32(code);
        let ghost r1 = at;
        let value = match decode_property_value(object_id, &id, &mut at, buf) {
            Ok(x) => x,
            Err(e) => {
                return Err(e);
            },
        };
        proof {
            lemma_moved_on(*old(reader), r1, at, buf@);
        }
        *reader = at;
        Ok(PropertyResult { id, value })
    }
}

/// Reads results up to and with the closing tag of number 1.
fn decode_results<'a>(object_id: &ObjectId, reader: &mut Reader, buf: &'a [u8]) -> (r: Result<
    Vec<PropertyResult<'a>>,
    Error,
>)
    ensures
        match parse_results(object_id.object_type, old(reader).remaining(buf@)) {
            Ok((results, used)) => r.is_ok() && results_view(r.unwrap()@) == results && moved(
                *old(reader),
                *final(reader),
                buf@,
                used,
            ),
            Err(e) => r == Err::<Vec<PropertyResult<'a>>, Error>(e) && *final(reader) == *old(
                reader,
            ),
        },
{
    let mut at = *reader;
    let mut results: Vec<PropertyResult<'a>> = Vec::new();
    let ghost s0 = reader.remaining(buf@);
    let ghost kind = object_id.object_type;
    let ghost mut used: nat = 0;
    proof {
        lemma_prepend_nothing(parse_results(kind, s0));
        assert(s0.skip(0) =~= s0);
        assert(results_view(results@) =~= Seq::<PropertyResultModel>::empty());
    }
    loop
        invariant
            moved(*reader, at, buf@, used),
            *reader == *old(reader),
            kind == object_id.object_type,
            s0 == reader.remaining(buf@),
            parse_results(kind, s0) == prepend(
                results_view(results@),
                used,
                parse_results(kind, at.remaining(buf@)),
            ),
        decreases at.remaining(buf@).len(),
    {
        let ghost s = at.remaining(buf@);
        let ghost here = at;
        let tag = match Tag::peek(&at, buf) {
            Ok(tag) => tag,
            Err(e) => {
                return Err(e);
            },
        };
        if tag.number == TagNumber::ContextSpecificClosing(1) {
            let _ = Tag::decode(&mut at, buf);
            proof {
                let n = Tag::parse(s)->Ok_0.1;
                lemma_moved_twice(*reader, here, at, buf@, used, n);
                lemma_prepend_end(results_view(results@), used, n);
            }
            *reader = at;
            return Ok(results);
        }
        let result = match PropertyResult::decode(object_id, &mut at, buf) {
            Ok(x) => x,
            Err(e) => {
                return Err(e);
            },
        };
        proof {
            lemma_parse_result_used(kind, s);
            let n = parse_result(kind, s)->Ok_0.1;
            lemma_moved_twice(*reader, here, at, buf@, used, n);
            lemma_prepend_next(
                results_view(results@),
                used,
                result@,
                n,
                parse_results(kind, at.remaining(buf@)),
            );
            assert(results_view(results@.push(result)) =~= results_view(results@).push(result@));
            used = used + n;
        }
        results.push(result);
    }
}

impl<'a> ObjectWithResults<'a> {
    /// Reads one object with its results.
    pub fn decode(reader: &mut Reader, buf: &'a [u8]) -> (r: Result<ObjectWithResults<'a>, Error>)
        ensures
            decoded_as(
                *old(reader),
                *final(reader),
                buf@,
                r,
                ObjectWithResultsModel::parse(old(reader).remaining(buf@)),
            ),
    {
        proof {
            reveal(ObjectWithResultsModel::parse);
        }
        let mut at = *reader;
        let object_id = match decode_context_object_id(0, &mut at, buf) {
            Ok(object_id) => object_id,
            Err(e) => {
                return Err(e);
            },
        };
        let ghost r1 = at;
        match Tag::decode_expected(TagNumber::ContextSpecificOpening(1), &mut at, buf) {
            Ok(_) => {},
            Err(e) => {
                return Err(e);
            },
        }
        let ghost r2 = at;
        proof {
            lemma_moved_on(*old(reader), r1, r2, buf@);
        }
        let property_results = match decode_results(&object_id, &mut at, buf) {
            Ok(x) => x,
            Err(e) => {
                return Err(e);
            },
        };
        proof {
            lemma_moved_on(*old(reader), r2, at, buf@);
        }
        *reader = at;
        Ok(ObjectWithResults { object_id, property_results })
    }
}

impl<'a> ReadPropertyMultipleAck<'a> {
    /// Reads an answer that runs to the end of the input.
    pub fn decode(reader: &mut Reader, buf: &'a [u8]) -> (r: Result<
        ReadPropertyMultipleAck<'a>,
        Error,
    >)
        ensures
            decoded_as(
                *old(reader),
                *final(reader),
                buf@,
                r,
                parse_ack(old(reader).remaining(buf@)),
            ),
    {
        let mut at = *reader;
        let mut objects: Vec<ObjectWithResults<'a>> = Vec::new();
        let ghost s0 = reader.remaining(buf@);
        let ghost mut used: nat = 0;
        proof {
            lemma_prepend_nothing(parse_ack(s0));
            assert(s0.skip(0) =~= s0);
            assert(objects_with_results_view(objects@) =~= Seq::<ObjectWithResultsModel>::empty());
        }
        while !at.eof(buf)
            invariant
                moved(*reader, at, buf@, used),
                *reader == *old(reader),
                s0 == reader.remaining(buf@),
                parse_ack(s0) == prepend(
                    objects_with_results_view(objects@),
                    used,
                    parse_ack(at.remaining(buf@)),
                ),
            decreases at.remaining(buf@).len(),
        {
            let ghost s = at.remaining(buf@);
            let ghost here = at;
            let object = match ObjectWithResults::decode(&mut at, buf) {
                Ok(object) => object,
                Err(e) => {
                    return Err(e);
                },
            };
            proof {
                lemma_parse_object_with_results_used(s);
                let n = ObjectWithResultsModel::parse(s)->Ok_0.1;
                lemma_moved_twice(*reader, here, at, buf@, used, n);
                lemma_prepend_next(
                    objects_with_results_view(objects@),
                    used,
                    object@,
                    n,
                    parse_ack(at.remaining(buf@)),
                );
                assert(objects_with_results_view(objects@.push(object))
                    =~= objects_with_results_view(objects@).push(object@));
                used = used + n;
            }
            objects.push(object);
        }
        proof {
            lemma_prepend_end(objects_with_results_view(objects@), used, 0);
        }
        *reader = at;
        Ok(ReadPropertyMultipleAck { objects_with_results: objects })
    }
}

/// The bytes of an error between its tags: the class and the code, each as
/// an enumerated value.
pub open spec fn access_error_wire(error: PropertyAccessError) -> Seq<u8> {
    Enumerated::Unknown(error.error_class).wire() + Enumerated::Unknown(error.error_code).wire()
}

impl PropertyResultModel {
    /// The result on the wire: the code of the property behind a context tag
    /// of number 2, then the value between tags of number 4 or the error
    /// between tags of number 5. A value without a wire form gives none to
    /// the result.
    pub open spec fn wire(self) -> Result<Seq<u8>, Error> {
        match self.value {
            PropertyValueModel::PropValue(value) => match value.wire() {
                Err(e) => Err(e),
                Ok(bytes) => Ok(
                    context_unsigned_wire(2, self.id.code()) + opening(4).wire() + bytes + closing(
                        4,
                    ).wire(),
                ),
            },
            PropertyValueModel::PropError(error) => Ok(
                context_unsigned_wire(2, self.id.code()) + opening(5).wire() + access_error_wire(
                    error,
                ) + closing(5).wire(),
            ),
        }
    }

    /// The property is well formed and its value is of the reading that the
    /// property asks for in an object of kind `object_type`.
    pub open spec fn fits(self, object_type: ObjectType) -> bool {
        &&& self.id.wf()
        &&& match self.value {
            PropertyValueModel::PropValue(value) => value.fits(object_type, self.id),
            PropertyValueModel::PropError(_) => true,
        }
    }
}

/// The wire forms of results, one for each.
pub open spec fn results_parts(results: Seq<PropertyResultModel>) -> Seq<Result<Seq<u8>, Error>> {
    results.map_values(|result: PropertyResultModel| result.wire())
}

impl ObjectWithResultsModel {
    /// The object on the wire: its identifier behind a context tag of number
    /// 0, then its results between tags of number 1.
    pub open spec fn wire(self) -> Result<Seq<u8>, Error> {
        if !self.object_id.wf() {
            Err(Error::InvalidValue)
        } else {
            match join(results_parts(self.property_results)) {
                Err(e) => Err(e),
                Ok(bytes) => Ok(
                    context_object_id_wire(0, self.object_id) + opening(1).wire() + bytes + closing(
                        1,
                    ).wire(),
                ),
            }
        }
    }
}

/// The wire forms of objects with results, one for each.
pub open spec fn ack_parts(objects: Seq<ObjectWithResultsModel>) -> Seq<Result<Seq<u8>, Error>> {
    objects.map_values(|object: ObjectWithResultsModel| object.wire())
}

/// The answer on the wire: its objects one after the other. The first part
/// without a wire form gives its error to the answer.
pub open spec fn ack_wire(objects: Seq<ObjectWithResultsModel>) -> Result<Seq<u8>, Error> {
    join(ack_parts(objects))
}

impl<'a> PropertyResult<'a> {
    /// Whether the result has a wire form, and if not, why not.
    pub fn check(&self) -> (r: Result<(), Error>)
        ensures
            r == status(self@.wire()),
    {
        match &self.value {
            PropertyValue::PropValue(value) => value.check(),
            PropertyValue::PropError(_) => Ok(()),
        }
    }

    /// Writes the result as one step of a longer write.
    pub(crate) fn write(&self, writer: &mut Writer) -> (r: Result<(), Error>)
        requires
            old(writer).wf(),
            self@.wire().is_ok(),
        ensures
            written(*old(writer), *final(writer), r, self@.wire().unwrap()),
    {
        let ghost w0 = *writer;
        let ghost a = context_unsigned_wire(2, self.id.code());
        let r = encode_context_unsigned(2, self.id.to_u32(), writer);
        proof {
            lemma_appended_is_written(w0, *writer, r, a);
        }
        match &self.value {
            PropertyValue::PropValue(value) => {
                let ghost b = opening(4).wire();
                let ghost c = value@.wire().unwrap();
                let ghost d = closing(4).wire();
                if r.is_err() {
                    proof {
                        lemma_written_first_failed(w0, *writer, a, b + c + d);
                        assert(a + (b + c + d) =~= a + b + c + d);
                    }
                    return r;
                }
                let ghost w1 = *writer;
                let r = Tag::new(TagNumber::ContextSpecificOpening(4), 0).encode(writer);
                proof {
                    lemma_appended_is_written(w1, *writer, r, b);
                    lemma_written_next(w0, w1, *writer, r, a, b, c + d);
                    assert(a + b + (c + d) =~= a + b + c + d);
                }
                if r.is_err() {
                    return r;
                }
                let ghost w2 = *writer;
                let r = value.encode(writer);
                proof {
                    lemma_appended_is_written(w2, *writer, r, c);
                    lemma_written_next(w0, w2, *writer, r, a + b, c, d);
                }
                if r.is_err() {
                    return r;
                }
                let ghost w3 = *writer;
                let r = Tag::new(TagNumber::ContextSpecificClosing(4), 0).encode(writer);
                proof {
                    lemma_appended_is_written(w3, *writer, r, d);
                    lemma_written_next(w0, w3, *writer, r, a + b + c, d, Seq::empty());
                }
                r
            },
            PropertyValue::PropError(error) => {
                let ghost b = opening(5).wire();
                let ghost c1 = Enumerated::Unknown(error.error_class).wire();
                let ghost c2 = Enumerated::Unknown(error.error_code).wire();
                let ghost d = closing(5).wire();
                proof {
                    assert(a + b + (c1 + c2) + d =~= a + b + c1 + c2 + d);
                }
                if r.is_err() {
                    proof {
                        lemma_written_first_failed(w0, *writer, a, b + c1 + c2 + d);
                        assert(a + (b + c1 + c2 + d) =~= a + b + c1 + c2 + d);
                    }
                    return r;
                }
                let ghost w1 = *writer;
                let r = Tag::new(TagNumber::ContextSpecificOpening(5), 0).encode(writer);
                proof {
                    lemma_appended_is_written(w1, *writer, r, b);
                    lemma_written_next(w0, w1, *writer, r, a, b, c1 + c2 + d);
                    assert(a + b + (c1 + c2 + d) =~= a + b + c1 + c2 + d);
                }
                if r.is_err() {
                    return r;
                }
                let ghost w2 = *writer;
                let r = Enumerated::Unknown(error.error_class).encode(writer);
                proof {
                    lemma_appended_is_written(w2, *writer, r, c1);
                    lemma_written_next(w0, w2, *writer, r, a + b, c1, c2 + d);
                    assert(a + b + c1 + (c2 + d) =~= a + b + c1 + c2 + d);
                }
                if r.is_err() {
                    return r;
                }
                let ghost w3 = *writer;
                let r = Enumerated::Unknown(error.error_code).encode(writer);
                proof {
                    lemma_appended_is_written(w3, *writer, r, c2);
                    lemma_written_next(w0, w3, *writer, r, a + b + c1, c2, d);
                }
                if r.is_err() {
                    return r;
                }
                let ghost w4 = *writer;
                let r = Tag::new(TagNumber::ContextSpecificClosing(5), 0).encode(writer);
                proof {
                    lemma_appended_is_written(w4, *writer, r, d);
                    lemma_written_next(w0, w4, *writer, r, a + b + c1 + c2, d, Seq::empty());
                }
                r
            },
        }
    }
}

/// Whether all results have a wire form, and if not, why the first that has
/// none has none.
fn check_results<'a>(results: &Vec<PropertyResult<'a>>) -> (r: Result<(), Error>)
    ensures
        r == status(join(results_parts(results_view(results@)))),
{
    let ghost parts = results_parts(results_view(results@));
    let mut i: usize = 0;
    while i < results.len()
        invariant
            i <= results@.len(),
            parts == results_parts(results_view(results@)),
            join(parts.take(i as int)).is_ok(),
        decreases results@.len() - i,
    {
        let r = results[i].check();
        proof {
            lemma_join_take_next(parts, i as int);
        }
        if r.is_err() {
            proof {
                lemma_join_error_stays(parts, i + 1);
            }
            return r;
        }
        i = i + 1;
    }
    proof {
        assert(parts.take(i as int) =~= parts);
    }
    Ok(())
}

/// Writes the results as one step of a longer write.
fn write_results<'a>(results: &Vec<PropertyResult<'a>>, writer: &mut Writer) -> (r: Result<(), Error>)
    requires
        old(writer).wf(),
        join(results_parts(results_view(results@))).is_ok(),
    ensures
        written(
            *old(writer),
            *final(writer),
            r,
            join(results_parts(results_view(results@))).unwrap(),
        ),
{
    let ghost w0 = *writer;
    let ghost parts = results_parts(results_view(results@));
    let mut i: usize = 0;
    proof {
        lemma_written_nothing(w0);
    }
    while i < results.len()
        invariant
            i <= results@.len(),
            w0.wf(),
            w0 == *old(writer),
            parts == results_parts(results_view(results@)),
            join(parts).is_ok(),
            join(parts.take(i as int)).is_ok(),
            written(w0, *writer, Ok(()), join(parts.take(i as int)).unwrap()),
        decreases results@.len() - i,
    {
        let ghost w1 = *writer;
        proof {
            lemma_join_take_len(parts, i + 1);
            lemma_join_take_next(parts, i as int);
        }
        let r = results[i].write(writer);
        proof {
            lemma_written_next(
                w0,
                w1,
                *writer,
                r,
                join(parts.take(i as int)).unwrap(),
                parts[i as int].unwrap(),
                Seq::empty(),
            );
        }
        if r.is_err() {
            return r;
        }
        i = i + 1;
    }
    proof {
        assert(parts.take(i as int) =~= parts);
    }
    Ok(())
}

impl<'a> ObjectWithResults<'a> {
    /// Whether the object has a wire form, and if not, why not.
    pub fn check(&self) -> (r: Result<(), Error>)
        ensures
            r == status(self@.wire()),
    {
        if !self.object_id.is_valid() {
            return Err(Error::InvalidValue);
        }
        check_results(&self.property_results)
    }

    /// Writes the object as one step of a longer write.
    pub(crate) fn write(&self, writer: &mut Writer) -> (r: Result<(), Error>)
        requires
            old(writer).wf(),
            self@.wire().is_ok(),
        ensures
            written(*old(writer), *final(writer), r, self@.wire().unwrap()),
    {
        let ghost a = context_object_id_wire(0, self.object_id);
        let ghost b = opening(1).wire();
        let ghost c = join(results_parts(self@.property_results)).unwrap();
        let ghost d = closing(1).wire();
        let ghost w0 = *writer;
        let r = encode_context_object_id(0, &self.object_id, writer);
        proof {
            lemma_appended_is_written(w0, *writer, r, a);
        }
        if r.is_err() {
            proof {
                lemma_written_first_failed(w0, *writer, a, b + c + d);
                assert(a + (b + c + d) =~= a + b + c + d);
            }
            return r;
        }
        let ghost w1 = *writer;
        let r = Tag::new(TagNumber::ContextSpecificOpening(1), 0).encode(writer);
        proof {
            lemma_appended_is_written(w1, *writer, r, b);
            lemma_written_next(w0, w1, *writer, r, a, b, c + d);
            assert(a + b + (c + d) =~= a + b + c + d);
        }
        if r.is_err() {
            return r;
        }
        let ghost w2 = *writer;
        let r = write_results(&self.property_results, writer);
        proof {
            lemma_written_next(w0, w2, *writer, r, a + b, c, d);
        }
        if r.is_err() {
            return r;
        }
        let ghost w3 = *writer;
        let r = Tag::new(TagNumber::ContextSpecificClosing(1), 0).encode(writer);
        proof {
            lemma_appended_is_written(w3, *writer, r, d);
            lemma_written_next(w0, w3, *writer, r, a + b + c, d, Seq::empty());
        }
        r
    }
}

impl<'a> ReadPropertyMultipleAck<'a> {
    /// Puts the parts together.
    pub fn new(objects_with_results: Vec<ObjectWithResults<'a>>) -> (ack: ReadPropertyMultipleAck<'a>)
        ensures
            ack.objects_with_results == objects_with_results,
    {
        ReadPropertyMultipleAck { objects_with_results }
    }

    /// Whether the answer has a wire form, and if not, why not.
    pub fn check(&self) -> (r: Result<(), Error>)
        ensures
            r == status(ack_wire(self@)),
    {
        let ghost parts = ack_parts(self@);
        let mut i: usize = 0;
        while i < self.objects_with_results.len()
            invariant
                i <= self.objects_with_results@.len(),
                parts == ack_parts(self@),
                join(parts.take(i as int)).is_ok(),
            decreases self.objects_with_results@.len() - i,
        {
            let r = self.objects_with_results[i].check();
            proof {
                lemma_join_take_next(parts, i as int);
            }
            if r.is_err() {
                proof {
                    lemma_join_error_stays(parts, i + 1);
                }
                return r;
            }
            i = i + 1;
        }
        proof {
            assert(parts.take(i as int) =~= parts);
        }
        Ok(())
    }

    /// Writes the answer as one step of a longer write.
    pub(crate) fn write(&self, writer: &mut Writer) -> (r: Result<(), Error>)
        requires
            old(writer).wf(),
            ack_wire(self@).is_ok(),
        ensures
            written(*old(writer), *final(writer), r, ack_wire(self@).unwrap()),
    {
        let ghost w0 = *writer;
        let ghost parts = ack_parts(self@);
        let mut i: usize = 0;
        proof {
            lemma_written_nothing(w0);
        }
        while i < self.objects_with_results.len()
            invariant
                i <= self.objects_with_results@.len(),
                w0.wf(),
                w0 == *old(writer),
                parts == ack_parts(self@),
                join(parts).is_ok(),
                join(parts.take(i as int)).is_ok(),
                written(w0, *writer, Ok(()), join(parts.take(i as int)).unwrap()),
            decreases self.objects_with_results@.len() - i,
        {
            let ghost w1 = *writer;
            proof {
                lemma_join_take_len(parts, i + 1);
                lemma_join_take_next(parts, i as int);
            }
            let r = self.objects_with_results[i].write(writer);
            proof {
                lemma_written_next(
                    w0,
                    w1,
                    *writer,
                    r,
                    join(parts.take(i as int)).unwrap(),
                    parts[i as int].unwrap(),
                    Seq::empty(),
                );
            }
            if r.is_err() {
                return r;
            }
            i = i + 1;
        }
        proof {
            assert(parts.take(i as int) =~= parts);
        }
        Ok(())
    }

    /// Writes the answer, or nothing where it does not fit or has no wire
    /// form.
    pub fn encode(&self, writer: &mut Writer) -> (r: Result<(), Error>)
        requires
            old(writer).wf(),
        ensures
            encoded(*old(writer), *final(writer), r, ack_wire(self@)),
    {
        match self.check() {
            Ok(()) => {},
            Err(e) => {
                return Err(e);
            },
        }
        let start = writer.len();
        let r = self.write(writer);
        proof {
            assert(old(writer)@.take(start as int) =~= old(writer)@);
        }
        writer.settle(start, r)
    }
}

/// A result takes at least one byte.
proof fn lemma_parse_result_used(object_type: ObjectType, s: Seq<u8>)
    ensures
        parse_result(object_type, s) matches Ok((_, n)) ==> n >= 1,
{
    reveal(parse_result);
    lemma_tag_parse_used(s);
}

/// An object takes at least one byte.
proof fn lemma_parse_object_used(s: Seq<u8>)
    ensures
        ReadPropertyMultipleObjectModel::parse(s) matches Ok((_, n)) ==> n >= 1,
{
    reveal(ReadPropertyMultipleObjectModel::parse);
    lemma_tag_parse_used(s);
}

/// An object with results takes at least one byte.
proof fn lemma_parse_object_with_results_used(s: Seq<u8>)
    ensures
        ObjectWithResultsModel::parse(s) matches Ok((_, n)) ==> n >= 1,
{
    reveal(ObjectWithResultsModel::parse);
    lemma_tag_parse_used(s);
}

/// Properties on the wire are the first of them and then the others.
proof fn lemma_properties_wire_front(ids: Seq<PropertyId>)
    requires
        ids.len() > 0,
    ensures
        properties_wire(ids) == property_wire(ids[0]) + properties_wire(ids.skip(1)),
{
    let parts = ids.map_values(|id: PropertyId| property_wire(id));
    lemma_flatten_front(parts);
    assert(parts.skip(1) =~= ids.skip(1).map_values(|id: PropertyId| property_wire(id)));
}

/// No properties take no bytes.
proof fn lemma_properties_wire_none(ids: Seq<PropertyId>)
    requires
        ids.len() == 0,
    ensures
        properties_wire(ids) == Seq::<u8>::empty(),
{
    let parts = ids.map_values(|id: PropertyId| property_wire(id));
    assert(parts.flatten() =~= Seq::<u8>::empty());
}

/// An encoded property in front of other bytes reads as that property in
/// front of what the other bytes read as.
proof fn lemma_parse_properties_step(id: PropertyId, behind: Seq<u8>)
    requires
        id.wf(),
    ensures
        property_wire(id).len() > 0,
        parse_properties(property_wire(id) + behind) == prepend(
            seq![id],
            property_wire(id).len(),
            parse_properties(behind),
        ),
{
    let s = property_wire(id) + behind;
    let number = crate::common::helper::unsigned_wire(id.code());
    let tag = Tag {
        number: TagNumber::ContextSpecific(0),
        value: crate::common::helper::unsigned_len(id.code()) as u32,
    };
    assert(s =~= tag.wire() + (number + behind));
    lemma_tagged_split(tag, number + behind);
    lemma_context_unsigned_roundtrip(0, id.code(), behind);
    let n = property_wire(id).len();
    assert(n > 0);
    assert(s.skip(n as int) =~= behind);
    assert(PropertyId::of_code(id.code()) == id);
    assert(Tag::parse(s) == Ok::<(Tag, nat), Error>((tag, tag.wire().len())));
    assert(parse_context_unsigned(0, s) == Ok::<(u32, nat), Error>((id.code(), n)));
}

/// The closing tag reads as the end of the properties.
proof fn lemma_parse_properties_end(rest: Seq<u8>)
    ensures
        parse_properties(closing(1).wire() + rest) == Ok::<(Seq<PropertyId>, nat), Error>(
            (Seq::empty(), closing(1).wire().len()),
        ),
{
    lemma_tagged_split(closing(1), rest);
}

/// Encoded properties and the closing tag behind them read back as the
/// properties, whatever follows.
pub proof fn lemma_properties_roundtrip(ids: Seq<PropertyId>, rest: Seq<u8>)
    requires
        forall|i: int| 0 <= i < ids.len() ==> (#[trigger] ids[i]).wf(),
    ensures
        parse_properties(properties_wire(ids) + closing(1).wire() + rest) == Ok::<
            (Seq<PropertyId>, nat),
            Error,
        >((ids, properties_wire(ids).len() + closing(1).wire().len())),
    decreases ids.len(),
{
    let s = properties_wire(ids) + closing(1).wire() + rest;
    if ids.len() == 0 {
        lemma_properties_wire_none(ids);
        assert(s =~= closing(1).wire() + rest);
        lemma_parse_properties_end(rest);
        assert(ids =~= Seq::<PropertyId>::empty());
    } else {
        let id = ids[0];
        let tail = ids.skip(1);
        let behind = properties_wire(tail) + closing(1).wire() + rest;
        lemma_properties_wire_front(ids);
        assert(s =~= property_wire(id) + behind);
        lemma_parse_properties_step(id, behind);
        assert forall|i: int| 0 <= i < tail.len() implies (#[trigger] tail[i]).wf() by {
            assert(tail[i] == ids[i + 1]);
        }
        lemma_properties_roundtrip(tail, rest);
        assert(seq![id] + tail =~= ids);
    }
}

/// Decoding an encoded object, whatever follows it, gives the object back and
/// uses exactly its bytes.
pub proof fn lemma_object_roundtrip(object: ReadPropertyMultipleObjectModel, rest: Seq<u8>)
    requires
        object.wf(),
    ensures
        ReadPropertyMultipleObjectModel::parse(object.wire() + rest) == Ok::<
            (ReadPropertyMultipleObjectModel, nat),
            Error,
        >((object, object.wire().len())),
        object.wire().len() > 0,
{
    reveal(ReadPropertyMultipleObjectModel::parse);
    let a = context_object_id_wire(0, object.object_id);
    let b = opening(1).wire();
    let c = properties_wire(object.property_ids) + closing(1).wire();
    let s = object.wire() + rest;
    assert(s =~= a + (b + (c + rest)));
    lemma_context_object_id_roundtrip(0, object.object_id, b + (c + rest));
    assert(s.skip(a.len() as int) =~= b + (c + rest));
    lemma_tagged_split(opening(1), c + rest);
    assert(s.skip((a.len() + b.len()) as int) =~= c + rest);
    assert(c + rest =~= properties_wire(object.property_ids) + closing(1).wire() + rest);
    lemma_properties_roundtrip(object.property_ids, rest);
    assert(object.wire().len() == a.len() + b.len() + c.len());
}

/// Objects on the wire are the first of them and then the others.
proof fn lemma_objects_wire_front(objects: Seq<ReadPropertyMultipleObjectModel>)
    requires
        objects.len() > 0,
    ensures
        objects_wire(objects) == objects[0].wire() + objects_wire(objects.skip(1)),
{
    let parts = objects.map_values(|object: ReadPropertyMultipleObjectModel| object.wire());
    lemma_flatten_front(parts);
    assert(parts.skip(1) =~= objects.skip(1).map_values(
        |object: ReadPropertyMultipleObjectModel| object.wire(),
    ));
}

/// No objects take no bytes.
proof fn lemma_objects_wire_none(objects: Seq<ReadPropertyMultipleObjectModel>)
    requires
        objects.len() == 0,
    ensures
        objects_wire(objects) == Seq::<u8>::empty(),
{
    let parts = objects.map_values(|object: ReadPropertyMultipleObjectModel| object.wire());
    assert(parts.flatten() =~= Seq::<u8>::empty());
}

/// An encoded object in front of other bytes reads as that object in front of
/// what the other bytes read as.
proof fn lemma_parse_objects_step(object: ReadPropertyMultipleObjectModel, behind: Seq<u8>)
    requires
        object.wf(),
    ensures
        parse_objects(object.wire() + behind) == prepend(
            seq![object],
            object.wire().len(),
            parse_objects(behind),
        ),
{
    let s = object.wire() + behind;
    lemma_object_roundtrip(object, behind);
    assert(s.skip(object.wire().len() as int) =~= behind);
}

/// Every object of a request is well formed.
pub open spec fn objects_wf(objects: Seq<ReadPropertyMultipleObjectModel>) -> bool {
    forall|i: int| 0 <= i < objects.len() ==> (#[trigger] objects[i]).wf()
}

/// Of well-formed objects the first is well formed, and so are the others.
proof fn lemma_objects_wf_front(objects: Seq<ReadPropertyMultipleObjectModel>)
    requires
        objects_wf(objects),
        objects.len() > 0,
    ensures
        objects[0].wf(),
        objects_wf(objects.skip(1)),
        seq![objects[0]] + objects.skip(1) == objects,
{
    let tail = objects.skip(1);
    assert forall|i: int| 0 <= i < tail.len() implies (#[trigger] tail[i]).wf() by {
        assert(tail[i] == objects[i + 1]);
    }
    assert(seq![objects[0]] + tail =~= objects);
}

/// A request of well-formed objects has a wire form.
pub proof fn lemma_request_wire(objects: Seq<ReadPropertyMultipleObjectModel>)
    requires
        objects_wf(objects),
    ensures
        request_wire(objects) == Ok::<Seq<u8>, Error>(objects_wire(objects)),
{
    assert forall|i: int| 0 <= i < objects.len() implies (#[trigger] objects[i]).object_id.wf() by {
        assert(objects[i].wf());
    }
}

/// Decoding an encoded request gives the request back and uses all of its
/// bytes.
pub proof fn lemma_request_roundtrip(objects: Seq<ReadPropertyMultipleObjectModel>)
    requires
        objects_wf(objects),
    ensures
        parse_objects(objects_wire(objects)) == Ok::<
            (Seq<ReadPropertyMultipleObjectModel>, nat),
            Error,
        >((objects, objects_wire(objects).len())),
    decreases objects.len(),
{
    if objects.len() == 0 {
        lemma_objects_wire_none(objects);
        assert(objects =~= Seq::<ReadPropertyMultipleObjectModel>::empty());
    } else {
        let object = objects[0];
        let tail = objects.skip(1);
        lemma_objects_wf_front(objects);
        lemma_objects_wire_front(objects);
        lemma_parse_objects_step(object, objects_wire(tail));
        lemma_request_roundtrip(tail);
    }
}

/// An encoded value and the closing tag behind it read back as the value.
proof fn lemma_single_value_roundtrip(
    object_type: ObjectType,
    id: PropertyId,
    value: ApplicationDataValueModel,
    rest: Seq<u8>,
)
    requires
        value.wire().is_ok(),
        value.fits(object_type, id),
    ensures
        parse_single_value(object_type, id, value.wire().unwrap() + closing(4).wire() + rest)
            == Ok::<(ApplicationDataValueModel, nat), Error>(
            (value, value.wire().unwrap().len() + closing(4).wire().len()),
        ),
{
    let c = value.wire().unwrap();
    let d = closing(4).wire();
    let s = c + d + rest;
    assert(s =~= c + (d + rest));
    lemma_value_roundtrip(value, object_type, id, d + rest);
    assert(s.skip(c.len() as int) =~= d + rest);
    lemma_tagged_split(closing(4), rest);
}

/// The encoded class and code of an error read back as the error, whatever
/// follows.
pub proof fn lemma_error_pair_roundtrip(error: PropertyAccessError, rest: Seq<u8>)
    ensures
        parse_error_pair(access_error_wire(error) + rest) == Ok::<
            (PropertyAccessError, nat),
            Error,
        >((error, access_error_wire(error).len())),
{
    let c1 = Enumerated::Unknown(error.error_class).wire();
    let c2 = Enumerated::Unknown(error.error_code).wire();
    let s = access_error_wire(error) + rest;
    assert(s =~= c1 + (c2 + rest));
    lemma_raw_enumerated_roundtrip(Enumerated::Unknown(error.error_class), c2 + rest);
    assert(s.skip(c1.len() as int) =~= c2 + rest);
    lemma_raw_enumerated_roundtrip(Enumerated::Unknown(error.error_code), rest);
}

/// An encoded error and the closing tag behind it read back as the error.
proof fn lemma_access_error_roundtrip(error: PropertyAccessError, rest: Seq<u8>)
    ensures
        parse_access_error(access_error_wire(error) + closing(5).wire() + rest) == Ok::<
            (PropertyAccessError, nat),
            Error,
        >((error, access_error_wire(error).len() + closing(5).wire().len())),
{
    let c = access_error_wire(error);
    let d = closing(5).wire();
    let s = c + d + rest;
    assert(s =~= c + (d + rest));
    lemma_error_pair_roundtrip(error, d + rest);
    assert(s.skip(c.len() as int) =~= d + rest);
    lemma_tagged_split(closing(5), rest);
}

/// What stands behind the property code of an encoded result.
pub open spec fn property_value_wire(value: PropertyValueModel) -> Seq<u8> {
    match value {
        PropertyValueModel::PropValue(value) => opening(4).wire() + value.wire().unwrap() + closing(
            4,
        ).wire(),
        PropertyValueModel::PropError(error) => opening(5).wire() + access_error_wire(error)
            + closing(5).wire(),
    }
}

/// What stands behind the property code of an encoded result reads back as
/// what the result holds.
proof fn lemma_property_value_roundtrip(
    object_type: ObjectType,
    id: PropertyId,
    value: PropertyValueModel,
    rest: Seq<u8>,
)
    requires
        value matches PropertyValueModel::PropValue(v) ==> v.wire().is_ok() && v.fits(
            object_type,
            id,
        ),
    ensures
        parse_property_value(object_type, id, property_value_wire(value) + rest) == Ok::<
            (PropertyValueModel, nat),
            Error,
        >((value, property_value_wire(value).len())),
{
    let s = property_value_wire(value) + rest;
    match value {
        PropertyValueModel::PropValue(v) => {
            let c = v.wire().unwrap();
            let d = closing(4).wire();
            assert(s =~= opening(4).wire() + (c + d + rest));
            lemma_tagged_split(opening(4), c + d + rest);
            lemma_single_value_roundtrip(object_type, id, v, rest);
        },
        PropertyValueModel::PropError(error) => {
            let c = access_error_wire(error);
            let d = closing(5).wire();
            assert(s =~= opening(5).wire() + (c + d + rest));
            lemma_tagged_split(opening(5), c + d + rest);
            lemma_access_error_roundtrip(error, rest);
        },
    }
}

/// Decoding an encoded result, whatever follows it, gives the result back
/// and uses exactly its bytes. The result begins with a tag that does not
/// end a list of results.
pub proof fn lemma_result_roundtrip(
    object_type: ObjectType,
    result: PropertyResultModel,
    rest: Seq<u8>,
)
    requires
        result.wire().is_ok(),
        result.fits(object_type),
    ensures
        parse_result(object_type, result.wire().unwrap() + rest) == Ok::<
            (PropertyResultModel, nat),
            Error,
        >((result, result.wire().unwrap().len())),
        result.wire().unwrap().len() > 0,
        Tag::first(result.wire().unwrap() + rest) matches Ok(tag) && tag.number
            == TagNumber::ContextSpecific(2),
{
    reveal(parse_result);
    let a = context_unsigned_wire(2, result.id.code());
    let b = property_value_wire(result.value);
    let s = result.wire().unwrap() + rest;
    assert(result.wire().unwrap() =~= a + b);
    assert(s =~= a + (b + rest));
    lemma_context_unsigned_roundtrip(2, result.id.code(), b + rest);
    assert(s.skip(a.len() as int) =~= b + rest);
    assert(PropertyId::of_code(result.id.code()) == result.id);
    lemma_property_value_roundtrip(object_type, result.id, result.value, rest);
}

/// Every result is of the reading that its property asks for.
pub open spec fn results_fit(object_type: ObjectType, results: Seq<PropertyResultModel>) -> bool {
    forall|i: int| 0 <= i < results.len() ==> (#[trigger] results[i]).fits(object_type)
}

/// An encoded result in front of other bytes reads as that result in front
/// of what the other bytes read as.
proof fn lemma_parse_results_step(
    object_type: ObjectType,
    result: PropertyResultModel,
    behind: Seq<u8>,
)
    requires
        result.wire().is_ok(),
        result.fits(object_type),
    ensures
        parse_results(object_type, result.wire().unwrap() + behind) == prepend(
            seq![result],
            result.wire().unwrap().len(),
            parse_results(object_type, behind),
        ),
{
    let s = result.wire().unwrap() + behind;
    lemma_result_roundtrip(object_type, result, behind);
    assert(s.skip(result.wire().unwrap().len() as int) =~= behind);
}

/// Of results that join and fit, the first has a wire form and fits, and the
/// others join and fit.
proof fn lemma_results_front(object_type: ObjectType, results: Seq<PropertyResultModel>)
    requires
        results.len() > 0,
        join(results_parts(results)).is_ok(),
        results_fit(object_type, results),
    ensures
        results[0].wire().is_ok(),
        results[0].fits(object_type),
        join(results_parts(results.skip(1))).is_ok(),
        results_fit(object_type, results.skip(1)),
        join(results_parts(results)).unwrap() == results[0].wire().unwrap() + join(
            results_parts(results.skip(1)),
        ).unwrap(),
        seq![results[0]] + results.skip(1) == results,
{
    let parts = results_parts(results);
    let tail = results.skip(1);
    lemma_join_front(parts);
    assert(parts.skip(1) =~= results_parts(tail));
    assert forall|i: int| 0 <= i < tail.len() implies (#[trigger] tail[i]).fits(object_type) by {
        assert(tail[i] == results[i + 1]);
    }
    assert(seq![results[0]] + tail =~= results);
}

/// Encoded results and the closing tag behind them read back as the results,
/// whatever follows.
pub proof fn lemma_results_roundtrip(
    object_type: ObjectType,
    results: Seq<PropertyResultModel>,
    rest: Seq<u8>,
)
    requires
        join(results_parts(results)).is_ok(),
        results_fit(object_type, results),
    ensures
        parse_results(
            object_type,
            join(results_parts(results)).unwrap() + closing(1).wire() + rest,
        ) == Ok::<(Seq<PropertyResultModel>, nat), Error>(
            (results, join(results_parts(results)).unwrap().len() + closing(1).wire().len()),
        ),
    decreases results.len(),
{
    let wire = join(results_parts(results)).unwrap();
    let s = wire + closing(1).wire() + rest;
    if results.len() == 0 {
        assert(wire =~= Seq::<u8>::empty());
        assert(s =~= closing(1).wire() + rest);
        lemma_tagged_split(closing(1), rest);
        assert(results =~= Seq::<PropertyResultModel>::empty());
    } else {
        let result = results[0];
        let tail = results.skip(1);
        lemma_results_front(object_type, results);
        let behind = join(results_parts(tail)).unwrap() + closing(1).wire() + rest;
        assert(s =~= result.wire().unwrap() + behind);
        lemma_parse_results_step(object_type, result, behind);
        lemma_results_roundtrip(object_type, tail, rest);
    }
}

impl ObjectWithResultsModel {
    /// Every result is of the reading that its property asks for in this
    /// object.
    pub open spec fn fits(self) -> bool {
        results_fit(self.object_id.object_type, self.property_results)
    }
}

/// Decoding an encoded object with its results, whatever follows it, gives
/// it back and uses exactly its bytes.
pub proof fn lemma_object_with_results_roundtrip(object: ObjectWithResultsModel, rest: Seq<u8>)
    requires
        object.wire().is_ok(),
        object.fits(),
    ensures
        ObjectWithResultsModel::parse(object.wire().unwrap() + rest) == Ok::<
            (ObjectWithResultsModel, nat),
            Error,
        >((object, object.wire().unwrap().len())),
        object.wire().unwrap().len() > 0,
{
    reveal(ObjectWithResultsModel::parse);
    let a = context_object_id_wire(0, object.object_id);
    let b = opening(1).wire();
    let c = join(results_parts(object.property_results)).unwrap() + closing(1).wire();
    let s = object.wire().unwrap() + rest;
    assert(object.wire().unwrap() =~= a + b + c);
    assert(s =~= a + (b + (c + rest)));
    lemma_context_object_id_roundtrip(0, object.object_id, b + (c + rest));
    assert(s.skip(a.len() as int) =~= b + (c + rest));
    lemma_tagged_split(opening(1), c + rest);
    assert(s.skip((a.len() + b.len()) as int) =~= c + rest);
    assert(c + rest =~= join(results_parts(object.property_results)).unwrap() + closing(1).wire()
        + rest);
    lemma_results_roundtrip(object.object_id.object_type, object.property_results, rest);
}

/// Every object of an answer holds results that fit it.
pub open spec fn ack_fits(objects: Seq<ObjectWithResultsModel>) -> bool {
    forall|i: int| 0 <= i < objects.len() ==> (#[trigger] objects[i]).fits()
}

/// Of objects that join and fit, the first has a wire form and fits, and the
/// others join and fit.
proof fn lemma_ack_front(objects: Seq<ObjectWithResultsModel>)
    requires
        objects.len() > 0,
        ack_wire(objects).is_ok(),
        ack_fits(objects),
    ensures
        objects[0].wire().is_ok(),
        objects[0].fits(),
        ack_wire(objects.skip(1)).is_ok(),
        ack_fits(objects.skip(1)),
        ack_wire(objects).unwrap() == objects[0].wire().unwrap() + ack_wire(
            objects.skip(1),
        ).unwrap(),
        seq![objects[0]] + objects.skip(1) == objects,
{
    let parts = ack_parts(objects);
    let tail = objects.skip(1);
    lemma_join_front(parts);
    assert(parts.skip(1) =~= ack_parts(tail));
    assert forall|i: int| 0 <= i < tail.len() implies (#[trigger] tail[i]).fits() by {
        assert(tail[i] == objects[i + 1]);
    }
    assert(seq![objects[0]] + tail =~= objects);
}

/// An encoded object with results in front of other bytes reads as that
/// object in front of what the other bytes read as.
proof fn lemma_parse_ack_step(object: ObjectWithResultsModel, behind: Seq<u8>)
    requires
        object.wire().is_ok(),
        object.fits(),
    ensures
        parse_ack(object.wire().unwrap() + behind) == prepend(
            seq![object],
            object.wire().unwrap().len(),
            parse_ack(behind),
        ),
{
    let s = object.wire().unwrap() + behind;
    lemma_object_with_results_roundtrip(object, behind);
    assert(s.skip(object.wire().unwrap().len() as int) =~= behind);
}

/// Decoding an encoded answer gives the answer back and uses all of its
/// bytes. This holds of every answer that has a wire form and whose values
/// are of the readings that their properties ask for.
pub proof fn lemma_ack_roundtrip(objects: Seq<ObjectWithResultsModel>)
    requires
        ack_wire(objects).is_ok(),
        ack_fits(objects),
    ensures
        parse_ack(ack_wire(objects).unwrap()) == Ok::<(Seq<ObjectWithResultsModel>, nat), Error>(
            (objects, ack_wire(objects).unwrap().len()),
        ),
    decreases objects.len(),
{
    if objects.len() == 0 {
        assert(ack_wire(objects).unwrap() =~= Seq::<u8>::empty());
        assert(objects =~= Seq::<ObjectWithResultsModel>::empty());
    } else {
        let tail = objects.skip(1);
        lemma_ack_front(objects);
        lemma_parse_ack_step(objects[0], ack_wire(tail).unwrap());
        lemma_ack_roundtrip(tail);
    }
}

} // verus!
