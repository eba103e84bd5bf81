use embedded_bacnet::application_protocol::primitives::data_value::{
    ApplicationDataValue, ApplicationDataValueWrite, BitString, CharacterString, CustomBitStream,
    Date, Enumerated, Time,
};
use embedded_bacnet::common::daily_schedule::WeeklySchedule;
use embedded_bacnet::common::error::Error;
use embedded_bacnet::common::io::{Reader, Writer};
use embedded_bacnet::common::object_id::{ObjectId, ObjectType};
use embedded_bacnet::common::property_id::PropertyId;
use embedded_bacnet::common::spec::{
    Binary, EngineeringUnits, EventState, LogBufferResultFlags, LoggingType, NotifyType,
    StatusFlags,
};
use embedded_bacnet::common::tag::{ApplicationTagNumber, Tag, TagNumber};

fn bytes_of(value: &ApplicationDataValue) -> Vec<u8> {
    let mut writer = Writer::new(vec![0; 512]);
    value.encode(&mut writer).unwrap();
    writer.to_bytes().to_vec()
}

fn value_of<'a>(
    bytes: &'a [u8],
    object_type: ObjectType,
    property_id: PropertyId,
) -> Result<ApplicationDataValue<'a>, Error> {
    let mut reader = Reader::new();
    let tag = Tag::decode(&mut reader, bytes)?;
    let object_id = ObjectId::new(object_type, 1);
    let value = ApplicationDataValue::decode(&tag, &object_id, &property_id, &mut reader, bytes)?;
    assert_eq!(reader.index, bytes.len());
    Ok(value)
}

fn roundtrip(value: ApplicationDataValue, object_type: ObjectType, property_id: PropertyId) {
    let bytes = bytes_of(&value);
    assert_eq!(value_of(&bytes, object_type, property_id), Ok(value.clone()));
    for k in 0..bytes.len() {
        let mut reader = Reader::new();
        let cut = &bytes[..k];
        let r = match Tag::decode(&mut reader, cut) {
            Ok(tag) => ApplicationDataValue::decode(
                &tag,
                &ObjectId::new(object_type, 1),
                &property_id,
                &mut reader,
                cut,
            ),
            Err(e) => Err(e),
        };
        assert_eq!(r, Err(Error::Truncated));
    }
}

fn empty_schedule() -> WeeklySchedule {
    WeeklySchedule {
        monday: vec![],
        tuesday: vec![],
        wednesday: vec![],
        thursday: vec![],
        friday: vec![],
        saturday: vec![],
        sunday: vec![],
    }
}

#[test]
fn date_year_1900_is_stored_as_zero() {
    let date = Date { year: 1900, month: 1, day: 1, wday: 1 };
    let mut writer = Writer::new(vec![0; 4]);
    date.encode(&mut writer).unwrap();
    assert_eq!(writer.to_bytes(), &[0, 1, 1, 1]);
    let mut reader = Reader::new();
    assert_eq!(Date::decode(&mut reader, &[0, 1, 1, 1]), Ok(date));
    assert_eq!(reader.index, 4);
}

#[test]
fn date_year_2155_is_stored_as_255() {
    let date = Date { year: 2155, month: 12, day: 31, wday: 7 };
    let mut writer = Writer::new(vec![0; 4]);
    date.encode(&mut writer).unwrap();
    assert_eq!(writer.to_bytes(), &[255, 12, 31, 7]);
    let mut reader = Reader::new();
    assert_eq!(Date::decode(&mut reader, &[255, 12, 31, 7]), Ok(date));
}

#[test]
fn date_wildcards_round_trip() {
    let date = Date::decode_inner([255, 255, 255, 255]);
    assert_eq!(date, Date { year: 2155, month: 255, day: 255, wday: 255 });
    let mut writer = Writer::new(vec![0; 4]);
    date.encode(&mut writer).unwrap();
    assert_eq!(writer.to_bytes(), &[255, 255, 255, 255]);
}

#[test]
fn date_out_of_range_year_is_refused() {
    let mut writer = Writer::new(vec![0; 8]);
    let early = Date { year: 1899, month: 1, day: 1, wday: 1 };
    let late = Date { year: 2156, month: 1, day: 1, wday: 1 };
    assert!(!early.is_valid());
    assert_eq!(early.encode(&mut writer), Err(Error::InvalidValue));
    assert_eq!(late.encode(&mut writer), Err(Error::InvalidValue));
    assert_eq!(ApplicationDataValue::Date(late).encode(&mut writer), Err(Error::InvalidValue));
    assert_eq!(writer.len(), 0);
}

#[test]
fn date_decode_from_tag_takes_the_bytes_of_the_value() {
    let tag = Tag::new(TagNumber::Application(ApplicationTagNumber::Date), 0x7C_01_0F_01);
    assert_eq!(Date::decode_from_tag(&tag), Date { year: 2024, month: 1, day: 15, wday: 1 });
}

#[test]
fn date_and_time_truncated() {
    let mut reader = Reader::new();
    assert_eq!(Date::decode(&mut reader, &[1, 2, 3]), Err(Error::Truncated));
    assert_eq!(Time::decode(&mut reader, &[1, 2, 3]), Err(Error::Truncated));
    assert_eq!(reader.index, 0);
}

#[test]
fn time_bytes() {
    let time = Time { hour: 14, minute: 30, second: 0, hundredths: 0 };
    let mut writer = Writer::new(vec![0; 4]);
    time.encode(&mut writer).unwrap();
    assert_eq!(writer.to_bytes(), &[14, 30, 0, 0]);
    let mut reader = Reader::new();
    assert_eq!(Time::decode(&mut reader, &[14, 30, 0, 0]), Ok(time));
    let mut small = Writer::new(vec![0; 3]);
    assert_eq!(time.encode(&mut small), Err(Error::Overflow));
    assert_eq!(small.len(), 0);
}

#[test]
fn value_bytes_are_exact() {
    assert_eq!(bytes_of(&ApplicationDataValue::Boolean(true)), vec![0x11]);
    assert_eq!(bytes_of(&ApplicationDataValue::Boolean(false)), vec![0x10]);
    assert_eq!(
        bytes_of(&ApplicationDataValue::Real(72.5f32.to_bits())),
        vec![0x44, 0x42, 0x91, 0x00, 0x00]
    );
    assert_eq!(bytes_of(&ApplicationDataValue::UnsignedInt(72)), vec![0x21, 72]);
    assert_eq!(bytes_of(&ApplicationDataValue::UnsignedInt(256)), vec![0x22, 1, 0]);
    assert_eq!(
        bytes_of(&ApplicationDataValue::Date(Date { year: 2024, month: 1, day: 15, wday: 1 })),
        vec![0xA4, 124, 1, 15, 1]
    );
    assert_eq!(
        bytes_of(&ApplicationDataValue::Time(Time {
            hour: 14,
            minute: 30,
            second: 0,
            hundredths: 0
        })),
        vec![0xB4, 14, 30, 0, 0]
    );
    assert_eq!(
        bytes_of(&ApplicationDataValue::ObjectId(ObjectId::new(ObjectType::ObjectDevice, 79079))),
        vec![0xC4, 0x02, 0x01, 0x34, 0xE7]
    );
    assert_eq!(
        bytes_of(&ApplicationDataValue::CharacterString(CharacterString { inner: "Hi" })),
        vec![0x73, 0, b'H', b'i']
    );
    assert_eq!(
        bytes_of(&ApplicationDataValue::CharacterString(CharacterString { inner: "Hello" })),
        vec![0x75, 6, 0, b'H', b'e', b'l', b'l', b'o']
    );
    assert_eq!(
        bytes_of(&ApplicationDataValue::Enumerated(Enumerated::Units(
            EngineeringUnits::DegreesCelsius
        ))),
        vec![0x91, 62]
    );
    assert_eq!(
        bytes_of(&ApplicationDataValue::Enumerated(Enumerated::Unknown(70_000))),
        vec![0x93, 1, 0x11, 0x70]
    );
    assert_eq!(
        bytes_of(&ApplicationDataValue::BitString(BitString::StatusFlags(StatusFlags {
            in_alarm: true,
            fault: false,
            overridden: false,
            out_of_service: true,
        }))),
        vec![0x82, 0, 0x90]
    );
    assert_eq!(
        bytes_of(&ApplicationDataValue::BitString(BitString::Custom(CustomBitStream {
            unused_bits: 3,
            bits: &[0xAA, 0xF8],
        }))),
        vec![0x83, 3, 0xAA, 0xF8]
    );
}

#[test]
fn every_value_type_round_trips() {
    let device = ObjectType::ObjectDevice;
    let any = PropertyId::PropDescription;
    roundtrip(ApplicationDataValue::Boolean(true), device, any);
    roundtrip(ApplicationDataValue::Boolean(false), device, any);
    roundtrip(ApplicationDataValue::Real(21.5f32.to_bits()), device, any);
    roundtrip(ApplicationDataValue::Real(f32::NAN.to_bits()), device, any);
    for value in [0u32, 255, 256, 16_777_215, 16_777_216, u32::MAX] {
        roundtrip(ApplicationDataValue::UnsignedInt(value), device, any);
    }
    roundtrip(
        ApplicationDataValue::Date(Date { year: 2024, month: 2, day: 29, wday: 4 }),
        device,
        PropertyId::PropLocalDate,
    );
    roundtrip(
        ApplicationDataValue::Time(Time { hour: 23, minute: 59, second: 59, hundredths: 99 }),
        device,
        PropertyId::PropLocalTime,
    );
    roundtrip(
        ApplicationDataValue::ObjectId(ObjectId::new(ObjectType::ObjectAnalogInput, 4_194_303)),
        device,
        PropertyId::PropObjectIdentifier,
    );
    roundtrip(
        ApplicationDataValue::ObjectId(ObjectId::new(ObjectType::Other(1023), 0)),
        device,
        PropertyId::PropObjectIdentifier,
    );
    roundtrip(
        ApplicationDataValue::CharacterString(CharacterString { inner: "" }),
        device,
        PropertyId::PropObjectName,
    );
    roundtrip(
        ApplicationDataValue::CharacterString(CharacterString { inner: "Zählerstand 21 °C" }),
        device,
        PropertyId::PropObjectName,
    );
    let long = "x".repeat(300);
    roundtrip(
        ApplicationDataValue::CharacterString(CharacterString { inner: &long }),
        device,
        PropertyId::PropObjectName,
    );
    roundtrip(
        ApplicationDataValue::BitString(BitString::StatusFlags(StatusFlags {
            in_alarm: false,
            fault: true,
            overridden: true,
            out_of_service: false,
        })),
        device,
        PropertyId::PropStatusFlags,
    );
    roundtrip(
        ApplicationDataValue::BitString(BitString::LogBufferResultFlags(LogBufferResultFlags {
            first_item: true,
            last_item: false,
            more_items: true,
        })),
        device,
        PropertyId::PropLogBuffer,
    );
    roundtrip(
        ApplicationDataValue::BitString(BitString::Custom(CustomBitStream {
            unused_bits: 5,
            bits: &[1, 2, 0xE0],
        })),
        device,
        any,
    );
    roundtrip(
        ApplicationDataValue::BitString(BitString::Custom(CustomBitStream {
            unused_bits: 0,
            bits: &[],
        })),
        device,
        any,
    );
}

#[test]
fn every_enumerated_reading_round_trips() {
    let device = ObjectType::ObjectDevice;
    roundtrip(
        ApplicationDataValue::Enumerated(Enumerated::Units(EngineeringUnits::Kilowatts)),
        device,
        PropertyId::PropUnits,
    );
    roundtrip(
        ApplicationDataValue::Enumerated(Enumerated::Binary(Binary::On)),
        ObjectType::ObjectBinaryOutput,
        PropertyId::PropPresentValue,
    );
    roundtrip(
        ApplicationDataValue::Enumerated(Enumerated::ObjectType(ObjectType::ObjectTrendLog)),
        device,
        PropertyId::PropObjectType,
    );
    roundtrip(
        ApplicationDataValue::Enumerated(Enumerated::ObjectType(ObjectType::Other(300))),
        device,
        PropertyId::PropObjectType,
    );
    roundtrip(
        ApplicationDataValue::Enumerated(Enumerated::EventState(EventState::HighLimit)),
        device,
        PropertyId::PropEventState,
    );
    roundtrip(
        ApplicationDataValue::Enumerated(Enumerated::NotifyType(NotifyType::Event)),
        device,
        PropertyId::PropNotifyType,
    );
    roundtrip(
        ApplicationDataValue::Enumerated(Enumerated::LoggingType(LoggingType::Triggered)),
        device,
        PropertyId::PropLoggingType,
    );
    roundtrip(
        ApplicationDataValue::Enumerated(Enumerated::Unknown(70_000)),
        device,
        PropertyId::PropSystemStatus,
    );
}

#[test]
fn enumerated_present_value_of_binary_input_is_binary() {
    let value = value_of(&[0x91, 1], ObjectType::ObjectBinaryInput, PropertyId::PropPresentValue);
    assert_eq!(value, Ok(ApplicationDataValue::Enumerated(Enumerated::Binary(Binary::On))));
    let value = value_of(&[0x91, 0], ObjectType::ObjectBinaryValue, PropertyId::PropPresentValue);
    assert_eq!(value, Ok(ApplicationDataValue::Enumerated(Enumerated::Binary(Binary::Off))));
}

#[test]
fn enumerated_units_is_units() {
    let value = value_of(&[0x91, 62], ObjectType::ObjectBinaryInput, PropertyId::PropUnits);
    assert_eq!(
        value,
        Ok(ApplicationDataValue::Enumerated(Enumerated::Units(EngineeringUnits::DegreesCelsius)))
    );
    let value = value_of(&[0x91, 1], ObjectType::ObjectAnalogInput, PropertyId::PropUnits);
    assert_eq!(
        value,
        Ok(ApplicationDataValue::Enumerated(Enumerated::Units(EngineeringUnits::SquareFeet)))
    );
}

#[test]
fn enumerated_same_bytes_mean_units_or_binary_by_property() {
    let tag = Tag::new(TagNumber::Application(ApplicationTagNumber::Enumerated), 1);
    let object_id = ObjectId::new(ObjectType::ObjectBinaryInput, 1);
    let buf = [0x01u8];
    let mut reader = Reader::new();
    let value =
        ApplicationDataValue::decode(&tag, &object_id, &PropertyId::PropUnits, &mut reader, &buf);
    match value {
        Ok(ApplicationDataValue::Enumerated(Enumerated::Units(u))) => {
            assert_eq!(u as u32, 1);
            assert_eq!(u.to_u32(), 1);
        }
        other => panic!("unexpected value {:?}", other),
    }
    assert_eq!(reader.index, 1);
    let mut reader = Reader::new();
    let value = ApplicationDataValue::decode(
        &tag,
        &object_id,
        &PropertyId::PropPresentValue,
        &mut reader,
        &buf,
    );
    assert_eq!(value, Ok(ApplicationDataValue::Enumerated(Enumerated::Binary(Binary::On))));
}

#[test]
fn every_standard_unit_code_is_a_unit() {
    for code in 0u32..=254 {
        let unit = EngineeringUnits::from_u32(code).unwrap();
        assert_eq!(unit as u32, code);
        assert_eq!(unit.to_u32(), code);
        assert_eq!(
            Enumerated::from_u32(code, ObjectType::ObjectAnalogValue, PropertyId::PropUnits),
            Enumerated::Units(unit)
        );
    }
    assert_eq!(EngineeringUnits::from_u32(0), Some(EngineeringUnits::SquareMeters));
    assert_eq!(EngineeringUnits::from_u32(19), Some(EngineeringUnits::KilowattHours));
    assert_eq!(EngineeringUnits::from_u32(62), Some(EngineeringUnits::DegreesCelsius));
    assert_eq!(EngineeringUnits::from_u32(95), Some(EngineeringUnits::NoUnits));
    assert_eq!(EngineeringUnits::from_u32(98), Some(EngineeringUnits::Percent));
    assert_eq!(EngineeringUnits::from_u32(159), Some(EngineeringUnits::Milliseconds));
    assert_eq!(EngineeringUnits::from_u32(47808), Some(EngineeringUnits::StandardCubicFeetPerDay));
    assert_eq!(EngineeringUnits::MilliremsPerHour.to_u32(), 47815);
    for code in [255u32, 256, 1000, 47807, 47813, 47816, u32::MAX] {
        assert_eq!(EngineeringUnits::from_u32(code), None);
        assert_eq!(
            Enumerated::from_u32(code, ObjectType::ObjectAnalogValue, PropertyId::PropUnits),
            Enumerated::Unknown(code)
        );
    }
}

#[test]
fn enumerated_out_of_range_code_is_passed_through() {
    let value = value_of(&[0x91, 9], ObjectType::ObjectBinaryInput, PropertyId::PropPresentValue);
    assert_eq!(value, Ok(ApplicationDataValue::Enumerated(Enumerated::Unknown(9))));
    let value =
        value_of(&[0x92, 0xFF, 0xFF], ObjectType::ObjectAnalogInput, PropertyId::PropUnits);
    assert_eq!(value, Ok(ApplicationDataValue::Enumerated(Enumerated::Unknown(65_535))));
    let value = value_of(&[0x91, 200], ObjectType::ObjectDevice, PropertyId::PropEventState);
    assert_eq!(value, Ok(ApplicationDataValue::Enumerated(Enumerated::Unknown(200))));
    let value = value_of(&[0x92, 4, 0], ObjectType::ObjectDevice, PropertyId::PropObjectType);
    assert_eq!(value, Ok(ApplicationDataValue::Enumerated(Enumerated::Unknown(1024))));
}

#[test]
fn enumerated_present_value_of_other_kinds_stays_raw() {
    let value = value_of(&[0x91, 1], ObjectType::ObjectAnalogInput, PropertyId::PropPresentValue);
    assert_eq!(value, Ok(ApplicationDataValue::Enumerated(Enumerated::Unknown(1))));
    assert_eq!(
        Enumerated::from_u32(1, ObjectType::ObjectAnalogInput, PropertyId::PropPresentValue),
        Enumerated::Unknown(1)
    );
    assert_eq!(Enumerated::Binary(Binary::On).to_u32(), 1);
}

#[test]
fn enumerated_encode_is_tag_and_minimal_number() {
    let mut writer = Writer::new(vec![0; 8]);
    Enumerated::EventState(EventState::LifeSafetyAlarm).encode(&mut writer).unwrap();
    Enumerated::Unknown(0x01_00_00).encode(&mut writer).unwrap();
    assert_eq!(writer.to_bytes(), &[0x91, 5, 0x93, 1, 0, 0]);
    let mut small = Writer::new(vec![0; 3]);
    assert_eq!(Enumerated::Unknown(0x01_00_00).encode(&mut small), Err(Error::Overflow));
    assert_eq!(small.len(), 0);
}

#[test]
fn character_string_decodes_utf8() {
    let bytes = [0u8, 0xC3, 0xA4, b'b'];
    let mut reader = Reader::new();
    let text = CharacterString::decode(4, &mut reader, &bytes).unwrap();
    assert_eq!(text.inner, "äb");
    assert_eq!(text.inner.chars().count(), 2);
    assert_eq!(reader.index, 4);
}

#[test]
fn character_string_refuses_other_character_sets() {
    let bytes = [4u8, 0, b'a', 0, b'b'];
    let mut reader = Reader::new();
    assert_eq!(CharacterString::decode(5, &mut reader, &bytes), Err(Error::InvalidValue));
    assert_eq!(reader.index, 0);
    assert_eq!(
        value_of(&[0x73, 1, b'H', b'i'], ObjectType::ObjectDevice, PropertyId::PropObjectName),
        Err(Error::InvalidValue)
    );
}

#[test]
fn character_string_refuses_invalid_utf8() {
    let bytes = [0u8, 0xC3, 0x28];
    let mut reader = Reader::new();
    assert_eq!(CharacterString::decode(3, &mut reader, &bytes), Err(Error::InvalidValue));
    assert_eq!(reader.index, 0);
}

#[test]
fn character_string_refuses_empty_and_truncated() {
    let bytes = [0u8, b'a'];
    let mut reader = Reader::new();
    assert_eq!(CharacterString::decode(0, &mut reader, &bytes), Err(Error::InvalidValue));
    assert_eq!(CharacterString::decode(3, &mut reader, &bytes), Err(Error::Truncated));
    assert_eq!(CharacterString::decode(1, &mut reader, &[]), Err(Error::Truncated));
    assert_eq!(reader.index, 0);
}

#[test]
fn bit_string_reading_follows_the_property() {
    let bytes = [0u8, 0xA0];
    let mut reader = Reader::new();
    assert_eq!(
        BitString::decode(PropertyId::PropStatusFlags, 2, &mut reader, &bytes),
        Ok(BitString::StatusFlags(StatusFlags {
            in_alarm: true,
            fault: false,
            overridden: true,
            out_of_service: false,
        }))
    );
    let mut reader = Reader::new();
    assert_eq!(
        BitString::decode(PropertyId::PropLogBuffer, 2, &mut reader, &bytes),
        Ok(BitString::LogBufferResultFlags(LogBufferResultFlags {
            first_item: true,
            last_item: false,
            more_items: true,
        }))
    );
    let mut reader = Reader::new();
    assert_eq!(
        BitString::decode(PropertyId::PropPriorityArray, 2, &mut reader, &bytes),
        Ok(BitString::Custom(CustomBitStream { unused_bits: 0, bits: &[0xA0] }))
    );
}

#[test]
fn bit_string_refuses_bits_without_meaning() {
    let mut reader = Reader::new();
    assert_eq!(
        BitString::decode(PropertyId::PropStatusFlags, 2, &mut reader, &[0, 0x08]),
        Err(Error::InvalidValue)
    );
    assert_eq!(
        BitString::decode(PropertyId::PropLogBuffer, 2, &mut reader, &[0, 0x10]),
        Err(Error::InvalidValue)
    );
    assert_eq!(
        BitString::decode(PropertyId::PropStatusFlags, 3, &mut reader, &[0, 0x80, 0]),
        Err(Error::InvalidValue)
    );
    assert_eq!(
        BitString::decode(PropertyId::PropDescription, 0, &mut reader, &[0, 0x80, 0]),
        Err(Error::InvalidValue)
    );
    assert_eq!(
        BitString::decode(PropertyId::PropStatusFlags, 2, &mut reader, &[0]),
        Err(Error::Truncated)
    );
    assert_eq!(reader.index, 0);
}

#[test]
fn status_flags_bits() {
    let all = StatusFlags { in_alarm: true, fault: true, overridden: true, out_of_service: true };
    assert_eq!(all.to_bits(), 0xF0);
    assert_eq!(StatusFlags::from_bits(0xF0), Some(all));
    assert_eq!(StatusFlags::from_bits(0x01), None);
    let fault = StatusFlags { in_alarm: false, fault: true, overridden: false, out_of_service: false };
    assert_eq!(fault.to_bits(), 0x40);
    let log = LogBufferResultFlags { first_item: false, last_item: true, more_items: false };
    assert_eq!(log.to_bits(), 0x40);
    assert_eq!(LogBufferResultFlags::from_bits(0xE0).map(|f| f.to_bits()), Some(0xE0));
    assert_eq!(LogBufferResultFlags::from_bits(0x10), None);
}

#[test]
fn unmodelled_types_fail_explicitly() {
    let mut writer = Writer::new(vec![0; 64]);
    assert_eq!(ApplicationDataValue::Double(0).encode(&mut writer), Err(Error::Unimplemented));
    assert_eq!(
        ApplicationDataValue::WeeklySchedule(empty_schedule()).encode(&mut writer),
        Err(Error::Unimplemented)
    );
    assert_eq!(
        ApplicationDataValueWrite::WeeklySchedule(empty_schedule()).encode(&mut writer),
        Err(Error::Unimplemented)
    );
    assert_eq!(writer.len(), 0);
    for first in [0x00u8, 0x31, 0x55, 0x61] {
        let bytes = [first, 0, 0, 0, 0, 0, 0, 0];
        let mut reader = Reader::new();
        let tag = Tag::decode(&mut reader, &bytes).unwrap();
        let at = reader.index;
        let r = ApplicationDataValue::decode(
            &tag,
            &ObjectId::new(ObjectType::ObjectDevice, 1),
            &PropertyId::PropPresentValue,
            &mut reader,
            &bytes,
        );
        assert_eq!(r, Err(Error::Unimplemented));
        assert_eq!(reader.index, at);
    }
}

#[test]
fn value_decode_refuses_context_tags_and_wrong_lengths() {
    let object_id = ObjectId::new(ObjectType::ObjectDevice, 1);
    let property_id = PropertyId::PropPresentValue;
    let bytes = [0u8; 8];
    let decode = |tag: Tag| {
        let mut reader = Reader::new();
        let r = ApplicationDataValue::decode(&tag, &object_id, &property_id, &mut reader, &bytes);
        assert_eq!(reader.index, 0);
        r
    };
    assert_eq!(decode(Tag::new(TagNumber::ContextSpecific(1), 4)), Err(Error::InvalidValue));
    assert_eq!(decode(Tag::new(TagNumber::ContextSpecificOpening(1), 0)), Err(Error::Unimplemented));
    assert_eq!(decode(Tag::new(TagNumber::ContextSpecificClosing(1), 0)), Err(Error::InvalidValue));
    for number in [
        ApplicationTagNumber::Real,
        ApplicationTagNumber::Date,
        ApplicationTagNumber::Time,
        ApplicationTagNumber::ObjectId,
    ] {
        assert_eq!(decode(Tag::new(TagNumber::Application(number), 3)), Err(Error::InvalidValue));
    }
    assert_eq!(
        decode(Tag::new(TagNumber::Application(ApplicationTagNumber::UnsignedInt), 5)),
        Err(Error::InvalidValue)
    );
    assert_eq!(
        decode(Tag::new(TagNumber::Application(ApplicationTagNumber::Enumerated), 0)),
        Err(Error::InvalidValue)
    );
}

#[test]
fn value_encode_overflow_writes_nothing() {
    let values = [
        ApplicationDataValue::Real(1),
        ApplicationDataValue::UnsignedInt(70_000),
        ApplicationDataValue::Date(Date { year: 2000, month: 1, day: 1, wday: 6 }),
        ApplicationDataValue::Time(Time { hour: 1, minute: 2, second: 3, hundredths: 4 }),
        ApplicationDataValue::ObjectId(ObjectId::new(ObjectType::ObjectDevice, 1)),
        ApplicationDataValue::CharacterString(CharacterString { inner: "abcdef" }),
        ApplicationDataValue::Enumerated(Enumerated::Unknown(70_000)),
        ApplicationDataValue::BitString(BitString::Custom(CustomBitStream {
            unused_bits: 0,
            bits: &[1, 2, 3],
        })),
    ];
    for value in values {
        let len = bytes_of(&value).len();
        for capacity in 0..len {
            let mut writer = Writer::new(vec![0; capacity + 1]);
            writer.push(0x55).unwrap();
            assert_eq!(value.encode(&mut writer), Err(Error::Overflow));
            assert_eq!(writer.to_bytes(), &[0x55]);
        }
        let mut writer = Writer::new(vec![0; len]);
        assert_eq!(value.encode(&mut writer), Ok(()));
    }
}

#[test]
fn invalid_object_id_is_refused() {
    let mut writer = Writer::new(vec![0; 16]);
    let too_big = ObjectId::new(ObjectType::ObjectDevice, 4_194_304);
    assert_eq!(too_big.encode(&mut writer), Err(Error::InvalidValue));
    let bad_kind = ObjectId::new(ObjectType::Other(8), 1);
    assert_eq!(bad_kind.encode(&mut writer), Err(Error::InvalidValue));
    let beyond = ObjectId::new(ObjectType::Other(1024), 1);
    assert_eq!(ApplicationDataValue::ObjectId(beyond).encode(&mut writer), Err(Error::InvalidValue));
    assert_eq!(writer.len(), 0);
}

#[test]
fn write_values_encode_like_read_values() {
    let mut writer = Writer::new(vec![0; 16]);
    ApplicationDataValueWrite::Boolean(true).encode(&mut writer).unwrap();
    ApplicationDataValueWrite::Real(1.0f32.to_bits()).encode(&mut writer).unwrap();
    ApplicationDataValueWrite::Enumerated(Enumerated::Binary(Binary::On)).encode(&mut writer).unwrap();
    assert_eq!(writer.to_bytes(), &[0x11, 0x44, 0x3F, 0x80, 0, 0, 0x91, 1]);
}

#[test]
fn object_type_and_property_codes() {
    assert_eq!(ObjectType::ObjectDevice.to_u32(), 8);
    assert_eq!(ObjectType::from_u32(3), Some(ObjectType::ObjectBinaryInput));
    assert_eq!(ObjectType::from_u32(31), Some(ObjectType::Other(31)));
    assert_eq!(ObjectType::from_u32(1024), None);
    assert!(!ObjectType::Other(30).is_valid());
    assert_eq!(PropertyId::PropLocalDate.to_u32(), 56);
    assert_eq!(PropertyId::PropLocalTime.to_u32(), 57);
    assert_eq!(PropertyId::from_u32(85), PropertyId::PropPresentValue);
    assert_eq!(PropertyId::from_u32(4000), PropertyId::Other(4000));
    assert!(!PropertyId::Other(85).is_valid());
    assert!(PropertyId::Other(86).is_valid());
    for code in 0u32..50_000 {
        assert_eq!(PropertyId::from_u32(code).to_u32(), code);
        if let Some(kind) = ObjectType::from_u32(code) {
            assert_eq!(kind.to_u32(), code);
        }
        if let Some(units) = EngineeringUnits::from_u32(code) {
            assert_eq!(units.to_u32(), code);
        }
    }
}
