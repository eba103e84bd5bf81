use embedded_bacnet::application_protocol::application_pdu::{
    Abort, ApplicationPdu, ErrorPdu, Reject, SimpleAck,
};
use embedded_bacnet::application_protocol::confirmed::{
    ComplexAck, ComplexAckService, ConfirmedRequest, ConfirmedRequestService, MaxAdpu, MaxSegments,
};
use embedded_bacnet::application_protocol::primitives::data_value::{
    ApplicationDataValue, BitString, CharacterString, Date, Enumerated, Time,
};
use embedded_bacnet::application_protocol::services::read_property_multiple::{
    ObjectWithResults, PropertyAccessError, PropertyResult, PropertyValue, ReadPropertyMultiple,
    ReadPropertyMultipleAck, ReadPropertyMultipleObject,
};
use embedded_bacnet::application_protocol::services::time_synchronization::TimeSynchronization;
use embedded_bacnet::application_protocol::unconfirmed::UnconfirmedRequest;
use embedded_bacnet::common::error::Error;
use embedded_bacnet::common::io::{Reader, Writer};
use embedded_bacnet::common::object_id::{ObjectId, ObjectType};
use embedded_bacnet::common::property_id::PropertyId;
use embedded_bacnet::common::spec::{Binary, EngineeringUnits, StatusFlags};
use embedded_bacnet::network_protocol::data_link::{DataLink, DataLinkFunction};
use embedded_bacnet::network_protocol::network_pdu::{
    Addr, DestinationAddress, MessagePriority, NetworkMessage, NetworkPdu, SourceAddress,
};

const TIME_SYNC_FRAME: [u8; 18] = [
    0x81, 0x0A, 0x00, 0x12, 0x01, 0x00, 0x10, 0x06, 0xA4, 0x7C, 0x01, 0x0F, 0x01, 0xB4, 0x0E, 0x1E,
    0x00, 0x00,
];

const READ_REQUEST_FRAME: [u8; 21] = [
    0x81, 0x0A, 0x00, 0x15, 0x01, 0x04, 0x00, 0x05, 0x01, 0x0E, 0x0C, 0x02, 0x01, 0x34, 0xE7, 0x1E,
    0x09, 0x38, 0x09, 0x39, 0x1F,
];

const READ_ACK_FRAME: [u8; 34] = [
    0x81, 0x0A, 0x00, 0x22, 0x01, 0x00, 0x30, 0x01, 0x0E, 0x0C, 0x02, 0x01, 0x34, 0xE7, 0x1E, 0x29,
    0x38, 0x4E, 0xA4, 0x7C, 0x01, 0x0F, 0x01, 0x4F, 0x29, 0x39, 0x4E, 0xB4, 0x0E, 0x1E, 0x00, 0x00,
    0x4F, 0x1F,
];

fn sample_date() -> Date {
    Date { year: 2024, month: 1, day: 15, wday: 1 }
}

fn sample_time() -> Time {
    Time { hour: 14, minute: 30, second: 0, hundredths: 0 }
}

fn device() -> ObjectId {
    ObjectId::new(ObjectType::ObjectDevice, 79079)
}

fn unicast(apdu: ApplicationPdu, expect_reply: bool) -> DataLink {
    let npdu = NetworkPdu::new(
        None,
        None,
        expect_reply,
        MessagePriority::Normal,
        NetworkMessage::Apdu(apdu),
    );
    DataLink::new(DataLinkFunction::OriginalUnicastNpdu, Some(npdu))
}

fn frame_bytes(link: &DataLink) -> Vec<u8> {
    let mut writer = Writer::new(vec![0; 2048]);
    link.encode(&mut writer).unwrap();
    writer.to_bytes().to_vec()
}

fn frame_back(bytes: &[u8]) -> Result<DataLink<'_>, Error> {
    let mut reader = Reader::new();
    let link = DataLink::decode(&mut reader, bytes)?;
    assert_eq!(reader.index, bytes.len());
    Ok(link)
}

fn check_frame(link: DataLink) {
    let bytes = frame_bytes(&link);
    assert_eq!(bytes[2] as usize * 256 + bytes[3] as usize, bytes.len());
    assert_eq!(frame_back(&bytes), Ok(link.clone()));
    for k in 0..bytes.len() {
        let mut reader = Reader::new();
        assert_eq!(DataLink::decode(&mut reader, &bytes[..k]), Err(Error::Truncated));
        assert_eq!(reader.index, 0);
    }
    for capacity in 0..bytes.len() {
        let mut writer = Writer::new(vec![0; capacity]);
        assert_eq!(link.encode(&mut writer), Err(Error::Overflow));
        assert_eq!(writer.len(), 0);
    }
    let mut followed = bytes.clone();
    followed.extend_from_slice(&[0xFF, 0xFF]);
    let mut reader = Reader::new();
    assert_eq!(DataLink::decode(&mut reader, &followed), Ok(link));
    assert_eq!(reader.index, bytes.len());
}

fn read_request() -> ReadPropertyMultiple {
    ReadPropertyMultiple::new(vec![ReadPropertyMultipleObject::new(
        device(),
        vec![PropertyId::PropLocalDate, PropertyId::PropLocalTime],
    )])
}

fn read_ack<'a>() -> ReadPropertyMultipleAck<'a> {
    ReadPropertyMultipleAck::new(vec![ObjectWithResults {
        object_id: device(),
        property_results: vec![
            PropertyResult {
                id: PropertyId::PropLocalDate,
                value: PropertyValue::PropValue(ApplicationDataValue::Date(sample_date())),
            },
            PropertyResult {
                id: PropertyId::PropLocalTime,
                value: PropertyValue::PropValue(ApplicationDataValue::Time(sample_time())),
            },
        ],
    }])
}

#[test]
fn time_synchronization_end_to_end() {
    let request = TimeSynchronization::new(sample_date(), sample_time());
    let apdu = ApplicationPdu::UnconfirmedRequest(UnconfirmedRequest::TimeSynchronization(request));
    let link = unicast(apdu, false);
    let bytes = frame_bytes(&link);
    assert_eq!(bytes, TIME_SYNC_FRAME.to_vec());
    let decoded = frame_back(&bytes).unwrap();
    assert_eq!(decoded.function, DataLinkFunction::OriginalUnicastNpdu);
    let npdu = decoded.npdu.unwrap();
    assert!(!npdu.expect_reply);
    match npdu.network_message {
        NetworkMessage::Apdu(ApplicationPdu::UnconfirmedRequest(
            UnconfirmedRequest::TimeSynchronization(x),
        )) => {
            assert_eq!(x.date, Date { year: 2024, month: 1, day: 15, wday: 1 });
            assert_eq!(x.time, Time { hour: 14, minute: 30, second: 0, hundredths: 0 });
        }
        other => panic!("unexpected message {:?}", other),
    }
}

#[test]
fn read_property_multiple_end_to_end() {
    let request = ConfirmedRequest::new(
        1,
        ConfirmedRequestService::ReadPropertyMultiple(read_request()),
    );
    let link = unicast(ApplicationPdu::ConfirmedRequest(request), true);
    assert_eq!(frame_bytes(&link), READ_REQUEST_FRAME.to_vec());

    let answer = frame_back(&READ_ACK_FRAME).unwrap();
    let npdu = answer.npdu.unwrap();
    let ack = match npdu.network_message {
        NetworkMessage::Apdu(ApplicationPdu::ComplexAck(ComplexAck {
            invoke_id: 1,
            service: ComplexAckService::ReadPropertyMultiple(ack),
        })) => ack,
        other => panic!("unexpected message {:?}", other),
    };
    assert_eq!(ack.objects_with_results.len(), 1);
    let object = &ack.objects_with_results[0];
    assert_eq!(object.object_id, device());
    assert_eq!(object.property_results.len(), 2);
    assert_eq!(object.property_results[0].id, PropertyId::PropLocalDate);
    assert_eq!(
        object.property_results[0].value,
        PropertyValue::PropValue(ApplicationDataValue::Date(sample_date()))
    );
    assert_eq!(object.property_results[1].id, PropertyId::PropLocalTime);
    assert_eq!(
        object.property_results[1].value,
        PropertyValue::PropValue(ApplicationDataValue::Time(sample_time()))
    );
}

#[test]
fn read_ack_encodes_to_the_captured_frame() {
    let ack = ComplexAck::new(1, ComplexAckService::ReadPropertyMultiple(read_ack()));
    let link = unicast(ApplicationPdu::ComplexAck(ack), false);
    assert_eq!(frame_bytes(&link), READ_ACK_FRAME.to_vec());
}

#[test]
fn every_frame_round_trips_and_no_truncation_decodes() {
    check_frame(unicast(
        ApplicationPdu::UnconfirmedRequest(UnconfirmedRequest::TimeSynchronization(
            TimeSynchronization::new(sample_date(), sample_time()),
        )),
        false,
    ));
    check_frame(unicast(
        ApplicationPdu::ConfirmedRequest(ConfirmedRequest::new(
            7,
            ConfirmedRequestService::ReadPropertyMultiple(read_request()),
        )),
        true,
    ));
    check_frame(unicast(
        ApplicationPdu::ConfirmedRequest(ConfirmedRequest {
            segmented_response_accepted: true,
            max_segments: MaxSegments::SixtyFour,
            max_adpu: MaxAdpu::UpTo480,
            invoke_id: 255,
            service: ConfirmedRequestService::ReadPropertyMultiple(ReadPropertyMultiple::new(
                vec![
                    ReadPropertyMultipleObject::new(
                        ObjectId::new(ObjectType::ObjectAnalogInput, 3),
                        vec![
                            PropertyId::PropPresentValue,
                            PropertyId::PropUnits,
                            PropertyId::Other(4711),
                        ],
                    ),
                    ReadPropertyMultipleObject::new(
                        ObjectId::new(ObjectType::ObjectBinaryValue, 0),
                        vec![],
                    ),
                ],
            )),
        }),
        true,
    ));
    check_frame(unicast(
        ApplicationPdu::ComplexAck(ComplexAck::new(
            1,
            ComplexAckService::ReadPropertyMultiple(read_ack()),
        )),
        false,
    ));
    check_frame(unicast(
        ApplicationPdu::SimpleAck(SimpleAck { invoke_id: 9, service_choice: 15 }),
        false,
    ));
    check_frame(unicast(
        ApplicationPdu::Error(ErrorPdu {
            invoke_id: 9,
            service_choice: 14,
            error: PropertyAccessError { error_class: 2, error_code: 32 },
        }),
        false,
    ));
    check_frame(unicast(ApplicationPdu::Reject(Reject { invoke_id: 3, reason: 9 }), false));
    check_frame(unicast(
        ApplicationPdu::Abort(Abort { server: true, invoke_id: 3, reason: 4 }),
        false,
    ));
    check_frame(DataLink::new(DataLinkFunction::RegisterForeignDevice, None));
    check_frame(DataLink::new(
        DataLinkFunction::OriginalBroadcastNpdu,
        Some(NetworkPdu::new(
            Some(SourceAddress {
                net: 0x1234,
                address: Some(Addr { ipv4: [192, 168, 1, 249], port: 0xBAC0 }),
            }),
            Some(DestinationAddress { net: 0xFFFF, address: None, hops: 255 }),
            false,
            MessagePriority::LifeSafety,
            NetworkMessage::Apdu(ApplicationPdu::UnconfirmedRequest(
                UnconfirmedRequest::TimeSynchronization(TimeSynchronization::new(
                    sample_date(),
                    sample_time(),
                )),
            )),
        )),
    ));
}

#[test]
fn mixed_acknowledgement_round_trips() {
    let name = String::from("Raum 1.07");
    let ack = ReadPropertyMultipleAck::new(vec![
        ObjectWithResults {
            object_id: ObjectId::new(ObjectType::ObjectBinaryInput, 12),
            property_results: vec![
                PropertyResult {
                    id: PropertyId::PropPresentValue,
                    value: PropertyValue::PropValue(ApplicationDataValue::Enumerated(
                        Enumerated::Binary(Binary::On),
                    )),
                },
                PropertyResult {
                    id: PropertyId::PropObjectName,
                    value: PropertyValue::PropValue(ApplicationDataValue::CharacterString(
                        CharacterString { inner: &name },
                    )),
                },
                PropertyResult {
                    id: PropertyId::PropStatusFlags,
                    value: PropertyValue::PropValue(ApplicationDataValue::BitString(
                        BitString::StatusFlags(StatusFlags {
                            in_alarm: false,
                            fault: false,
                            overridden: false,
                            out_of_service: true,
                        }),
                    )),
                },
                PropertyResult {
                    id: PropertyId::PropUnits,
                    value: PropertyValue::PropError(PropertyAccessError {
                        error_class: 2,
                        error_code: 32,
                    }),
                },
            ],
        },
        ObjectWithResults {
            object_id: ObjectId::new(ObjectType::ObjectAnalogInput, 1),
            property_results: vec![
                PropertyResult {
                    id: PropertyId::PropPresentValue,
                    value: PropertyValue::PropValue(ApplicationDataValue::Real(
                        21.5f32.to_bits(),
                    )),
                },
                PropertyResult {
                    id: PropertyId::PropUnits,
                    value: PropertyValue::PropValue(ApplicationDataValue::Enumerated(
                        Enumerated::Units(EngineeringUnits::DegreesCelsius),
                    )),
                },
            ],
        },
        ObjectWithResults { object_id: device(), property_results: vec![] },
    ]);
    let mut writer = Writer::new(vec![0; 256]);
    ack.encode(&mut writer).unwrap();
    let bytes = writer.to_bytes().to_vec();
    assert_eq!(&bytes[..9], &[0x0C, 0x00, 0xC0, 0x00, 0x0C, 0x1E, 0x29, 0x55, 0x4E]);
    let mut reader = Reader::new();
    assert_eq!(ReadPropertyMultipleAck::decode(&mut reader, &bytes), Ok(ack.clone()));
    assert_eq!(reader.index, bytes.len());
    check_frame(unicast(
        ApplicationPdu::ComplexAck(ComplexAck::new(
            200,
            ComplexAckService::ReadPropertyMultiple(ack),
        )),
        false,
    ));
}

#[test]
fn per_property_failure_is_data() {
    let bytes = [
        0x0C, 0x00, 0x00, 0x00, 0x01, 0x1E, 0x29, 0x55, 0x5E, 0x91, 0x02, 0x91, 0x20, 0x5F, 0x29,
        0x75, 0x4E, 0x91, 0x3E, 0x4F, 0x1F,
    ];
    let mut reader = Reader::new();
    let ack = ReadPropertyMultipleAck::decode(&mut reader, &bytes).unwrap();
    let results = &ack.objects_with_results[0].property_results;
    assert_eq!(
        results[0],
        PropertyResult {
            id: PropertyId::PropPresentValue,
            value: PropertyValue::PropError(PropertyAccessError { error_class: 2, error_code: 32 }),
        }
    );
    assert_eq!(
        results[1],
        PropertyResult {
            id: PropertyId::PropUnits,
            value: PropertyValue::PropValue(ApplicationDataValue::Enumerated(Enumerated::Units(
                EngineeringUnits::DegreesCelsius
            ))),
        }
    );
}

#[test]
fn request_round_trips_alone() {
    let request = read_request();
    let mut writer = Writer::new(vec![0; 64]);
    request.encode(&mut writer).unwrap();
    assert_eq!(writer.to_bytes(), &READ_REQUEST_FRAME[10..]);
    let mut reader = Reader::new();
    assert_eq!(ReadPropertyMultiple::decode(&mut reader, writer.to_bytes()), Ok(request));
    let mut reader = Reader::new();
    assert_eq!(
        ReadPropertyMultiple::decode(&mut reader, &[]),
        Ok(ReadPropertyMultiple::new(vec![]))
    );
}

#[test]
fn time_synchronization_alone() {
    let request = TimeSynchronization::new(sample_date(), sample_time());
    let mut writer = Writer::new(vec![0; 10]);
    request.encode(&mut writer).unwrap();
    assert_eq!(writer.to_bytes(), &TIME_SYNC_FRAME[8..]);
    let mut reader = Reader::new();
    assert_eq!(TimeSynchronization::decode(&mut reader, &TIME_SYNC_FRAME[8..]), Ok(request));
    for k in 0..10 {
        let mut reader = Reader::new();
        assert_eq!(
            TimeSynchronization::decode(&mut reader, &TIME_SYNC_FRAME[8..8 + k]),
            Err(Error::Truncated)
        );
        let mut small = Writer::new(vec![0; k]);
        assert_eq!(request.encode(&mut small), Err(Error::Overflow));
        assert_eq!(small.len(), 0);
    }
    let mut reader = Reader::new();
    let swapped = [0xB4, 14, 30, 0, 0, 0xA4, 124, 1, 15, 1];
    assert_eq!(TimeSynchronization::decode(&mut reader, &swapped), Err(Error::InvalidValue));
    let bad = TimeSynchronization::new(Date { year: 1800, month: 1, day: 1, wday: 1 }, sample_time());
    let mut writer = Writer::new(vec![0; 10]);
    assert_eq!(bad.encode(&mut writer), Err(Error::InvalidValue));
}

#[test]
fn unknown_services_are_reported_with_their_code() {
    let mut frame = TIME_SYNC_FRAME.to_vec();
    frame[7] = 8;
    assert_eq!(frame_back(&frame), Err(Error::UnsupportedService(8)));
    let mut frame = READ_REQUEST_FRAME.to_vec();
    frame[9] = 12;
    assert_eq!(frame_back(&frame), Err(Error::UnsupportedService(12)));
    let mut frame = READ_ACK_FRAME.to_vec();
    frame[8] = 12;
    assert_eq!(frame_back(&frame), Err(Error::UnsupportedService(12)));
}

#[test]
fn unmodelled_framing_fails_explicitly() {
    let mut segmented = READ_REQUEST_FRAME.to_vec();
    segmented[6] = 0x08;
    assert_eq!(frame_back(&segmented), Err(Error::Unimplemented));
    let mut segmented = READ_ACK_FRAME.to_vec();
    segmented[6] = 0x38;
    assert_eq!(frame_back(&segmented), Err(Error::Unimplemented));
    let segment_ack = [0x81, 0x0A, 0x00, 0x0A, 0x01, 0x00, 0x40, 0x01, 0x00, 0x01];
    assert_eq!(frame_back(&segment_ack), Err(Error::Unimplemented));
    let network_message = [0x81, 0x0B, 0x00, 0x07, 0x01, 0x80, 0x00];
    assert_eq!(frame_back(&network_message), Err(Error::Unimplemented));
    let forwarded = [0x81, 0x04, 0x00, 0x0C, 1, 2, 3, 4, 0xBA, 0xC0, 0x01, 0x00];
    assert_eq!(frame_back(&forwarded), Err(Error::Unimplemented));
    let long_address = [0x81, 0x0A, 0x00, 0x0C, 0x01, 0x20, 0x00, 0x01, 0x01, 0x05, 0xFF, 0x10];
    assert_eq!(frame_back(&long_address), Err(Error::Unimplemented));
    let with_index = [0x0C, 0x02, 0x01, 0x34, 0xE7, 0x1E, 0x09, 0x4C, 0x19, 0x00, 0x1F];
    let mut reader = Reader::new();
    assert_eq!(ReadPropertyMultiple::decode(&mut reader, &with_index), Err(Error::Unimplemented));
    let list_value = [
        0x0C, 0x02, 0x01, 0x34, 0xE7, 0x1E, 0x29, 0x4C, 0x4E, 0xC4, 0x02, 0x01, 0x34, 0xE7, 0xC4,
        0x00, 0x00, 0x00, 0x01, 0x4F, 0x1F,
    ];
    let mut reader = Reader::new();
    assert_eq!(
        ReadPropertyMultipleAck::decode(&mut reader, &list_value),
        Err(Error::Unimplemented)
    );
    assert_eq!(reader.index, 0);
    let forwarded = DataLink::new(DataLinkFunction::ForwardedNpdu, None);
    let mut writer = Writer::new(vec![0; 16]);
    assert_eq!(forwarded.encode(&mut writer), Err(Error::Unimplemented));
}

#[test]
fn malformed_framing_is_invalid() {
    let mut frame = TIME_SYNC_FRAME.to_vec();
    frame[0] = 0x82;
    assert_eq!(frame_back(&frame), Err(Error::InvalidValue));
    let mut frame = TIME_SYNC_FRAME.to_vec();
    frame[1] = 0x0D;
    assert_eq!(frame_back(&frame), Err(Error::InvalidValue));
    let mut frame = TIME_SYNC_FRAME.to_vec();
    frame[4] = 0x02;
    assert_eq!(frame_back(&frame), Err(Error::InvalidValue));
    let mut frame = TIME_SYNC_FRAME.to_vec();
    frame[5] = 0x40;
    assert_eq!(frame_back(&frame), Err(Error::InvalidValue));
    let mut frame = TIME_SYNC_FRAME.to_vec();
    frame[6] = 0x80;
    assert_eq!(frame_back(&frame), Err(Error::InvalidValue));
    let mut frame = TIME_SYNC_FRAME.to_vec();
    frame[3] = 0x03;
    assert_eq!(frame_back(&frame), Err(Error::InvalidValue));
    let mut frame = READ_REQUEST_FRAME.to_vec();
    frame[7] = 0x0F;
    assert_eq!(frame_back(&frame), Err(Error::InvalidValue));
    let mut frame = READ_ACK_FRAME.to_vec();
    frame[17] = 0x3E;
    assert_eq!(frame_back(&frame), Err(Error::InvalidValue));
    let missing = DataLink::new(DataLinkFunction::OriginalUnicastNpdu, None);
    let mut writer = Writer::new(vec![0; 16]);
    assert_eq!(missing.encode(&mut writer), Err(Error::InvalidValue));
    let surplus = DataLink::new(
        DataLinkFunction::BvlcResult,
        unicast(ApplicationPdu::Reject(Reject { invoke_id: 0, reason: 0 }), false).npdu,
    );
    assert_eq!(surplus.encode(&mut writer), Err(Error::InvalidValue));
    assert_eq!(writer.len(), 0);
}

#[test]
fn frame_longer_than_its_length_field_is_refused() {
    let long = "x".repeat(70_000);
    let ack = ReadPropertyMultipleAck::new(vec![ObjectWithResults {
        object_id: device(),
        property_results: vec![PropertyResult {
            id: PropertyId::PropDescription,
            value: PropertyValue::PropValue(ApplicationDataValue::CharacterString(
                CharacterString { inner: &long },
            )),
        }],
    }]);
    let link = unicast(
        ApplicationPdu::ComplexAck(ComplexAck::new(
            1,
            ComplexAckService::ReadPropertyMultiple(ack),
        )),
        false,
    );
    let mut writer = Writer::new(vec![0; 80_000]);
    writer.push(1).unwrap();
    assert_eq!(link.encode(&mut writer), Err(Error::InvalidValue));
    assert_eq!(writer.to_bytes(), &[1]);
    let mut small = Writer::new(vec![0; 60_000]);
    assert_eq!(link.encode(&mut small), Err(Error::Overflow));
    assert_eq!(small.len(), 0);
}

#[test]
fn values_without_a_wire_form_stop_the_whole_frame() {
    let ack = ReadPropertyMultipleAck::new(vec![ObjectWithResults {
        object_id: device(),
        property_results: vec![
            PropertyResult {
                id: PropertyId::PropPresentValue,
                value: PropertyValue::PropValue(ApplicationDataValue::Double(1)),
            },
            PropertyResult {
                id: PropertyId::PropLocalDate,
                value: PropertyValue::PropValue(ApplicationDataValue::Date(Date {
                    year: 1800,
                    month: 1,
                    day: 1,
                    wday: 1,
                })),
            },
        ],
    }]);
    assert_eq!(ack.check(), Err(Error::Unimplemented));
    let mut writer = Writer::new(vec![0; 4]);
    assert_eq!(ack.encode(&mut writer), Err(Error::Unimplemented));
    let link = unicast(
        ApplicationPdu::ComplexAck(ComplexAck::new(
            1,
            ComplexAckService::ReadPropertyMultiple(ack),
        )),
        false,
    );
    assert_eq!(link.encode(&mut writer), Err(Error::Unimplemented));
    let request = ReadPropertyMultiple::new(vec![ReadPropertyMultipleObject::new(
        ObjectId::new(ObjectType::ObjectDevice, 0x40_0000),
        vec![],
    )]);
    assert!(!request.is_valid());
    assert_eq!(request.encode(&mut writer), Err(Error::InvalidValue));
    assert_eq!(writer.len(), 0);
}

#[test]
fn constructed_values_are_not_modelled() {
    let schedule = [
        0x0C, 0x04, 0x40, 0x00, 0x01, 0x1E, 0x29, 0x7B, 0x4E, 0x0E, 0xB4, 0x08, 0x00, 0x00, 0x00,
        0x91, 0x01, 0x0F, 0x4F, 0x1F,
    ];
    let mut reader = Reader::new();
    assert_eq!(ReadPropertyMultipleAck::decode(&mut reader, &schedule), Err(Error::Unimplemented));
    assert_eq!(reader.index, 0);
}

#[test]
fn network_unit_bytes_are_exact() {
    let unit = NetworkPdu::new(
        Some(SourceAddress { net: 7, address: Some(Addr { ipv4: [10, 0, 0, 9], port: 47808 }) }),
        Some(DestinationAddress { net: 0xFFFF, address: None, hops: 254 }),
        true,
        MessagePriority::Urgent,
        NetworkMessage::Apdu(ApplicationPdu::SimpleAck(SimpleAck {
            invoke_id: 5,
            service_choice: 15,
        })),
    );
    let mut writer = Writer::new(vec![0; 32]);
    unit.encode(&mut writer).unwrap();
    assert_eq!(
        writer.to_bytes(),
        &[
            0x01, 0x2D, 0xFF, 0xFF, 0x00, 0x00, 0x07, 0x06, 10, 0, 0, 9, 0xBA, 0xC0, 0xFE, 0x20,
            5, 15
        ]
    );
    let bytes = writer.to_bytes().to_vec();
    let mut reader = Reader::new();
    assert_eq!(NetworkPdu::decode(&mut reader, &bytes), Ok(unit.clone()));
    assert_eq!(reader.index, bytes.len());
    for capacity in 0..bytes.len() {
        let mut small = Writer::new(vec![0; capacity]);
        assert_eq!(unit.encode(&mut small), Err(Error::Overflow));
        assert_eq!(small.len(), 0);
    }
    for k in 0..bytes.len() {
        let mut reader = Reader::new();
        assert_eq!(NetworkPdu::decode(&mut reader, &bytes[..k]), Err(Error::Truncated));
    }
}

#[test]
fn application_unit_bytes_are_exact() {
    let mut writer = Writer::new(vec![0; 32]);
    ApplicationPdu::Abort(Abort { server: false, invoke_id: 1, reason: 2 })
        .encode(&mut writer)
        .unwrap();
    ApplicationPdu::Error(ErrorPdu {
        invoke_id: 3,
        service_choice: 14,
        error: PropertyAccessError { error_class: 1, error_code: 31 },
    })
    .encode(&mut writer)
    .unwrap();
    assert_eq!(writer.to_bytes(), &[0x70, 1, 2, 0x50, 3, 14, 0x91, 1, 0x91, 31]);
    let mut reader = Reader::new();
    assert_eq!(
        ApplicationPdu::decode(&mut reader, &[0x60, 4, 1]),
        Ok(ApplicationPdu::Reject(Reject { invoke_id: 4, reason: 1 }))
    );
    let mut reader = Reader::new();
    assert_eq!(ApplicationPdu::decode(&mut reader, &[0x21, 4, 1]), Err(Error::InvalidValue));
    assert_eq!(ApplicationPdu::decode(&mut reader, &[0x90, 4, 1]), Err(Error::InvalidValue));
    assert_eq!(ApplicationPdu::decode(&mut reader, &[]), Err(Error::Truncated));
    assert_eq!(reader.index, 0);
}

#[test]
fn link_control_frames_carry_no_network_unit() {
    let result = [0x81, 0x00, 0x00, 0x06, 0x00, 0x30, 0xEE];
    let mut reader = Reader::new();
    let link = DataLink::decode(&mut reader, &result).unwrap();
    assert_eq!(link, DataLink::new(DataLinkFunction::BvlcResult, None));
    assert_eq!(reader.index, 6);
    assert_eq!(frame_bytes(&link), vec![0x81, 0x00, 0x00, 0x04]);
}

#[test]
fn shortened_frames_with_a_matching_length_never_panic() {
    for sample in [&TIME_SYNC_FRAME[..], &READ_REQUEST_FRAME[..], &READ_ACK_FRAME[..]] {
        let mut failures = 0;
        for k in 4..sample.len() {
            let mut cut = sample[..k].to_vec();
            cut[2] = (k / 256) as u8;
            cut[3] = (k % 256) as u8;
            let mut reader = Reader::new();
            if DataLink::decode(&mut reader, &cut).is_err() {
                failures += 1;
                assert_eq!(reader.index, 0);
            }
        }
        assert!(failures >= sample.len() - 4 - 2);
    }
}

#[test]
fn arbitrary_bytes_never_panic() {
    let mut state: u32 = 0x2545_F491;
    for round in 0..4000 {
        let len = (round % 48) as usize;
        let mut bytes = Vec::with_capacity(len + 6);
        bytes.extend_from_slice(&[0x81, 0x0A, 0, (len + 6) as u8, 0x01, 0x00]);
        for _ in 0..len {
            state ^= state << 13;
            state ^= state >> 17;
            state ^= state << 5;
            bytes.push((state >> 11) as u8);
        }
        let mut reader = Reader::new();
        match DataLink::decode(&mut reader, &bytes) {
            Ok(_) => assert_eq!(reader.index, bytes.len()),
            Err(_) => assert_eq!(reader.index, 0),
        }
        let mut reader = Reader::new();
        let _ = ReadPropertyMultipleAck::decode(&mut reader, &bytes[6..]);
        let mut reader = Reader::new();
        let _ = ApplicationPdu::decode(&mut reader, &bytes[6..]);
    }
}
