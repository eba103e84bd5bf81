use vstd::prelude::*;
use crate::application_protocol::services::read_property_multiple::{
    ack_fits, ack_wire, lemma_ack_roundtrip, lemma_request_roundtrip, lemma_request_wire,
    objects_wf, objects_wire, parse_ack, parse_objects, request_wire, ObjectWithResultsModel,
    ReadPropertyMultiple, ReadPropertyMultipleAck, ReadPropertyMultipleObjectModel,
};
use crate::common::error::Error;
use crate::common::io::{
    decoded_as, lemma_appended_is_written, lemma_moved_on, lemma_written_next, written, Reader,
    Writer,
};
use crate::common::list::status;

verus! {

/// How many segments of an answer the sender of a request accepts.
#[derive(Debug, Clone, Copy, PartialEq, Eq, Structural)]
pub enum MaxSegments {
    Unspecified,
    Two,
    Four,
    Eight,
    Sixteen,
    ThirtyTwo,
    SixtyFour,
    MoreThanSixtyFour,
}

impl MaxSegments {
    /// The code on the wire.
    pub open spec fn code(self) -> u8 {
        match self {
            MaxSegments::Unspecified => 0,
            MaxSegments::Two => 1,
            MaxSegments::Four => 2,
            MaxSegments::Eight => 3,
            MaxSegments::Sixteen => 4,
            MaxSegments::ThirtyTwo => 5,
            MaxSegments::SixtyFour => 6,
            MaxSegments::MoreThanSixtyFour => 7,
        }
    }

    /// The value that a code stands for, if it stands for one.
    pub open spec fn of_code(code: u8) -> Option<MaxSegments> {
        if code == 0 {
            Some(MaxSegments::Unspecified)
        } else if code == 1 {
            Some(MaxSegments::Two)
        } else if code == 2 {
            Some(MaxSegments::Four)
        } else if code == 3 {
            Some(MaxSegments::Eight)
        } else if code == 4 {
            Some(MaxSegments::Sixteen)
        } else if code == 5 {
            Some(MaxSegments::ThirtyTwo)
        } else if code == 6 {
            Some(MaxSegments::SixtyFour)
        } else if code == 7 {
            Some(MaxSegments::MoreThanSixtyFour)
        } else {
            None
        }
    }

    /// The code on the wire.
    pub fn to_u8(self) -> (code: u8)
        ensures
            code == self.code(),
            MaxSegments::of_code(code) == Some(self),
    {
        match self {
            MaxSegments::Unspecified => 0,
            MaxSegments::Two => 1,
            MaxSegments::Four => 2,
            MaxSegments::Eight => 3,
            MaxSegments::Sixteen => 4,
            MaxSegments::ThirtyTwo => 5,
            MaxSegments::SixtyFour => 6,
            MaxSegments::MoreThanSixtyFour => 7,
        }
    }

    /// The value that a code stands for, if it stands for one.
    pub fn from_u8(code: u8) -> (value: Option<MaxSegments>)
        ensures
            value == MaxSegments::of_code(code),
            value matches Some(v) ==> v.code() == code,
    {
        match code {
            0 => Some(MaxSegments::Unspecified),
            1 => Some(MaxSegments::Two),
            2 => Some(MaxSegments::Four),
            3 => Some(MaxSegments::Eight),
            4 => Some(MaxSegments::Sixteen),
            5 => Some(MaxSegments::ThirtyTwo),
            6 => Some(MaxSegments::SixtyFour),
            7 => Some(MaxSegments::MoreThanSixtyFour),
            _ => None,
        }
    }
}

/// The longest application unit, in bytes, that the sender of a request accepts.
#[derive(Debug, Clone, Copy, PartialEq, Eq, Structural)]
pub enum MaxAdpu {
    UpTo50,
    UpTo128,
    UpTo206,
    UpTo480,
    UpTo1024,
    UpTo1476,
}

impl MaxAdpu {
    /// The code on the wire.
    pub open spec fn code(self) -> u8 {
        match self {
            MaxAdpu::UpTo50 => 0,
            MaxAdpu::UpTo128 => 1,
            MaxAdpu::UpTo206 => 2,
            MaxAdpu::UpTo480 => 3,
            MaxAdpu::UpTo1024 => 4,
            MaxAdpu::UpTo1476 => 5,
        }
    }

    /// The value that a code stands for, if it stands for one.
    pub open spec fn of_code(code: u8) -> Option<MaxAdpu> {
        if code == 0 {
            Some(MaxAdpu::UpTo50)
        } else if code == 1 {
            Some(MaxAdpu::UpTo128)
        } else if code == 2 {
            Some(MaxAdpu::UpTo206)
        } else if code == 3 {
            Some(MaxAdpu::UpTo480)
        } else if code == 4 {
            Some(MaxAdpu::UpTo1024)
        } else if code == 5 {
            Some(MaxAdpu::UpTo1476)
        } else {
            None
        }
    }

    /// The code on the wire.
    pub fn to_u8(self) -> (code: u8)
        ensures
            code == self.code(),
            MaxAdpu::of_code(code) == Some(self),
    {
        match self {
            MaxAdpu::UpTo50 => 0,
            MaxAdpu::UpTo128 => 1,
            MaxAdpu::UpTo206 => 2,
            MaxAdpu::UpTo480 => 3,
            MaxAdpu::UpTo1024 => 4,
            MaxAdpu::UpTo1476 => 5,
        }
    }

    /// The value that a code stands for, if it stands for one.
    pub fn from_u8(code: u8) -> (value: Option<MaxAdpu>)
        ensures
            value == MaxAdpu::of_code(code),
            value matches Some(v) ==> v.code() == code,
    {
        match code {
            0 => Some(MaxAdpu::UpTo50),
            1 => Some(MaxAdpu::UpTo128),
            2 => Some(MaxAdpu::UpTo206),
            3 => Some(MaxAdpu::UpTo480),
            4 => Some(MaxAdpu::UpTo1024),
            5 => Some(MaxAdpu::UpTo1476),
            _ => None,
        }
    }
}

/// The service choice of a request to read several properties.
pub const READ_PROPERTY_MULTIPLE: u8 = 14;

/// A service that asks for an answer.
#[derive(Debug, Clone, PartialEq, Eq)]
pub enum ConfirmedRequestService {
    ReadPropertyMultiple(ReadPropertyMultiple),
}

/// What a [`ConfirmedRequestService`] holds.
pub enum ConfirmedRequestServiceModel {
    ReadPropertyMultiple(Seq<ReadPropertyMultipleObjectModel>),
}

impl View for ConfirmedRequestService {
    type V = ConfirmedRequestServiceModel;

    open spec fn view(&self) -> ConfirmedRequestServiceModel {
        match self {
            ConfirmedRequestService::ReadPropertyMultiple(x) => ConfirmedRequestServiceModel::ReadPropertyMultiple(
                x@,
            ),
        }
    }
}

/// A request that asks for an answer. Segmented requests are not modelled.
#[derive(Debug, Clone, PartialEq, Eq)]
pub struct ConfirmedRequest {
    pub segmented_response_accepted: bool,
    pub max_segments: MaxSegments,
    pub max_adpu: MaxAdpu,
    /// The number by which the answer is matched to the request.
    pub invoke_id: u8,
    pub service: ConfirmedRequestService,
}

/// What a [`ConfirmedRequest`] holds.
pub struct ConfirmedRequestModel {
    pub segmented_response_accepted: bool,
    pub max_segments: MaxSegments,
    pub max_adpu: MaxAdpu,
    pub invoke_id: u8,
    pub service: ConfirmedRequestServiceModel,
}

impl View for ConfirmedRequest {
    type V = ConfirmedRequestModel;

    open spec fn view(&self) -> ConfirmedRequestModel {
        ConfirmedRequestModel {
            segmented_response_accepted: self.segmented_response_accepted,
            max_segments: self.max_segments,
            max_adpu: self.max_adpu,
            invoke_id: self.invoke_id,
            service: self.service@,
        }
    }
}

impl ConfirmedRequestModel {
    /// The four bytes in front of the service: the kind of unit with the
    /// flag for segmented answers, the two limits, the invoke id and the
    /// service choice.
    pub open spec fn header(self) -> Seq<u8> {
        seq![
            if self.segmented_response_accepted {
                2u8
            } else {
                0u8
            },
            (self.max_segments.code() * 16 + self.max_adpu.code()) as u8,
            self.invoke_id,
            READ_PROPERTY_MULTIPLE,
        ]
    }

    /// The request on the wire; none where the service has none.
    pub open spec fn wire(self) -> Result<Seq<u8>, Error> {
        match self.service {
            ConfirmedRequestServiceModel::ReadPropertyMultiple(objects) => match request_wire(
                objects,
            ) {
                Err(e) => Err(e),
                Ok(body) => Ok(self.header() + body),
            },
        }
    }

    /// The request round-trips: its objects and properties are well formed.
    pub open spec fn canonical(self) -> bool {
        match self.service {
            ConfirmedRequestServiceModel::ReadPropertyMultiple(objects) => objects_wf(objects),
        }
    }

    /// The request that `s` holds from its front to its end.
    pub open spec fn parse(s: Seq<u8>) -> Result<(ConfirmedRequestModel, nat), Error> {
        if s.len() < 4 {
            Err(Error::Truncated)
        } else if s[0] / 16 != 0 {
            Err(Error::InvalidValue)
        } else if (s[0] / 8) % 2 == 1 {
            Err(Error::Unimplemented)
        } else if (s[0] / 4) % 2 == 1 || s[0] % 2 == 1 || s[1] >= 128 {
            Err(Error::InvalidValue)
        } else {
            match MaxAdpu::of_code(s[1] % 16) {
                None => Err(Error::InvalidValue),
                Some(max_adpu) => if s[3] != READ_PROPERTY_MULTIPLE {
                    Err(Error::UnsupportedService(s[3]))
                } else {
                    match parse_objects(s.skip(4)) {
                        Err(e) => Err(e),
                        Ok((objects, n)) => Ok(
                            (
                                ConfirmedRequestModel {
                                    segmented_response_accepted: (s[0] / 2) % 2 == 1,
                                    max_segments: MaxSegments::of_code(s[1] / 16).unwrap(),
                                    max_adpu,
                                    invoke_id: s[2],
                                    service: ConfirmedRequestServiceModel::ReadPropertyMultiple(
                                        objects,
                                    ),
                                },
                                4 + n,
                            ),
                        ),
                    }
                },
            }
        }
    }
}

impl ConfirmedRequest {
    /// A request that accepts no segmented answer and units of up to 1476
    /// bytes.
    pub fn new(invoke_id: u8, service: ConfirmedRequestService) -> (request: ConfirmedRequest)
        ensures
            request.invoke_id == invoke_id,
            request.service == service,
            !request.segmented_response_accepted,
            request.max_segments == MaxSegments::Unspecified,
            request.max_adpu == MaxAdpu::UpTo1476,
    {
        ConfirmedRequest {
            segmented_response_accepted: false,
            max_segments: MaxSegments::Unspecified,
            max_adpu: MaxAdpu::UpTo1476,
            invoke_id,
            service,
        }
    }

    /// Whether the request has a wire form, and if not, why not.
    pub fn check(&self) -> (r: Result<(), Error>)
        ensures
            r == status(self@.wire()),
    {
        match &self.service {
            ConfirmedRequestService::ReadPropertyMultiple(x) => if x.is_valid() {
                Ok(())
            } else {
                Err(Error::InvalidValue)
            },
        }
    }

    /// Writes the request as one step of a longer write.
    pub(crate) fn write(&self, writer: &mut Writer) -> (r: Result<(), Error>)
        requires
            old(writer).wf(),
            self@.wire().is_ok(),
        ensures
            written(*old(writer), *final(writer), r, self@.wire().unwrap()),
    {
        let ghost w0 = *writer;
        let flags: u8 = if self.segmented_response_accepted {
            2
        } else {
            0
        };
        let header: [u8; 4] = [
            flags,
            self.max_segments.to_u8() * 16 + self.max_adpu.to_u8(),
            self.invoke_id,
            READ_PROPERTY_MULTIPLE,
        ];
        let r = writer.extend_from_slice(header.as_slice());
        proof {
            assert(header@ =~= self@.header());
            lemma_appended_is_written(w0, *writer, r, self@.header());
        }
        match &self.service {
            ConfirmedRequestService::ReadPropertyMultiple(x) => {
                if r.is_err() {
                    proof {
                        crate::common::io::lemma_written_first_failed(
                            w0,
                            *writer,
                            self@.header(),
                            objects_wire(x@),
                        );
                    }
                    return r;
                }
                let ghost w1 = *writer;
                let r = x.write(writer);
                proof {
                    lemma_written_next(
                        w0,
                        w1,
                        *writer,
                        r,
                        self@.header(),
                        objects_wire(x@),
                        Seq::empty(),
                    );
                }
                r
            },
        }
    }

    /// Reads a request that runs to the end of the input.
    pub fn decode(reader: &mut Reader, buf: &[u8]) -> (r: Result<ConfirmedRequest, Error>)
        ensures
            decoded_as(
                *old(reader),
                *final(reader),
                buf@,
                r,
                ConfirmedRequestModel::parse(old(reader).remaining(buf@)),
            ),
    {
        let mut at = *reader;
        let header = match at.read_slice(4, buf) {
            Ok(x) => x,
            Err(e) => {
                return Err(e);
            },
        };
        if header[0] / 16 != 0 {
            return Err(Error::InvalidValue);
        }
        if (header[0] / 8) % 2 == 1 {
            return Err(Error::Unimplemented);
        }
        if (header[0] / 4) % 2 == 1 || header[0] % 2 == 1 || header[1] >= 128 {
            return Err(Error::InvalidValue);
        }
        let max_adpu = match MaxAdpu::from_u8(header[1] % 16) {
            Some(x) => x,
            None => {
                return Err(Error::InvalidValue);
            },
        };
        let max_segments = match MaxSegments::from_u8(header[1] / 16) {
            Some(x) => x,
            None => {
                return Err(Error::InvalidValue);
            },
        };
        if header[3] != READ_PROPERTY_MULTIPLE {
            return Err(Error::UnsupportedService(header[3]));
        }
        let ghost r1 = at;
        let service = match ReadPropertyMultiple::decode(&mut at, buf) {
            Ok(x) => x,
            Err(e) => {
                return Err(e);
            },
        };
        proof {
            lemma_moved_on(*old(reader), r1, at, buf@);
        }
        *reader = at;
        Ok(
            ConfirmedRequest {
                segmented_response_accepted: (header[0] / 2) % 2 == 1,
                max_segments,
                max_adpu,
                invoke_id: header[2],
                service: ConfirmedRequestService::ReadPropertyMultiple(service),
            },
        )
    }
}

/// Decoding an encoded request gives the request back and uses all of its
/// bytes.
pub proof fn lemma_confirmed_request_roundtrip(request: ConfirmedRequestModel)
    requires
        request.canonical(),
    ensures
        request.wire().is_ok(),
        ConfirmedRequestModel::parse(request.wire().unwrap()) == Ok::<
            (ConfirmedRequestModel, nat),
            Error,
        >((request, request.wire().unwrap().len())),
{
    match request.service {
        ConfirmedRequestServiceModel::ReadPropertyMultiple(objects) => {
            lemma_request_wire(objects);
            lemma_request_roundtrip(objects);
            let s = request.wire().unwrap();
            assert(s.skip(4) =~= objects_wire(objects));
            assert(MaxSegments::of_code(request.max_segments.code()) == Some(request.max_segments));
            assert(MaxAdpu::of_code(request.max_adpu.code()) == Some(request.max_adpu));
        },
    }
}

/// An answer that carries data.
#[derive(Debug, Clone, PartialEq, Eq)]
pub enum ComplexAckService<'a> {
    ReadPropertyMultiple(ReadPropertyMultipleAck<'a>),
}

/// What a [`ComplexAckService`] holds.
pub enum ComplexAckServiceModel {
    ReadPropertyMultiple(Seq<ObjectWithResultsModel>),
}

impl<'a> View for ComplexAckService<'a> {
    type V = ComplexAckServiceModel;

    open spec fn view(&self) -> ComplexAckServiceModel {
        match self {
            ComplexAckService::ReadPropertyMultiple(x) => ComplexAckServiceModel::ReadPropertyMultiple(
                x@,
            ),
        }
    }
}

/// The answer to a request, with data. Segmented answers are not modelled.
#[derive(Debug, Clone, PartialEq, Eq)]
pub struct ComplexAck<'a> {
    pub invoke_id: u8,
    pub service: ComplexAckService<'a>,
}

/// What a [`ComplexAck`] holds.
pub struct ComplexAckModel {
    pub invoke_id: u8,
    pub service: ComplexAckServiceModel,
}

impl<'a> View for ComplexAck<'a> {
    type V = ComplexAckModel;

    open spec fn view(&self) -> ComplexAckModel {
        ComplexAckModel { invoke_id: self.invoke_id, service: self.service@ }
    }
}

impl ComplexAckModel {
    /// The three bytes in front of the service: the kind of unit, the invoke
    /// id and the service choice.
    pub open spec fn header(self) -> Seq<u8> {
        seq![0x30u8, self.invoke_id, READ_PROPERTY_MULTIPLE]
    }

    /// The answer on the wire; none where the service has none.
    pub open spec fn wire(self) -> Result<Seq<u8>, Error> {
        match self.service {
            ComplexAckServiceModel::ReadPropertyMultiple(objects) => match ack_wire(objects) {
                Err(e) => Err(e),
                Ok(body) => Ok(self.header() + body),
            },
        }
    }

    /// The answer round-trips: it has a wire form and its values are of the
    /// readings that their properties ask for.
    pub open spec fn canonical(self) -> bool {
        match self.service {
            ComplexAckServiceModel::ReadPropertyMultiple(objects) => ack_wire(objects).is_ok()
                && ack_fits(objects),
        }
    }

    /// The answer that `s` holds from its front to its end.
    pub open spec fn parse(s: Seq<u8>) -> Result<(ComplexAckModel, nat), Error> {
        if s.len() < 3 {
            Err(Error::Truncated)
        } else if s[0] / 16 != 3 {
            Err(Error::InvalidValue)
        } else if (s[0] / 8) % 2 == 1 {
            Err(Error::Unimplemented)
        } else if s[0] % 8 != 0 {
            Err(Error::InvalidValue)
        } else if s[2] != READ_PROPERTY_MULTIPLE {
            Err(Error::UnsupportedService(s[2]))
        } else {
            match parse_ack(s.skip(3)) {
                Err(e) => Err(e),
                Ok((objects, n)) => Ok(
                    (
                        ComplexAckModel {
                            invoke_id: s[1],
                            service: ComplexAckServiceModel::ReadPropertyMultiple(objects),
                        },
                        3 + n,
                    ),
                ),
            }
        }
    }
}

impl<'a> ComplexAck<'a> {
    /// Puts the parts together.
    pub fn new(invoke_id: u8, service: ComplexAckService<'a>) -> (ack: ComplexAck<'a>)
        ensures
            ack.invoke_id == invoke_id,
            ack.service == service,
    {
        ComplexAck { invoke_id, service }
    }

    /// Whether the answer has a wire form, and if not, why not.
    pub fn check(&self) -> (r: Result<(), Error>)
        ensures
            r == status(self@.wire()),
    {
        match &self.service {
            ComplexAckService::ReadPropertyMultiple(x) => x.check(),
        }
    }

    /// Writes the answer as one step of a longer write.
    pub(crate) fn write(&self, writer: &mut Writer) -> (r: Result<(), Error>)
        requires
            old(writer).wf(),
            self@.wire().is_ok(),
        ensures
            written(*old(writer), *final(writer), r, self@.wire().unwrap()),
    {
        let ghost w0 = *writer;
        let header: [u8; 3] = [0x30, self.invoke_id, READ_PROPERTY_MULTIPLE];
        let r = writer.extend_from_slice(header.as_slice());
        proof {
            assert(header@ =~= self@.header());
            lemma_appended_is_written(w0, *writer, r, self@.header());
        }
        match &self.service {
            ComplexAckService::ReadPropertyMultiple(x) => {
                if r.is_err() {
                    proof {
                        crate::common::io::lemma_written_first_failed(
                            w0,
                            *writer,
                            self@.header(),
                            ack_wire(x@).unwrap(),
                        );
                    }
                    return r;
                }
                let ghost w1 = *writer;
                let r = x.write(writer);
                proof {
                    lemma_written_next(
                        w0,
                        w1,
                        *writer,
                        r,
                        self@.header(),
                        ack_wire(x@).unwrap(),
                        Seq::empty(),
                    );
                }
                r
            },
        }
    }

    /// Reads an answer that runs to the end of the input.
    pub fn decode(reader: &mut Reader, buf: &'a [u8]) -> (r: Result<ComplexAck<'a>, Error>)
        ensures
            decoded_as(
                *old(reader),
                *final(reader),
                buf@,
                r,
                ComplexAckModel::parse(old(reader).remaining(buf@)),
            ),
    {
        let mut at = *reader;
        let header = match at.read_slice(3, buf) {
            Ok(x) => x,
            Err(e) => {
                return Err(e);
            },
        };
        if header[0] / 16 != 3 {
            return Err(Error::InvalidValue);
        }
        if (header[0] / 8) % 2 == 1 {
            return Err(Error::Unimplemented);
        }
        if header[0] % 8 != 0 {
            return Err(Error::InvalidValue);
        }
        if header[2] != READ_PROPERTY_MULTIPLE {
            return Err(Error::UnsupportedService(header[2]));
        }
        let ghost r1 = at;
        let service = match ReadPropertyMultipleAck::decode(&mut at, buf) {
            Ok(x) => x,
            Err(e) => {
                return Err(e);
            },
        };
        proof {
            lemma_moved_on(*old(reader), r1, at, buf@);
        }
        *reader = at;
        Ok(
            ComplexAck {
                invoke_id: header[1],
                service: ComplexAckService::ReadPropertyMultiple(service),
            },
        )
    }
}

/// Decoding an encoded answer gives the answer back and uses all of its
/// bytes.
pub proof fn lemma_complex_ack_roundtrip(ack: ComplexAckModel)
    requires
        ack.canonical(),
    ensures
        ack.wire().is_ok(),
        ComplexAckModel::parse(ack.wire().unwrap()) == Ok::<(ComplexAckModel, nat), Error>(
            (ack, ack.wire().unwrap().len()),
        ),
{
    match ack.service {
        ComplexAckServiceModel::ReadPropertyMultiple(objects) => {
            lemma_ack_roundtrip(objects);
            let s = ack.wire().unwrap();
            assert(s.skip(3) =~= ack_wire(objects).unwrap());
        },
    }
}

} // verus!
