use vstd::prelude::*;
use crate::application_protocol::confirmed::{
    lemma_complex_ack_roundtrip, lemma_confirmed_request_roundtrip, ComplexAck, ComplexAckModel,
    ConfirmedRequest, ConfirmedRequestModel,
};
use crate::application_protocol::services::read_property_multiple::{
    access_error_wire, decode_error_pair, lemma_error_pair_roundtrip, parse_error_pair,
    write_error_pair, PropertyAccessError,
};
use crate::application_protocol::unconfirmed::{
    lemma_unconfirmed_request_roundtrip, UnconfirmedRequest,
};
use crate::common::error::Error;
use crate::common::io::{
    appended, decoded, decoded_as, encoded, lemma_appended_is_written, lemma_moved_on,
    lemma_written_first_failed, lemma_written_next, written, Reader, Writer,
};
use crate::common::list::status;

verus! {

/// The answer to a request that went through, without data.
#[derive(Debug, Clone, Copy, PartialEq, Eq, Structural)]
pub struct SimpleAck {
    pub invoke_id: u8,
    pub service_choice: u8,
}

/// The answer to a request that failed, with the reason.
#[derive(Debug, Clone, Copy, PartialEq, Eq, Structural)]
pub struct ErrorPdu {
    pub invoke_id: u8,
    pub service_choice: u8,
    pub error: PropertyAccessError,
}

/// The answer to a request that was not understood.
#[derive(Debug, Clone, Copy, PartialEq, Eq, Structural)]
pub struct Reject {
    pub invoke_id: u8,
    pub reason: u8,
}

/// The end of a transaction that cannot go on.
#[derive(Debug, Clone, Copy, PartialEq, Eq, Structural)]
pub struct Abort {
    /// Whether the server sent it.
    pub server: bool,
    pub invoke_id: u8,
    pub reason: u8,
}

impl SimpleAck {
    /// The answer on the wire: the kind of unit, the invoke id and the
    /// service choice.
    pub open spec fn wire(self) -> Seq<u8> {
        seq![0x20u8, self.invoke_id, self.service_choice]
    }

    /// The answer at the front of `s`.
    pub open spec fn parse(s: Seq<u8>) -> Result<(SimpleAck, nat), Error> {
        if s.len() < 3 {
            Err(Error::Truncated)
        } else if s[0] != 0x20 {
            Err(Error::InvalidValue)
        } else {
            Ok((SimpleAck { invoke_id: s[1], service_choice: s[2] }, 3nat))
        }
    }
}

impl Reject {
    /// The answer on the wire: the kind of unit, the invoke id and the reason.
    pub open spec fn wire(self) -> Seq<u8> {
        seq![0x60u8, self.invoke_id, self.reason]
    }

    /// The answer at the front of `s`.
    pub open spec fn parse(s: Seq<u8>) -> Result<(Reject, nat), Error> {
        if s.len() < 3 {
            Err(Error::Truncated)
        } else if s[0] != 0x60 {
            Err(Error::InvalidValue)
        } else {
            Ok((Reject { invoke_id: s[1], reason: s[2] }, 3nat))
        }
    }
}

impl Abort {
    /// The unit on the wire: its kind with the flag of the server, the invoke
    /// id and the reason.
    pub open spec fn wire(self) -> Seq<u8> {
        seq![
            if self.server {
                0x71u8
            } else {
                0x70u8
            },
            self.invoke_id,
            self.reason,
        ]
    }

    /// The unit at the front of `s`.
    pub open spec fn parse(s: Seq<u8>) -> Result<(Abort, nat), Error> {
        if s.len() < 3 {
            Err(Error::Truncated)
        } else if s[0] != 0x70 && s[0] != 0x71 {
            Err(Error::InvalidValue)
        } else {
            Ok((Abort { server: s[0] == 0x71, invoke_id: s[1], reason: s[2] }, 3nat))
        }
    }
}

impl ErrorPdu {
    /// The three bytes in front of the error: the kind of unit, the invoke id
    /// and the service choice.
    pub open spec fn header(self) -> Seq<u8> {
        seq![0x50u8, self.invoke_id, self.service_choice]
    }

    /// The answer on the wire: the header, then the class and the code of the
    /// error.
    pub open spec fn wire(self) -> Seq<u8> {
        self.header() + access_error_wire(self.error)
    }

    /// The answer at the front of `s`.
    pub open spec fn parse(s: Seq<u8>) -> Result<(ErrorPdu, nat), Error> {
        if s.len() < 3 {
            Err(Error::Truncated)
        } else if s[0] != 0x50 {
            Err(Error::InvalidValue)
        } else {
            match parse_error_pair(s.skip(3)) {
                Err(e) => Err(e),
                Ok((error, n)) => Ok(
                    (ErrorPdu { invoke_id: s[1], service_choice: s[2], error }, 3 + n),
                ),
            }
        }
    }

    /// Writes the answer as one step of a longer write.
    pub(crate) fn write(&self, writer: &mut Writer) -> (r: Result<(), Error>)
        requires
            old(writer).wf(),
        ensures
            written(*old(writer), *final(writer), r, self.wire()),
    {
        let ghost w0 = *writer;
        let header: [u8; 3] = [0x50, self.invoke_id, self.service_choice];
        let r = writer.extend_from_slice(header.as_slice());
        proof {
            assert(header@ =~= self.header());
            lemma_appended_is_written(w0, *writer, r, self.header());
        }
        if r.is_err() {
            proof {
                lemma_written_first_failed(w0, *writer, self.header(), access_error_wire(self.error));
            }
            return r;
        }
        let ghost w1 = *writer;
        let r = write_error_pair(&self.error, writer);
        proof {
            lemma_written_next(
                w0,
                w1,
                *writer,
                r,
                self.header(),
                access_error_wire(self.error),
                Seq::empty(),
            );
        }
        r
    }

    /// Reads the answer.
    pub fn decode(reader: &mut Reader, buf: &[u8]) -> (r: Result<ErrorPdu, Error>)
        ensures
            decoded(*old(reader), *final(reader), buf@, r, ErrorPdu::parse(old(reader).remaining(buf@))),
    {
        let mut at = *reader;
        let header = match at.read_slice(3, buf) {
            Ok(x) => x,
            Err(e) => {
                return Err(e);
            },
        };
        if header[0] != 0x50 {
            return Err(Error::InvalidValue);
        }
        let ghost r1 = at;
        let error = match decode_error_pair(&mut at, buf) {
            Ok(x) => x,
            Err(e) => {
                return Err(e);
            },
        };
        proof {
            lemma_moved_on(*old(reader), r1, at, buf@);
        }
        *reader = at;
        Ok(ErrorPdu { invoke_id: header[1], service_choice: header[2], error })
    }
}

/// A unit of the application layer: a request, or one of the answers to one.
#[derive(Debug, Clone, PartialEq, Eq)]
pub enum ApplicationPdu<'a> {
    ConfirmedRequest(ConfirmedRequest),
    UnconfirmedRequest(UnconfirmedRequest),
    SimpleAck(SimpleAck),
    ComplexAck(ComplexAck<'a>),
    Error(ErrorPdu),
    Reject(Reject),
    Abort(Abort),
}

/// What an [`ApplicationPdu`] holds.
pub enum ApplicationPduModel {
    ConfirmedRequest(ConfirmedRequestModel),
    UnconfirmedRequest(UnconfirmedRequest),
    SimpleAck(SimpleAck),
    ComplexAck(ComplexAckModel),
    Error(ErrorPdu),
    Reject(Reject),
    Abort(Abort),
}

impl<'a> View for ApplicationPdu<'a> {
    type V = ApplicationPduModel;

    open spec fn view(&self) -> ApplicationPduModel {
        match self {
            ApplicationPdu::ConfirmedRequest(x) => ApplicationPduModel::ConfirmedRequest(x@),
            ApplicationPdu::UnconfirmedRequest(x) => ApplicationPduModel::UnconfirmedRequest(*x),
            ApplicationPdu::SimpleAck(x) => ApplicationPduModel::SimpleAck(*x),
            ApplicationPdu::ComplexAck(x) => ApplicationPduModel::ComplexAck(x@),
            ApplicationPdu::Error(x) => ApplicationPduModel::Error(*x),
            ApplicationPdu::Reject(x) => ApplicationPduModel::Reject(*x),
            ApplicationPdu::Abort(x) => ApplicationPduModel::Abort(*x),
        }
    }
}

/// One parse result carried over to a unit.
pub open spec fn as_unit<A>(
    r: Result<(A, nat), Error>,
    f: spec_fn(A) -> ApplicationPduModel,
) -> Result<(ApplicationPduModel, nat), Error> {
    match r {
        Ok((value, used)) => Ok((f(value), used)),
        Err(e) => Err(e),
    }
}

impl ApplicationPduModel {
    /// The unit on the wire; none where what it carries has none.
    pub open spec fn wire(self) -> Result<Seq<u8>, Error> {
        match self {
            ApplicationPduModel::ConfirmedRequest(x) => x.wire(),
            ApplicationPduModel::UnconfirmedRequest(x) => x.wire(),
            ApplicationPduModel::SimpleAck(x) => Ok(x.wire()),
            ApplicationPduModel::ComplexAck(x) => x.wire(),
            ApplicationPduModel::Error(x) => Ok(x.wire()),
            ApplicationPduModel::Reject(x) => Ok(x.wire()),
            ApplicationPduModel::Abort(x) => Ok(x.wire()),
        }
    }

    /// The unit round-trips: it has a wire form and what it carries is well
    /// formed and of the readings that its places ask for.
    pub open spec fn canonical(self) -> bool {
        match self {
            ApplicationPduModel::ConfirmedRequest(x) => x.canonical(),
            ApplicationPduModel::UnconfirmedRequest(x) => x.wire().is_ok(),
            ApplicationPduModel::ComplexAck(x) => x.canonical(),
            _ => true,
        }
    }

    /// The unit at the front of `s`, told by the high four bits of its first
    /// byte. Requests and answers with data run to the end of `s`.
    #[verifier::opaque]
    pub open spec fn parse(s: Seq<u8>) -> Result<(ApplicationPduModel, nat), Error> {
        if s.len() < 1 {
            Err(Error::Truncated)
        } else if s[0] / 16 == 0 {
            as_unit(
                ConfirmedRequestModel::parse(s),
                |x: ConfirmedRequestModel| ApplicationPduModel::ConfirmedRequest(x),
            )
        } else if s[0] / 16 == 1 {
            as_unit(
                UnconfirmedRequest::parse(s),
                |x: UnconfirmedRequest| ApplicationPduModel::UnconfirmedRequest(x),
            )
        } else if s[0] / 16 == 2 {
            as_unit(SimpleAck::parse(s), |x: SimpleAck| ApplicationPduModel::SimpleAck(x))
        } else if s[0] / 16 == 3 {
            as_unit(
                ComplexAckModel::parse(s),
                |x: ComplexAckModel| ApplicationPduModel::ComplexAck(x),
            )
        } else if s[0] / 16 == 4 {
            Err(Error::Unimplemented)
        } else if s[0] / 16 == 5 {
            as_unit(ErrorPdu::parse(s), |x: ErrorPdu| ApplicationPduModel::Error(x))
        } else if s[0] / 16 == 6 {
            as_unit(Reject::parse(s), |x: Reject| ApplicationPduModel::Reject(x))
        } else if s[0] / 16 == 7 {
            as_unit(Abort::parse(s), |x: Abort| ApplicationPduModel::Abort(x))
        } else {
            Err(Error::InvalidValue)
        }
    }
}

/// Writes three bytes, or nothing where they do not fit.
fn write_three(bytes: [u8; 3], writer: &mut Writer) -> (r: Result<(), Error>)
    requires
        old(writer).wf(),
    ensures
        appended(*old(writer), *final(writer), r, bytes@),
{
    writer.extend_from_slice(bytes.as_slice())
}

/// Reads three bytes.
fn read_three(reader: &mut Reader, buf: &[u8]) -> (r: Result<(u8, u8, u8), Error>)
    ensures
        match r {
            Ok(bytes) => old(reader).remaining(buf@).len() >= 3 && bytes.0 == old(reader).remaining(
                buf@,
            )[0] && bytes.1 == old(reader).remaining(buf@)[1] && bytes.2 == old(reader).remaining(
                buf@,
            )[2] && crate::common::io::moved(*old(reader), *final(reader), buf@, 3),
            Err(e) => e == Error::Truncated && old(reader).remaining(buf@).len() < 3
                && *final(reader) == *old(reader),
        },
{
    match reader.read_slice(3, buf) {
        Ok(bytes) => Ok((bytes[0], bytes[1], bytes[2])),
        Err(e) => Err(e),
    }
}

impl<'a> ApplicationPdu<'a> {
    /// Whether the unit has a wire form, and if not, why not.
    pub fn check(&self) -> (r: Result<(), Error>)
        ensures
            r == status(self@.wire()),
    {
        match self {
            ApplicationPdu::ConfirmedRequest(x) => x.check(),
            ApplicationPdu::UnconfirmedRequest(x) => x.check(),
            ApplicationPdu::ComplexAck(x) => x.check(),
            _ => Ok(()),
        }
    }

    /// Writes the unit as one step of a longer write.
    pub(crate) fn write(&self, writer: &mut Writer) -> (r: Result<(), Error>)
        requires
            old(writer).wf(),
            self@.wire().is_ok(),
        ensures
            written(*old(writer), *final(writer), r, self@.wire().unwrap()),
    {
        let ghost w0 = *writer;
        match self {
            ApplicationPdu::ConfirmedRequest(x) => x.write(writer),
            ApplicationPdu::UnconfirmedRequest(x) => x.write(writer),
            ApplicationPdu::ComplexAck(x) => x.write(writer),
            ApplicationPdu::Error(x) => x.write(writer),
            ApplicationPdu::SimpleAck(x) => {
                let r = write_three([0x20, x.invoke_id, x.service_choice], writer);
                proof {
                    assert([0x20u8, x.invoke_id, x.service_choice]@ =~= x.wire());
                    lemma_appended_is_written(w0, *writer, r, x.wire());
                }
                r
            },
            ApplicationPdu::Reject(x) => {
                let r = write_three([0x60, x.invoke_id, x.reason], writer);
                proof {
                    assert([0x60u8, x.invoke_id, x.reason]@ =~= x.wire());
                    lemma_appended_is_written(w0, *writer, r, x.wire());
                }
                r
            },
            ApplicationPdu::Abort(x) => {
                let first: u8 = if x.server {
                    0x71
                } else {
                    0x70
                };
                let r = write_three([first, x.invoke_id, x.reason], writer);
                proof {
                    assert([first, x.invoke_id, x.reason]@ =~= x.wire());
                    lemma_appended_is_written(w0, *writer, r, x.wire());
                }
                r
            },
        }
    }

    /// Writes the unit, or nothing where it does not fit or has no wire form.
    pub fn encode(&self, writer: &mut Writer) -> (r: Result<(), Error>)
        requires
            old(writer).wf(),
        ensures
            encoded(*old(writer), *final(writer), r, self@.wire()),
    {
        match self.check() {
            Ok(()) => {},
            Err(e) => {
                return Err(e);
            },
        }
        let start = writer.len();
        let r = self.write(writer);
        proof {
            assert(old(writer)@.take(start as int) =~= old(writer)@);
        }
        writer.settle(start, r)
    }

    /// Reads a unit. Requests and answers with data run to the end of the
    /// input.
    pub fn decode(reader: &mut Reader, buf: &'a [u8]) -> (r: Result<ApplicationPdu<'a>, Error>)
        ensures
            decoded_as(
                *old(reader),
                *final(reader),
                buf@,
                r,
                ApplicationPduModel::parse(old(reader).remaining(buf@)),
            ),
    {
        proof {
            reveal(ApplicationPduModel::parse);
        }
        if reader.available(buf) < 1 {
            return Err(Error::Truncated);
        }
        let first = buf[reader.index];
        assert(first == reader.remaining(buf@)[0]);
        let kind = first / 16;
        if kind == 0 {
            match ConfirmedRequest::decode(reader, buf) {
                Ok(x) => Ok(ApplicationPdu::ConfirmedRequest(x)),
                Err(e) => Err(e),
            }
        } else if kind == 1 {
            match UnconfirmedRequest::decode(reader, buf) {
                Ok(x) => Ok(ApplicationPdu::UnconfirmedRequest(x)),
                Err(e) => Err(e),
            }
        } else if kind == 2 {
            let start = *reader;
            match read_three(reader, buf) {
                Ok((tag, invoke_id, service_choice)) => if tag != 0x20 {
                    *reader = start;
                    Err(Error::InvalidValue)
                } else {
                    Ok(ApplicationPdu::SimpleAck(SimpleAck { invoke_id, service_choice }))
                },
                Err(e) => Err(e),
            }
        } else if kind == 3 {
            match ComplexAck::decode(reader, buf) {
                Ok(x) => Ok(ApplicationPdu::ComplexAck(x)),
                Err(e) => Err(e),
            }
        } else if kind == 4 {
            Err(Error::Unimplemented)
        } else if kind == 5 {
            match ErrorPdu::decode(reader, buf) {
                Ok(x) => Ok(ApplicationPdu::Error(x)),
                Err(e) => Err(e),
            }
        } else if kind == 6 {
            let start = *reader;
            match read_three(reader, buf) {
                Ok((tag, invoke_id, reason)) => if tag != 0x60 {
                    *reader = start;
                    Err(Error::InvalidValue)
                } else {
                    Ok(ApplicationPdu::Reject(Reject { invoke_id, reason }))
                },
                Err(e) => Err(e),
            }
        } else if kind == 7 {
            let start = *reader;
            match read_three(reader, buf) {
                Ok((tag, invoke_id, reason)) => if tag != 0x70 && tag != 0x71 {
                    *reader = start;
                    Err(Error::InvalidValue)
                } else {
                    Ok(ApplicationPdu::Abort(Abort { server: tag == 0x71, invoke_id, reason }))
                },
                Err(e) => Err(e),
            }
        } else {
            Err(Error::InvalidValue)
        }
    }
}

proof fn lemma_confirmed_unit_roundtrip(x: ConfirmedRequestModel)
    requires
        x.canonical(),
    ensures
        x.wire().is_ok(),
        ApplicationPduModel::parse(x.wire().unwrap()) == Ok::<(ApplicationPduModel, nat), Error>(
            (ApplicationPduModel::ConfirmedRequest(x), x.wire().unwrap().len()),
        ),
{
    reveal(ApplicationPduModel::parse);
    lemma_confirmed_request_roundtrip(x);
    let s = x.wire().unwrap();
    assert(s[0] == x.header()[0]);
    assert(s[0] / 16 == 0);
}

proof fn lemma_unconfirmed_unit_roundtrip(x: UnconfirmedRequest)
    requires
        x.wire().is_ok(),
    ensures
        ApplicationPduModel::parse(x.wire().unwrap()) == Ok::<(ApplicationPduModel, nat), Error>(
            (ApplicationPduModel::UnconfirmedRequest(x), x.wire().unwrap().len()),
        ),
{
    reveal(ApplicationPduModel::parse);
    lemma_unconfirmed_request_roundtrip(x, Seq::empty());
    let s = x.wire().unwrap();
    assert(s + Seq::<u8>::empty() =~= s);
    assert(s[0] == x.header()[0]);
    assert(s[0] / 16 == 1);
}

proof fn lemma_complex_ack_unit_roundtrip(x: ComplexAckModel)
    requires
        x.canonical(),
    ensures
        x.wire().is_ok(),
        ApplicationPduModel::parse(x.wire().unwrap()) == Ok::<(ApplicationPduModel, nat), Error>(
            (ApplicationPduModel::ComplexAck(x), x.wire().unwrap().len()),
        ),
{
    reveal(ApplicationPduModel::parse);
    lemma_complex_ack_roundtrip(x);
    let s = x.wire().unwrap();
    assert(s[0] == x.header()[0]);
    assert(s[0] / 16 == 3);
}

proof fn lemma_error_unit_roundtrip(x: ErrorPdu)
    ensures
        ApplicationPduModel::parse(x.wire()) == Ok::<(ApplicationPduModel, nat), Error>(
            (ApplicationPduModel::Error(x), x.wire().len()),
        ),
{
    reveal(ApplicationPduModel::parse);
    lemma_error_pair_roundtrip(x.error, Seq::empty());
    let s = x.wire();
    assert(s.skip(3) =~= access_error_wire(x.error) + Seq::<u8>::empty());
    assert(s[0] == x.header()[0]);
    assert(s[0] / 16 == 5);
}

proof fn lemma_short_unit_roundtrip(unit: ApplicationPduModel)
    requires
        unit is SimpleAck || unit is Reject || unit is Abort,
    ensures
        ApplicationPduModel::parse(unit.wire().unwrap()) == Ok::<(ApplicationPduModel, nat), Error>(
            (unit, unit.wire().unwrap().len()),
        ),
{
    reveal(ApplicationPduModel::parse);
}

/// Decoding an encoded unit gives the unit back and uses all of its bytes.
/// This holds of every unit that has a wire form and carries values of the
/// readings that their places ask for.
pub proof fn lemma_application_pdu_roundtrip(unit: ApplicationPduModel)
    requires
        unit.canonical(),
    ensures
        unit.wire().is_ok(),
        ApplicationPduModel::parse(unit.wire().unwrap()) == Ok::<(ApplicationPduModel, nat), Error>(
            (unit, unit.wire().unwrap().len()),
        ),
{
    match unit {
        ApplicationPduModel::ConfirmedRequest(x) => {
            lemma_confirmed_unit_roundtrip(x);
        },
        ApplicationPduModel::UnconfirmedRequest(x) => {
            lemma_unconfirmed_unit_roundtrip(x);
        },
        ApplicationPduModel::ComplexAck(x) => {
            lemma_complex_ack_unit_roundtrip(x);
        },
        ApplicationPduModel::Error(x) => {
            lemma_error_unit_roundtrip(x);
        },
        _ => {
            lemma_short_unit_roundtrip(unit);
        },
    }
}

} // verus!
