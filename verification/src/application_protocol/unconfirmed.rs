use vstd::prelude::*;
use crate::application_protocol::services::time_synchronization::{
    lemma_time_synchronization_roundtrip, TimeSynchronization,
};
use crate::common::error::Error;
use crate::common::io::{
    decoded, lemma_appended_is_written, lemma_moved_on, lemma_written_first_failed,
    lemma_written_next, written, Reader, Writer,
};
use crate::common::list::status;

verus! {

/// The service choice of a request to set the clock.
pub const TIME_SYNCHRONIZATION: u8 = 6;

/// A request that nobody answers.
#[derive(Debug, Clone, Copy, PartialEq, Eq, Structural)]
pub enum UnconfirmedRequest {
    TimeSynchronization(TimeSynchronization),
}

impl UnconfirmedRequest {
    /// The two bytes in front of the service: the kind of unit and the
    /// service choice.
    pub open spec fn header(self) -> Seq<u8> {
        seq![0x10u8, TIME_SYNCHRONIZATION]
    }

    /// The request on the wire; none where the service has none.
    pub open spec fn wire(self) -> Result<Seq<u8>, Error> {
        match self {
            UnconfirmedRequest::TimeSynchronization(x) => match x.wire() {
                Err(e) => Err(e),
                Ok(body) => Ok(self.header() + body),
            },
        }
    }

    /// The request at the front of `s`.
    pub open spec fn parse(s: Seq<u8>) -> Result<(UnconfirmedRequest, nat), Error> {
        if s.len() < 2 {
            Err(Error::Truncated)
        } else if s[0] != 0x10 {
            Err(Error::InvalidValue)
        } else if s[1] != TIME_SYNCHRONIZATION {
            Err(Error::UnsupportedService(s[1]))
        } else {
            match TimeSynchronization::parse(s.skip(2)) {
                Err(e) => Err(e),
                Ok((x, n)) => Ok((UnconfirmedRequest::TimeSynchronization(x), 2 + n)),
            }
        }
    }

    /// Whether the request has a wire form, and if not, why not.
    pub fn check(&self) -> (r: Result<(), Error>)
        ensures
            r == status(self.wire()),
    {
        match self {
            UnconfirmedRequest::TimeSynchronization(x) => if x.date.is_valid() {
                Ok(())
            } else {
                Err(Error::InvalidValue)
            },
        }
    }

    /// Writes the request as one step of a longer write.
    pub(crate) fn write(&self, writer: &mut Writer) -> (r: Result<(), Error>)
        requires
            old(writer).wf(),
            self.wire().is_ok(),
        ensures
            written(*old(writer), *final(writer), r, self.wire().unwrap()),
    {
        let ghost w0 = *writer;
        let header: [u8; 2] = [0x10, TIME_SYNCHRONIZATION];
        let r = writer.extend_from_slice(header.as_slice());
        proof {
            assert(header@ =~= self.header());
            lemma_appended_is_written(w0, *writer, r, self.header());
        }
        match self {
            UnconfirmedRequest::TimeSynchronization(x) => {
                if r.is_err() {
                    proof {
                        lemma_written_first_failed(w0, *writer, self.header(), x.wire().unwrap());
                    }
                    return r;
                }
                let ghost w1 = *writer;
                let r = x.write(writer);
                proof {
                    lemma_written_next(
                        w0,
                        w1,
                        *writer,
                        r,
                        self.header(),
                        x.wire().unwrap(),
                        Seq::empty(),
                    );
                }
                r
            },
        }
    }

    /// Reads a request.
    pub fn decode(reader: &mut Reader, buf: &[u8]) -> (r: Result<UnconfirmedRequest, Error>)
        ensures
            decoded(
                *old(reader),
                *final(reader),
                buf@,
                r,
                UnconfirmedRequest::parse(old(reader).remaining(buf@)),
            ),
    {
        let mut at = *reader;
        let header = match at.read_slice(2, buf) {
            Ok(x) => x,
            Err(e) => {
                return Err(e);
            },
        };
        if header[0] != 0x10 {
            return Err(Error::InvalidValue);
        }
        if header[1] != TIME_SYNCHRONIZATION {
            return Err(Error::UnsupportedService(header[1]));
        }
        let ghost r1 = at;
        let service = match TimeSynchronization::decode(&mut at, buf) {
            Ok(x) => x,
            Err(e) => {
                return Err(e);
            },
        };
        proof {
            lemma_moved_on(*old(reader), r1, at, buf@);
        }
        *reader = at;
        Ok(UnconfirmedRequest::TimeSynchronization(service))
    }
}

/// Decoding an encoded request, whatever follows it, gives the request back
/// and uses exactly its bytes.
pub proof fn lemma_unconfirmed_request_roundtrip(request: UnconfirmedRequest, rest: Seq<u8>)
    requires
        request.wire().is_ok(),
    ensures
        UnconfirmedRequest::parse(request.wire().unwrap() + rest) == Ok::<
            (UnconfirmedRequest, nat),
            Error,
        >((request, request.wire().unwrap().len())),
{
    match request {
        UnconfirmedRequest::TimeSynchronization(x) => {
            let s = request.wire().unwrap() + rest;
            assert(s.skip(2) =~= x.wire().unwrap() + rest);
            lemma_time_synchronization_roundtrip(x, rest);
        },
    }
}

} // verus!
