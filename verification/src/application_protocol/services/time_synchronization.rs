use vstd::prelude::*;
use crate::application_protocol::primitives::data_value::{
    lemma_value_roundtrip, ApplicationDataValue, ApplicationDataValueModel, Date, Time,
};
use crate::common::error::Error;
use crate::common::io::{
    decoded, encoded, lemma_appended_is_written, lemma_moved_twice, lemma_written_first_failed,
    lemma_written_twice, written, Reader, Writer,
};
use crate::common::object_id::{ObjectId, ObjectType};
use crate::common::property_id::PropertyId;

verus! {

/// A request to set the clock: the date and the time. Nobody answers it.
#[derive(Debug, Clone, Copy, PartialEq, Eq, Structural)]
pub struct TimeSynchronization {
    pub date: Date,
    pub time: Time,
}

impl TimeSynchronization {
    /// The request on the wire: the date and the time, each as a value with
    /// its tag. A date out of range has no wire form.
    pub open spec fn wire(self) -> Result<Seq<u8>, Error> {
        match ApplicationDataValueModel::Date(self.date).wire() {
            Err(e) => Err(e),
            Ok(date) => Ok(date + ApplicationDataValueModel::Time(self.time).wire().unwrap()),
        }
    }

    /// The request at the front of `s`: a value that has to be a date, then
    /// one that has to be a time.
    pub open spec fn parse(s: Seq<u8>) -> Result<(TimeSynchronization, nat), Error> {
        match ApplicationDataValueModel::parse_tagged(
            ObjectType::ObjectDevice,
            PropertyId::PropLocalDate,
            s,
        ) {
            Err(e) => Err(e),
            Ok((ApplicationDataValueModel::Date(date), n)) => match ApplicationDataValueModel::parse_tagged(
                ObjectType::ObjectDevice,
                PropertyId::PropLocalTime,
                s.skip(n as int),
            ) {
                Err(e) => Err(e),
                Ok((ApplicationDataValueModel::Time(time), m)) => Ok(
                    (TimeSynchronization { date, time }, n + m),
                ),
                Ok(_) => Err(Error::InvalidValue),
            },
            Ok(_) => Err(Error::InvalidValue),
        }
    }

    /// Puts the parts together.
    pub fn new(date: Date, time: Time) -> (request: TimeSynchronization)
        ensures
            request == (TimeSynchronization { date, time }),
    {
        TimeSynchronization { date, time }
    }

    /// Writes the request, or nothing where it does not fit or has no wire
    /// form.
    pub fn encode(&self, writer: &mut Writer) -> (r: Result<(), Error>)
        requires
            old(writer).wf(),
        ensures
            encoded(*old(writer), *final(writer), r, self.wire()),
    {
        if !self.date.is_valid() {
            return Err(Error::InvalidValue);
        }
        let start = writer.len();
        let r = self.write(writer);
        proof {
            assert(old(writer)@.take(start as int) =~= old(writer)@);
        }
        writer.settle(start, r)
    }

    /// Writes the request as one step of a longer write.
    pub(crate) fn write(&self, writer: &mut Writer) -> (r: Result<(), Error>)
        requires
            old(writer).wf(),
            self.wire().is_ok(),
        ensures
            written(*old(writer), *final(writer), r, self.wire().unwrap()),
    {
        let ghost date = ApplicationDataValueModel::Date(self.date).wire().unwrap();
        let ghost time = ApplicationDataValueModel::Time(self.time).wire().unwrap();
        let r = ApplicationDataValue::Date(self.date).encode(writer);
        proof {
            lemma_appended_is_written(*old(writer), *writer, r, date);
        }
        if r.is_err() {
            proof {
                lemma_written_first_failed(*old(writer), *writer, date, time);
            }
            return r;
        }
        let ghost dated = *writer;
        let r = ApplicationDataValue::Time(self.time).encode(writer);
        proof {
            lemma_appended_is_written(dated, *writer, r, time);
            lemma_written_twice(*old(writer), dated, *writer, r, date, time);
        }
        r
    }

    /// Reads the request.
    pub fn decode(reader: &mut Reader, buf: &[u8]) -> (r: Result<TimeSynchronization, Error>)
        ensures
            decoded(
                *old(reader),
                *final(reader),
                buf@,
                r,
                TimeSynchronization::parse(old(reader).remaining(buf@)),
            ),
    {
        let device = ObjectId::new(ObjectType::ObjectDevice, 0);
        let mut at = *reader;
        let date = match ApplicationDataValue::decode_tagged(
            &device,
            &PropertyId::PropLocalDate,
            &mut at,
            buf,
        ) {
            Ok(ApplicationDataValue::Date(date)) => date,
            Ok(_) => {
                return Err(Error::InvalidValue);
            },
            Err(e) => {
                return Err(e);
            },
        };
        let ghost behind_date = at;
        let time = match ApplicationDataValue::decode_tagged(
            &device,
            &PropertyId::PropLocalTime,
            &mut at,
            buf,
        ) {
            Ok(ApplicationDataValue::Time(time)) => time,
            Ok(_) => {
                return Err(Error::InvalidValue);
            },
            Err(e) => {
                return Err(e);
            },
        };
        proof {
            let n = ApplicationDataValueModel::parse_tagged(
                ObjectType::ObjectDevice,
                PropertyId::PropLocalDate,
                reader.remaining(buf@),
            )->Ok_0.1;
            let m = ApplicationDataValueModel::parse_tagged(
                ObjectType::ObjectDevice,
                PropertyId::PropLocalTime,
                behind_date.remaining(buf@),
            )->Ok_0.1;
            lemma_moved_twice(*old(reader), behind_date, at, buf@, n, m);
        }
        *reader = at;
        Ok(TimeSynchronization { date, time })
    }
}

/// Decoding an encoded request, whatever follows it, gives the request back
/// and uses exactly its bytes.
pub proof fn lemma_time_synchronization_roundtrip(request: TimeSynchronization, rest: Seq<u8>)
    requires
        request.wire().is_ok(),
    ensures
        TimeSynchronization::parse(request.wire().unwrap() + rest) == Ok::<
            (TimeSynchronization, nat),
            Error,
        >((request, request.wire().unwrap().len())),
{
    let date = ApplicationDataValueModel::Date(request.date);
    let time = ApplicationDataValueModel::Time(request.time);
    let d = date.wire().unwrap();
    let t = time.wire().unwrap();
    assert(request.wire().unwrap() + rest =~= d + (t + rest));
    lemma_value_roundtrip(date, ObjectType::ObjectDevice, PropertyId::PropLocalDate, t + rest);
    assert((d + (t + rest)).skip(d.len() as int) =~= t + rest);
    lemma_value_roundtrip(time, ObjectType::ObjectDevice, PropertyId::PropLocalTime, rest);
}

} // verus!
