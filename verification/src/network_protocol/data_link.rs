use vstd::prelude::*;
use crate::common::error::Error;
use crate::common::io::{
    decoded_as, lemma_appended_is_written, lemma_written_next, unchanged, Reader, Writer,
};
use crate::network_protocol::network_pdu::{
    lemma_network_pdu_roundtrip, NetworkPdu, NetworkPduModel,
};

verus! {

/// What a link frame is for.
#[derive(Debug, Clone, Copy, PartialEq, Eq, Structural)]
pub enum DataLinkFunction {
    BvlcResult,
    WriteBroadcastDistributionTable,
    ReadBroadcastDistributionTable,
    ReadBroadcastDistributionTableAck,
    ForwardedNpdu,
    RegisterForeignDevice,
    ReadForeignDeviceTable,
    ReadForeignDeviceTableAck,
    DeleteForeignDeviceTableEntry,
    DistributeBroadcastToNetwork,
    OriginalUnicastNpdu,
    OriginalBroadcastNpdu,
}

impl DataLinkFunction {
    /// The code on the wire.
    pub open spec fn code(self) -> u8 {
        match self {
            DataLinkFunction::BvlcResult => 0,
            DataLinkFunction::WriteBroadcastDistributionTable => 1,
            DataLinkFunction::ReadBroadcastDistributionTable => 2,
            DataLinkFunction::ReadBroadcastDistributionTableAck => 3,
            DataLinkFunction::ForwardedNpdu => 4,
            DataLinkFunction::RegisterForeignDevice => 5,
            DataLinkFunction::ReadForeignDeviceTable => 6,
            DataLinkFunction::ReadForeignDeviceTableAck => 7,
            DataLinkFunction::DeleteForeignDeviceTableEntry => 8,
            DataLinkFunction::DistributeBroadcastToNetwork => 9,
            DataLinkFunction::OriginalUnicastNpdu => 10,
            DataLinkFunction::OriginalBroadcastNpdu => 11,
        }
    }

    /// The value that a code stands for, if it stands for one.
    pub open spec fn of_code(code: u8) -> Option<DataLinkFunction> {
        if code == 0 {
            Some(DataLinkFunction::BvlcResult)
        } else if code == 1 {
            Some(DataLinkFunction::WriteBroadcastDistributionTable)
        } else if code == 2 {
            Some(DataLinkFunction::ReadBroadcastDistributionTable)
        } else if code == 3 {
            Some(DataLinkFunction::ReadBroadcastDistributionTableAck)
        } else if code == 4 {
            Some(DataLinkFunction::ForwardedNpdu)
        } else if code == 5 {
            Some(DataLinkFunction::RegisterForeignDevice)
        } else if code == 6 {
            Some(DataLinkFunction::ReadForeignDeviceTable)
        } else if code == 7 {
            Some(DataLinkFunction::ReadForeignDeviceTableAck)
        } else if code == 8 {
            Some(DataLinkFunction::DeleteForeignDeviceTableEntry)
        } else if code == 9 {
            Some(DataLinkFunction::DistributeBroadcastToNetwork)
        } else if code == 10 {
            Some(DataLinkFunction::OriginalUnicastNpdu)
        } else if code == 11 {
            Some(DataLinkFunction::OriginalBroadcastNpdu)
        } else {
            None
        }
    }

    /// The code on the wire.
    pub fn to_u8(self) -> (code: u8)
        ensures
            code == self.code(),
            DataLinkFunction::of_code(code) == Some(self),
    {
        match self {
            DataLinkFunction::BvlcResult => 0,
            DataLinkFunction::WriteBroadcastDistributionTable => 1,
            DataLinkFunction::ReadBroadcastDistributionTable => 2,
            DataLinkFunction::ReadBroadcastDistributionTableAck => 3,
            DataLinkFunction::ForwardedNpdu => 4,
            DataLinkFunction::RegisterForeignDevice => 5,
            DataLinkFunction::ReadForeignDeviceTable => 6,
            DataLinkFunction::ReadForeignDeviceTableAck => 7,
            DataLinkFunction::DeleteForeignDeviceTableEntry => 8,
            DataLinkFunction::DistributeBroadcastToNetwork => 9,
            DataLinkFunction::OriginalUnicastNpdu => 10,
            DataLinkFunction::OriginalBroadcastNpdu => 11,
        }
    }

    /// The value that a code stands for, if it stands for one.
    pub fn from_u8(code: u8) -> (value: Option<DataLinkFunction>)
        ensures
            value == DataLinkFunction::of_code(code),
            value matches Some(v) ==> v.code() == code,
    {
        match code {
            0 => Some(DataLinkFunction::BvlcResult),
            1 => Some(DataLinkFunction::WriteBroadcastDistributionTable),
            2 => Some(DataLinkFunction::ReadBroadcastDistributionTable),
            3 => Some(DataLinkFunction::ReadBroadcastDistributionTableAck),
            4 => Some(DataLinkFunction::ForwardedNpdu),
            5 => Some(DataLinkFunction::RegisterForeignDevice),
            6 => Some(DataLinkFunction::ReadForeignDeviceTable),
            7 => Some(DataLinkFunction::ReadForeignDeviceTableAck),
            8 => Some(DataLinkFunction::DeleteForeignDeviceTableEntry),
            9 => Some(DataLinkFunction::DistributeBroadcastToNetwork),
            10 => Some(DataLinkFunction::OriginalUnicastNpdu),
            11 => Some(DataLinkFunction::OriginalBroadcastNpdu),
            _ => None,
        }
    }
}

impl DataLinkFunction {
    /// Whether a frame of this function carries a network unit right behind
    /// its header. Frames of the other functions only steer the link.
    pub open spec fn carries_npdu(self) -> bool {
        self == DataLinkFunction::OriginalUnicastNpdu || self
            == DataLinkFunction::OriginalBroadcastNpdu || self
            == DataLinkFunction::DistributeBroadcastToNetwork
    }

    /// Whether a frame of this function carries a network unit right behind
    /// its header.
    pub fn has_npdu(self) -> (b: bool)
        ensures
            b == self.carries_npdu(),
    {
        match self {
            DataLinkFunction::OriginalUnicastNpdu
            | DataLinkFunction::OriginalBroadcastNpdu
            | DataLinkFunction::DistributeBroadcastToNetwork => true,
            _ => false,
        }
    }
}

/// The first byte of every frame on an IP link.
pub const BVLL_TYPE_BACNET_IP: u8 = 0x81;

/// The outermost frame: what it is for and, for some functions, a network
/// unit.
#[derive(Debug, Clone, PartialEq, Eq)]
pub struct DataLink<'a> {
    pub function: DataLinkFunction,
    pub npdu: Option<NetworkPdu<'a>>,
}

/// What a [`DataLink`] holds.
pub struct DataLinkModel {
    pub function: DataLinkFunction,
    pub npdu: Option<NetworkPduModel>,
}

impl<'a> View for DataLink<'a> {
    type V = DataLinkModel;

    open spec fn view(&self) -> DataLinkModel {
        DataLinkModel {
            function: self.function,
            npdu: match self.npdu {
                Some(x) => Some(x@),
                None => None,
            },
        }
    }
}

/// A frame of function `function` around `body`: the type of the link, the
/// function, the length of the whole frame in two bytes, and the body.
pub open spec fn frame(function: DataLinkFunction, body: Seq<u8>) -> Seq<u8> {
    seq![
        BVLL_TYPE_BACNET_IP,
        function.code(),
        ((4 + body.len()) / 256) as u8,
        ((4 + body.len()) % 256) as u8,
    ] + body
}

impl DataLinkModel {
    /// What stands behind the header. A forwarded unit is not modelled; a
    /// network unit has to be there exactly where the function carries one.
    pub open spec fn body(self) -> Result<Seq<u8>, Error> {
        if self.function == DataLinkFunction::ForwardedNpdu {
            Err(Error::Unimplemented)
        } else if self.function.carries_npdu() != self.npdu.is_some() {
            Err(Error::InvalidValue)
        } else {
            match self.npdu {
                Some(x) => x.wire(),
                None => Ok(Seq::empty()),
            }
        }
    }

    /// The frame on the wire; none where the body has none or the frame
    /// would be longer than its length field can tell.
    pub open spec fn wire(self) -> Result<Seq<u8>, Error> {
        match self.body() {
            Err(e) => Err(e),
            Ok(body) => if 4 + body.len() > 0xFFFF {
                Err(Error::InvalidValue)
            } else {
                Ok(frame(self.function, body))
            },
        }
    }

    /// The frame round-trips: so does its network unit.
    pub open spec fn canonical(self) -> bool {
        match self.npdu {
            Some(x) => x.canonical(),
            None => true,
        }
    }

    /// The frame at the front of `s`. Its length field tells where it ends;
    /// what the function does not carry as a network unit is passed over.
    pub open spec fn parse(s: Seq<u8>) -> Result<(DataLinkModel, nat), Error> {
        if s.len() < 4 {
            Err(Error::Truncated)
        } else if s[0] != BVLL_TYPE_BACNET_IP {
            Err(Error::InvalidValue)
        } else {
            match DataLinkFunction::of_code(s[1]) {
                None => Err(Error::InvalidValue),
                Some(function) => {
                    let len = s[2] * 256 + s[3];
                    if function == DataLinkFunction::ForwardedNpdu {
                        Err(Error::Unimplemented)
                    } else if len < 4 {
                        Err(Error::InvalidValue)
                    } else if s.len() < len {
                        Err(Error::Truncated)
                    } else if function.carries_npdu() {
                        match NetworkPduModel::parse(s.subrange(4, len)) {
                            Err(e) => Err(e),
                            Ok((npdu, _)) => Ok(
                                (DataLinkModel { function, npdu: Some(npdu) }, len as nat),
                            ),
                        }
                    } else {
                        Ok((DataLinkModel { function, npdu: None }, len as nat))
                    }
                },
            }
        }
    }
}

/// What encoding a frame owes its caller: the error of a body that has no
/// wire form; else an overflow where the frame does not fit; else an invalid
/// value where the frame is too long for its length field; else the frame
/// appended. Nothing is written unless all of it is.
pub open spec fn frame_encoded(
    before: Writer,
    after: Writer,
    r: Result<(), Error>,
    link: DataLinkModel,
) -> bool {
    match link.body() {
        Err(e) => r == Err::<(), Error>(e) && unchanged(before, after),
        Ok(body) => if before@.len() + 4 + body.len() > before.capacity() {
            r == Err::<(), Error>(Error::Overflow) && unchanged(before, after)
        } else if 4 + body.len() > 0xFFFF {
            r == Err::<(), Error>(Error::InvalidValue) && unchanged(before, after)
        } else {
            r == Ok::<(), Error>(()) && after.wf() && after.capacity() == before.capacity()
                && after@ == before@ + frame(link.function, body)
        },
    }
}

impl<'a> DataLink<'a> {
    /// Puts the parts together.
    pub fn new(function: DataLinkFunction, npdu: Option<NetworkPdu<'a>>) -> (link: DataLink<'a>)
        ensures
            link.function == function,
            link.npdu == npdu,
    {
        DataLink { function, npdu }
    }

    /// Whether the body of the frame has a wire form, and if not, why not.
    pub fn check(&self) -> (r: Result<(), Error>)
        ensures
            r == crate::common::list::status(self@.body()),
    {
        match self.function {
            DataLinkFunction::ForwardedNpdu => {
                return Err(Error::Unimplemented);
            },
            _ => {},
        }
        match &self.npdu {
            Some(x) => if self.function.has_npdu() {
                x.check()
            } else {
                Err(Error::InvalidValue)
            },
            None => if self.function.has_npdu() {
                Err(Error::InvalidValue)
            } else {
                Ok(())
            },
        }
    }

    /// Writes the frame, or nothing where it cannot be written whole.
    pub fn encode(&self, writer: &mut Writer) -> (r: Result<(), Error>)
        requires
            old(writer).wf(),
        ensures
            frame_encoded(*old(writer), *final(writer), r, self@),
    {
        match self.check() {
            Ok(()) => {},
            Err(e) => {
                return Err(e);
            },
        }
        let ghost w0 = *writer;
        let ghost body = self@.body().unwrap();
        let start = writer.len();
        let head: [u8; 4] = [BVLL_TYPE_BACNET_IP, self.function.to_u8(), 0, 0];
        let r = writer.extend_from_slice(head.as_slice());
        proof {
            lemma_appended_is_written(w0, *writer, r, head@);
            assert(w0@.take(start as int) =~= w0@);
        }
        if r.is_err() {
            return r;
        }
        let ghost w1 = *writer;
        let r = match &self.npdu {
            Some(x) => x.write(writer),
            None => {
                proof {
                    crate::common::io::lemma_written_nothing(w1);
                }
                Ok(())
            },
        };
        proof {
            lemma_written_next(w0, w1, *writer, r, head@, body, Seq::empty());
        }
        if r.is_err() {
            writer.truncate(start);
            return r;
        }
        let len = writer.len() - start;
        if len > 0xFFFF {
            writer.truncate(start);
            return Err(Error::InvalidValue);
        }
        writer.patch_u16(start + 2, len as u16);
        proof {
            assert(writer@ =~= w0@ + frame(self.function, body));
        }
        Ok(())
    }

    /// Reads a frame and moves to its end.
    pub fn decode(reader: &mut Reader, buf: &'a [u8]) -> (r: Result<DataLink<'a>, Error>)
        ensures
            decoded_as(
                *old(reader),
                *final(reader),
                buf@,
                r,
                DataLinkModel::parse(old(reader).remaining(buf@)),
            ),
    {
        let available = reader.available(buf);
        let mut at = *reader;
        let head = match at.read_slice(4, buf) {
            Ok(x) => x,
            Err(e) => {
                return Err(e);
            },
        };
        if head[0] != BVLL_TYPE_BACNET_IP {
            return Err(Error::InvalidValue);
        }
        let function = match DataLinkFunction::from_u8(head[1]) {
            Some(x) => x,
            None => {
                return Err(Error::InvalidValue);
            },
        };
        match function {
            DataLinkFunction::ForwardedNpdu => {
                return Err(Error::Unimplemented);
            },
            _ => {},
        }
        let len: usize = head[2] as usize * 256 + head[3] as usize;
        if len < 4 {
            return Err(Error::InvalidValue);
        }
        if available < len {
            return Err(Error::Truncated);
        }
        let ghost s = reader.remaining(buf@);
        let end = reader.index + len;
        let mut inner = Reader { index: at.index, end };
        proof {
            assert(inner.remaining(buf@) =~= s.subrange(4, len as int));
        }
        let npdu = if function.has_npdu() {
            match NetworkPdu::decode(&mut inner, buf) {
                Ok(x) => Some(x),
                Err(e) => {
                    return Err(e);
                },
            }
        } else {
            None
        };
        proof {
            assert(buf@.subrange(end as int, reader.limit(buf@)) =~= s.skip(len as int));
        }
        reader.index = end;
        Ok(DataLink { function, npdu })
    }
}

/// Decoding an encoded frame, whatever follows it, gives the frame back and
/// uses exactly its bytes. This holds of every frame that has a wire form
/// and carries values of the readings that their places ask for.
pub proof fn lemma_data_link_roundtrip(link: DataLinkModel, rest: Seq<u8>)
    requires
        link.wire().is_ok(),
        link.canonical(),
    ensures
        DataLinkModel::parse(link.wire().unwrap() + rest) == Ok::<(DataLinkModel, nat), Error>(
            (link, link.wire().unwrap().len()),
        ),
{
    let body = link.body().unwrap();
    let s = link.wire().unwrap() + rest;
    let len = 4 + body.len();
    assert(DataLinkFunction::of_code(link.function.code()) == Some(link.function));
    assert(s[2] * 256 + s[3] == len);
    assert(s.subrange(4, len as int) =~= body);
    match link.npdu {
        Some(x) => {
            lemma_network_pdu_roundtrip(x);
        },
        None => {},
    }
}

/// An encoded frame cut short anywhere reads as truncated input: never as a
/// frame, and never as any other error.
pub proof fn lemma_data_link_truncated(link: DataLinkModel, k: int)
    requires
        link.wire().is_ok(),
        0 <= k < link.wire().unwrap().len(),
    ensures
        DataLinkModel::parse(link.wire().unwrap().take(k)) == Err::<(DataLinkModel, nat), Error>(
            Error::Truncated,
        ),
{
    let body = link.body().unwrap();
    let s = link.wire().unwrap().take(k);
    let len = 4 + body.len();
    assert(DataLinkFunction::of_code(link.function.code()) == Some(link.function));
    if k >= 4 {
        assert(s[2] * 256 + s[3] == len);
    }
}

} // verus!
