use vstd::prelude::*;
use crate::application_protocol::application_pdu::{
    lemma_application_pdu_roundtrip, ApplicationPdu, ApplicationPduModel,
};
use crate::common::error::Error;
use crate::common::io::{
    appended, decoded, decoded_as, encoded, lemma_appended_is_written, lemma_moved_on,
    lemma_written_first_failed, lemma_written_next, written, Reader, Writer,
};
use crate::common::list::status;
use crate::common::spec::bit;

verus! {

/// How urgent a message is. Nothing is queued by it here.
#[derive(Debug, Clone, Copy, PartialEq, Eq, Structural)]
pub enum MessagePriority {
    Normal,
    Urgent,
    CriticalEquipment,
    LifeSafety,
}

impl MessagePriority {
    /// The code on the wire.
    pub open spec fn code(self) -> u8 {
        match self {
            MessagePriority::Normal => 0,
            MessagePriority::Urgent => 1,
            MessagePriority::CriticalEquipment => 2,
            MessagePriority::LifeSafety => 3,
        }
    }

    /// The value that a code stands for, if it stands for one.
    pub open spec fn of_code(code: u8) -> Option<MessagePriority> {
        if code == 0 {
            Some(MessagePriority::Normal)
        } else if code == 1 {
            Some(MessagePriority::Urgent)
        } else if code == 2 {
            Some(MessagePriority::CriticalEquipment)
        } else if code == 3 {
            Some(MessagePriority::LifeSafety)
        } else {
            None
        }
    }

    /// The code on the wire.
    pub fn to_u8(self) -> (code: u8)
        ensures
            code == self.code(),
            MessagePriority::of_code(code) == Some(self),
    {
        match self {
            MessagePriority::Normal => 0,
            MessagePriority::Urgent => 1,
            MessagePriority::CriticalEquipment => 2,
            MessagePriority::LifeSafety => 3,
        }
    }

    /// The value that a code stands for, if it stands for one.
    pub fn from_u8(code: u8) -> (value: Option<MessagePriority>)
        ensures
            value == MessagePriority::of_code(code),
            value matches Some(v) ==> v.code() == code,
    {
        match code {
            0 => Some(MessagePriority::Normal),
            1 => Some(MessagePriority::Urgent),
            2 => Some(MessagePriority::CriticalEquipment),
            3 => Some(MessagePriority::LifeSafety),
            _ => None,
        }
    }
}

/// The address of a station on an IP network.
#[derive(Debug, Clone, Copy, PartialEq, Eq)]
pub struct Addr {
    pub ipv4: [u8; 4],
    pub port: u16,
}

impl Addr {
    /// The six bytes of the address: the IP address, then the port with its
    /// high byte first.
    pub open spec fn wire(self) -> Seq<u8> {
        seq![
            self.ipv4[0],
            self.ipv4[1],
            self.ipv4[2],
            self.ipv4[3],
            (self.port / 256) as u8,
            (self.port % 256) as u8,
        ]
    }

    /// The address that six bytes hold.
    pub open spec fn of_bytes(s: Seq<u8>) -> Addr {
        Addr { ipv4: [s[0], s[1], s[2], s[3]], port: (s[4] * 256 + s[5]) as u16 }
    }
}

/// Where a message comes from, if it has crossed a router.
#[derive(Debug, Clone, Copy, PartialEq, Eq)]
pub struct SourceAddress {
    pub net: u16,
    pub address: Option<Addr>,
}

/// Where a message is to go, if it has to cross a router. Without an address
/// it goes to every station of the network.
#[derive(Debug, Clone, Copy, PartialEq, Eq)]
pub struct DestinationAddress {
    pub net: u16,
    pub address: Option<Addr>,
    /// How many routers the message may still cross.
    pub hops: u8,
}

/// A network and a station on it, on the wire: the number of the network,
/// the length of the address, which is 6 or 0, and the address.
pub open spec fn station_wire(net: u16, address: Option<Addr>) -> Seq<u8> {
    match address {
        Some(a) => seq![(net / 256) as u8, (net % 256) as u8, 6u8] + a.wire(),
        None => seq![(net / 256) as u8, (net % 256) as u8, 0u8],
    }
}

/// The network and the station at the front of `s`. An address that is not
/// six bytes long is not read.
pub open spec fn parse_station(s: Seq<u8>) -> Result<((u16, Option<Addr>), nat), Error> {
    if s.len() < 3 {
        Err(Error::Truncated)
    } else if s[2] == 0 {
        Ok((((s[0] * 256 + s[1]) as u16, None), 3nat))
    } else if s[2] != 6 {
        Err(Error::Unimplemented)
    } else if s.len() < 9 {
        Err(Error::Truncated)
    } else {
        Ok((((s[0] * 256 + s[1]) as u16, Some(Addr::of_bytes(s.subrange(3, 9)))), 9nat))
    }
}

/// The network and the station at the front of `s`, if there is to be one.
pub open spec fn parse_optional_station(present: bool, s: Seq<u8>) -> Result<
    (Option<(u16, Option<Addr>)>, nat),
    Error,
> {
    if !present {
        Ok((None, 0nat))
    } else {
        match parse_station(s) {
            Err(e) => Err(e),
            Ok((station, n)) => Ok((Some(station), n)),
        }
    }
}

/// The hop count at the front of `s`, if there is to be one.
pub open spec fn parse_hops(present: bool, s: Seq<u8>) -> Result<(u8, nat), Error> {
    if !present {
        Ok((0u8, 0nat))
    } else if s.len() < 1 {
        Err(Error::Truncated)
    } else {
        Ok((s[0], 1nat))
    }
}

/// Writes a network and a station, or nothing where they do not fit.
fn encode_station(net: u16, address: &Option<Addr>, writer: &mut Writer) -> (r: Result<(), Error>)
    requires
        old(writer).wf(),
    ensures
        appended(*old(writer), *final(writer), r, station_wire(net, *address)),
{
    match address {
        Some(a) => {
            let bytes: [u8; 9] = [
                (net / 256) as u8,
                (net % 256) as u8,
                6,
                a.ipv4[0],
                a.ipv4[1],
                a.ipv4[2],
                a.ipv4[3],
                (a.port / 256) as u8,
                (a.port % 256) as u8,
            ];
            proof {
                assert(bytes@ =~= station_wire(net, *address));
            }
            writer.extend_from_slice(bytes.as_slice())
        },
        None => {
            let bytes: [u8; 3] = [(net / 256) as u8, (net % 256) as u8, 0];
            proof {
                assert(bytes@ =~= station_wire(net, *address));
            }
            writer.extend_from_slice(bytes.as_slice())
        },
    }
}

/// Reads a network and a station.
fn decode_station(reader: &mut Reader, buf: &[u8]) -> (r: Result<(u16, Option<Addr>), Error>)
    ensures
        decoded(*old(reader), *final(reader), buf@, r, parse_station(old(reader).remaining(buf@))),
{
    let mut at = *reader;
    let head = match at.read_slice(3, buf) {
        Ok(x) => x,
        Err(e) => {
            return Err(e);
        },
    };
    let net: u16 = head[0] as u16 * 256 + head[1] as u16;
    if head[2] == 0 {
        *reader = at;
        return Ok((net, None));
    }
    if head[2] != 6 {
        return Err(Error::Unimplemented);
    }
    let ghost r1 = at;
    let bytes = match at.read_slice(6, buf) {
        Ok(x) => x,
        Err(e) => {
            return Err(e);
        },
    };
    let address = Addr {
        ipv4: [bytes[0], bytes[1], bytes[2], bytes[3]],
        port: bytes[4] as u16 * 256 + bytes[5] as u16,
    };
    proof {
        let s = reader.remaining(buf@);
        lemma_moved_on(*old(reader), r1, at, buf@);
        assert(bytes@ =~= s.subrange(3, 9));
        assert(address.ipv4 =~= Addr::of_bytes(s.subrange(3, 9)).ipv4);
    }
    *reader = at;
    Ok((net, Some(address)))
}

/// What a network unit carries.
#[derive(Debug, Clone, PartialEq, Eq)]
pub enum NetworkMessage<'a> {
    Apdu(ApplicationPdu<'a>),
}

/// A unit of the network layer: who sends, who is to receive, whether an
/// answer is expected, how urgent it is, and a unit of the application layer.
#[derive(Debug, Clone, PartialEq, Eq)]
pub struct NetworkPdu<'a> {
    pub src: Option<SourceAddress>,
    pub dst: Option<DestinationAddress>,
    pub expect_reply: bool,
    pub message_priority: MessagePriority,
    pub network_message: NetworkMessage<'a>,
}

/// What a [`NetworkPdu`] holds.
pub struct NetworkPduModel {
    pub src: Option<SourceAddress>,
    pub dst: Option<DestinationAddress>,
    pub expect_reply: bool,
    pub message_priority: MessagePriority,
    pub apdu: ApplicationPduModel,
}

impl<'a> View for NetworkPdu<'a> {
    type V = NetworkPduModel;

    open spec fn view(&self) -> NetworkPduModel {
        NetworkPduModel {
            src: self.src,
            dst: self.dst,
            expect_reply: self.expect_reply,
            message_priority: self.message_priority,
            apdu: match self.network_message {
                NetworkMessage::Apdu(x) => x@,
            },
        }
    }
}

impl NetworkPduModel {
    /// The control byte: a bit for each address that is there, a bit for an
    /// expected answer, and the priority in the two low bits.
    pub open spec fn control(self) -> u8 {
        (bit(self.dst.is_some(), 32) + bit(self.src.is_some(), 8) + bit(self.expect_reply, 4)
            + self.message_priority.code()) as u8
    }

    /// What stands between the control byte and the application unit: the
    /// destination, the source and the hop count, each only if it is there.
    pub open spec fn routing(self) -> Seq<u8> {
        (match self.dst {
            Some(d) => station_wire(d.net, d.address),
            None => Seq::empty(),
        }) + (match self.src {
            Some(s) => station_wire(s.net, s.address),
            None => Seq::empty(),
        }) + (match self.dst {
            Some(d) => seq![d.hops],
            None => Seq::empty(),
        })
    }

    /// The unit on the wire: the version, which is 1, the control byte, the
    /// routing and the application unit; none where the application unit has
    /// none.
    pub open spec fn wire(self) -> Result<Seq<u8>, Error> {
        match self.apdu.wire() {
            Err(e) => Err(e),
            Ok(body) => Ok(seq![1u8, self.control()] + self.routing() + body),
        }
    }

    /// The unit round-trips: so does its application unit.
    pub open spec fn canonical(self) -> bool {
        self.apdu.canonical()
    }

    /// The unit that a control byte, the stations and the hop count read
    /// behind it, and an application unit make.
    pub open spec fn assemble(
        control: u8,
        dst: Option<(u16, Option<Addr>)>,
        src: Option<(u16, Option<Addr>)>,
        hops: u8,
        apdu: ApplicationPduModel,
    ) -> NetworkPduModel {
        NetworkPduModel {
            src: match src {
                Some(x) => Some(SourceAddress { net: x.0, address: x.1 }),
                None => None,
            },
            dst: match dst {
                Some(x) => Some(DestinationAddress { net: x.0, address: x.1, hops }),
                None => None,
            },
            expect_reply: (control / 4) % 2 == 1,
            message_priority: MessagePriority::of_code(control % 4).unwrap(),
            apdu,
        }
    }

    /// What follows the control byte `control`, at the front of `s`: the
    /// destination and the source, each if its bit is set, the hop count if
    /// there is a destination, and the application unit.
    pub open spec fn parse_behind(control: u8, s: Seq<u8>) -> Result<(NetworkPduModel, nat), Error> {
        let to = (control / 32) % 2 == 1;
        let from = (control / 8) % 2 == 1;
        match parse_optional_station(to, s) {
            Err(e) => Err(e),
            Ok((dst, n)) => match parse_optional_station(from, s.skip(n as int)) {
                Err(e) => Err(e),
                Ok((src, m)) => match parse_hops(to, s.skip((n + m) as int)) {
                    Err(e) => Err(e),
                    Ok((hops, k)) => match ApplicationPduModel::parse(s.skip((n + m + k) as int)) {
                        Err(e) => Err(e),
                        Ok((apdu, j)) => Ok(
                            (NetworkPduModel::assemble(control, dst, src, hops, apdu), n + m + k + j),
                        ),
                    },
                },
            },
        }
    }

    /// The unit at the front of `s`. Messages of the network layer itself are
    /// not read.
    #[verifier::opaque]
    pub open spec fn parse(s: Seq<u8>) -> Result<(NetworkPduModel, nat), Error> {
        if s.len() < 2 {
            Err(Error::Truncated)
        } else if s[0] != 1 {
            Err(Error::InvalidValue)
        } else if s[1] >= 128 {
            Err(Error::Unimplemented)
        } else if (s[1] / 64) % 2 == 1 || (s[1] / 16) % 2 == 1 {
            Err(Error::InvalidValue)
        } else {
            match NetworkPduModel::parse_behind(s[1], s.skip(2)) {
                Err(e) => Err(e),
                Ok((unit, n)) => Ok((unit, 2 + n)),
            }
        }
    }
}

impl<'a> NetworkPdu<'a> {
    /// Puts the parts together.
    pub fn new(
        src: Option<SourceAddress>,
        dst: Option<DestinationAddress>,
        expect_reply: bool,
        message_priority: MessagePriority,
        network_message: NetworkMessage<'a>,
    ) -> (unit: NetworkPdu<'a>)
        ensures
            unit.src == src,
            unit.dst == dst,
            unit.expect_reply == expect_reply,
            unit.message_priority == message_priority,
            unit.network_message == network_message,
    {
        NetworkPdu { src, dst, expect_reply, message_priority, network_message }
    }

    /// Whether the unit has a wire form, and if not, why not.
    pub fn check(&self) -> (r: Result<(), Error>)
        ensures
            r == status(self@.wire()),
    {
        match &self.network_message {
            NetworkMessage::Apdu(x) => x.check(),
        }
    }

    /// Writes what stands between the control byte and the application unit.
    fn write_routing(&self, writer: &mut Writer) -> (r: Result<(), Error>)
        requires
            old(writer).wf(),
        ensures
            written(*old(writer), *final(writer), r, self@.routing()),
    {
        let ghost w0 = *writer;
        let ghost a = match self.dst {
            Some(d) => station_wire(d.net, d.address),
            None => Seq::empty(),
        };
        let ghost b = match self.src {
            Some(s) => station_wire(s.net, s.address),
            None => Seq::empty(),
        };
        let ghost c = match self.dst {
            Some(d) => seq![d.hops],
            None => Seq::empty(),
        };
        let r = match &self.dst {
            Some(d) => encode_station(d.net, &d.address, writer),
            None => {
                proof {
                    assert(w0@ + Seq::<u8>::empty() =~= w0@);
                    w0.lemma_len_le_capacity();
                }
                Ok(())
            },
        };
        proof {
            lemma_appended_is_written(w0, *writer, r, a);
        }
        if r.is_err() {
            proof {
                lemma_written_first_failed(w0, *writer, a, b + c);
                assert(a + (b + c) =~= a + b + c);
            }
            return r;
        }
        let ghost w1 = *writer;
        let r = match &self.src {
            Some(s) => encode_station(s.net, &s.address, writer),
            None => {
                proof {
                    assert(w1@ + Seq::<u8>::empty() =~= w1@);
                    w1.lemma_len_le_capacity();
                }
                Ok(())
            },
        };
        proof {
            lemma_appended_is_written(w1, *writer, r, b);
            lemma_written_next(w0, w1, *writer, r, a, b, c);
        }
        if r.is_err() {
            return r;
        }
        let ghost w2 = *writer;
        let r = match &self.dst {
            Some(d) => writer.push(d.hops),
            None => {
                proof {
                    assert(w2@ + Seq::<u8>::empty() =~= w2@);
                    w2.lemma_len_le_capacity();
                }
                Ok(())
            },
        };
        proof {
            lemma_appended_is_written(w2, *writer, r, c);
            lemma_written_next(w0, w2, *writer, r, a + b, c, Seq::empty());
        }
        r
    }

    /// Writes the unit as one step of a longer write.
    pub(crate) fn write(&self, writer: &mut Writer) -> (r: Result<(), Error>)
        requires
            old(writer).wf(),
            self@.wire().is_ok(),
        ensures
            written(*old(writer), *final(writer), r, self@.wire().unwrap()),
    {
        let ghost w0 = *writer;
        let ghost a = seq![1u8, self@.control()];
        let ghost b = self@.routing();
        let ghost c = self@.apdu.wire().unwrap();
        let to: u8 = if self.dst.is_some() {
            32
        } else {
            0
        };
        let from: u8 = if self.src.is_some() {
            8
        } else {
            0
        };
        let reply: u8 = if self.expect_reply {
            4
        } else {
            0
        };
        let control: u8 = to + from + reply + self.message_priority.to_u8();
        let head: [u8; 2] = [1, control];
        let r = writer.extend_from_slice(head.as_slice());
        proof {
            assert(head@ =~= a);
            lemma_appended_is_written(w0, *writer, r, a);
        }
        if r.is_err() {
            proof {
                lemma_written_first_failed(w0, *writer, a, b + c);
                assert(a + (b + c) =~= a + b + c);
            }
            return r;
        }
        let ghost w1 = *writer;
        let r = self.write_routing(writer);
        proof {
            lemma_written_next(w0, w1, *writer, r, a, b, c);
        }
        if r.is_err() {
            return r;
        }
        let ghost w2 = *writer;
        let r = match &self.network_message {
            NetworkMessage::Apdu(x) => x.write(writer),
        };
        proof {
            lemma_written_next(w0, w2, *writer, r, a + b, c, Seq::empty());
        }
        r
    }

    /// Writes the unit, or nothing where it does not fit or has no wire form.
    pub fn encode(&self, writer: &mut Writer) -> (r: Result<(), Error>)
        requires
            old(writer).wf(),
        ensures
            encoded(*old(writer), *final(writer), r, self@.wire()),
    {
        match self.check() {
            Ok(()) => {},
            Err(e) => {
                return Err(e);
            },
        }
        let start = writer.len();
        let r = self.write(writer);
        proof {
            assert(old(writer)@.take(start as int) =~= old(writer)@);
        }
        writer.settle(start, r)
    }

    /// Reads what follows the control byte `control`.
    fn decode_behind(control: u8, reader: &mut Reader, buf: &'a [u8]) -> (r: Result<
        NetworkPdu<'a>,
        Error,
    >)
        requires
            control < 128,
        ensures
            decoded_as(
                *old(reader),
                *final(reader),
                buf@,
                r,
                NetworkPduModel::parse_behind(control, old(reader).remaining(buf@)),
            ),
    {
        let mut at = *reader;
        let to = (control / 32) % 2 == 1;
        let from = (control / 8) % 2 == 1;
        let dst = if to {
            match decode_station(&mut at, buf) {
                Ok(x) => Some(x),
                Err(e) => {
                    return Err(e);
                },
            }
        } else {
            proof {
                assert(at.remaining(buf@).skip(0) =~= at.remaining(buf@));
            }
            None
        };
        let ghost r1 = at;
        let src = if from {
            match decode_station(&mut at, buf) {
                Ok(x) => Some(x),
                Err(e) => {
                    return Err(e);
                },
            }
        } else {
            proof {
                assert(at.remaining(buf@).skip(0) =~= at.remaining(buf@));
            }
            None
        };
        let ghost r2 = at;
        proof {
            lemma_moved_on(*old(reader), r1, r2, buf@);
        }
        let hops: u8 = if to {
            match at.read_byte(buf) {
                Ok(x) => x,
                Err(e) => {
                    return Err(e);
                },
            }
        } else {
            proof {
                assert(at.remaining(buf@).skip(0) =~= at.remaining(buf@));
            }
            0
        };
        let ghost r3 = at;
        proof {
            lemma_moved_on(*old(reader), r2, r3, buf@);
        }
        let apdu = match ApplicationPdu::decode(&mut at, buf) {
            Ok(x) => x,
            Err(e) => {
                return Err(e);
            },
        };
        proof {
            lemma_moved_on(*old(reader), r3, at, buf@);
        }
        let message_priority = match MessagePriority::from_u8(control % 4) {
            Some(x) => x,
            None => {
                return Err(Error::InvalidValue);
            },
        };
        *reader = at;
        Ok(
            NetworkPdu {
                src: match src {
                    Some(x) => Some(SourceAddress { net: x.0, address: x.1 }),
                    None => None,
                },
                dst: match dst {
                    Some(x) => Some(DestinationAddress { net: x.0, address: x.1, hops }),
                    None => None,
                },
                expect_reply: (control / 4) % 2 == 1,
                message_priority,
                network_message: NetworkMessage::Apdu(apdu),
            },
        )
    }

    /// Reads a unit.
    pub fn decode(reader: &mut Reader, buf: &'a [u8]) -> (r: Result<NetworkPdu<'a>, Error>)
        ensures
            decoded_as(
                *old(reader),
                *final(reader),
                buf@,
                r,
                NetworkPduModel::parse(old(reader).remaining(buf@)),
            ),
    {
        proof {
            reveal(NetworkPduModel::parse);
        }
        let mut at = *reader;
        let head = match at.read_slice(2, buf) {
            Ok(x) => x,
            Err(e) => {
                return Err(e);
            },
        };
        if head[0] != 1 {
            return Err(Error::InvalidValue);
        }
        let control = head[1];
        if control >= 128 {
            return Err(Error::Unimplemented);
        }
        if (control / 64) % 2 == 1 || (control / 16) % 2 == 1 {
            return Err(Error::InvalidValue);
        }
        let ghost r1 = at;
        let unit = match Self::decode_behind(control, &mut at, buf) {
            Ok(x) => x,
            Err(e) => {
                return Err(e);
            },
        };
        proof {
            lemma_moved_on(*old(reader), r1, at, buf@);
        }
        *reader = at;
        Ok(unit)
    }
}

/// An encoded network and station read back as they were, whatever follows.
pub proof fn lemma_station_roundtrip(net: u16, address: Option<Addr>, rest: Seq<u8>)
    ensures
        parse_station(station_wire(net, address) + rest) == Ok::<((u16, Option<Addr>), nat), Error>(
            ((net, address), station_wire(net, address).len()),
        ),
{
    let s = station_wire(net, address) + rest;
    match address {
        Some(a) => {
            assert(s.subrange(3, 9) =~= a.wire());
            assert(Addr::of_bytes(a.wire()).ipv4 =~= a.ipv4);
        },
        None => {},
    }
}

/// The parts of a control byte can be read off it again.
proof fn lemma_control(unit: NetworkPduModel)
    ensures
        unit.control() < 128,
        (unit.control() / 64) % 2 == 0,
        (unit.control() / 16) % 2 == 0,
        ((unit.control() / 32) % 2 == 1) == unit.dst.is_some(),
        ((unit.control() / 8) % 2 == 1) == unit.src.is_some(),
        ((unit.control() / 4) % 2 == 1) == unit.expect_reply,
        MessagePriority::of_code(unit.control() % 4) == Some(unit.message_priority),
{
    let p = unit.message_priority.code();
    assert(p < 4);
    assert(MessagePriority::of_code(p) == Some(unit.message_priority));
}

/// An encoded destination reads back as it was, whatever follows.
proof fn lemma_destination_roundtrip(dst: Option<DestinationAddress>, rest: Seq<u8>)
    ensures
        ({
            let wire = match dst {
                Some(d) => station_wire(d.net, d.address),
                None => Seq::empty(),
            };
            parse_optional_station(dst.is_some(), wire + rest) == Ok::<
                (Option<(u16, Option<Addr>)>, nat),
                Error,
            >(
                (
                    match dst {
                        Some(d) => Some((d.net, d.address)),
                        None => None,
                    },
                    wire.len(),
                ),
            )
        }),
{
    match dst {
        Some(d) => {
            lemma_station_roundtrip(d.net, d.address, rest);
        },
        None => {},
    }
}

/// An encoded source reads back as it was, whatever follows.
proof fn lemma_source_roundtrip(src: Option<SourceAddress>, rest: Seq<u8>)
    ensures
        ({
            let wire = match src {
                Some(x) => station_wire(x.net, x.address),
                None => Seq::empty(),
            };
            parse_optional_station(src.is_some(), wire + rest) == Ok::<
                (Option<(u16, Option<Addr>)>, nat),
                Error,
            >(
                (
                    match src {
                        Some(x) => Some((x.net, x.address)),
                        None => None,
                    },
                    wire.len(),
                ),
            )
        }),
{
    match src {
        Some(x) => {
            lemma_station_roundtrip(x.net, x.address, rest);
        },
        None => {},
    }
}

/// Whether `control` is the control byte of `unit`, told by its parts.
pub open spec fn controls(control: u8, unit: NetworkPduModel) -> bool {
    &&& control < 128
    &&& (control / 64) % 2 == 0
    &&& (control / 16) % 2 == 0
    &&& ((control / 32) % 2 == 1) == unit.dst.is_some()
    &&& ((control / 8) % 2 == 1) == unit.src.is_some()
    &&& ((control / 4) % 2 == 1) == unit.expect_reply
    &&& MessagePriority::of_code(control % 4) == Some(unit.message_priority)
}

/// The stations, the hop count and the application unit of a unit, put
/// together under its control byte, make the unit again.
proof fn lemma_assemble(control: u8, unit: NetworkPduModel)
    requires
        controls(control, unit),
    ensures
        NetworkPduModel::assemble(
            control,
            match unit.dst {
                Some(d) => Some((d.net, d.address)),
                None => None,
            },
            match unit.src {
                Some(x) => Some((x.net, x.address)),
                None => None,
            },
            match unit.dst {
                Some(d) => d.hops,
                None => 0u8,
            },
            unit.apdu,
        ) == unit,
{
}

/// Four reads in a row behind a control byte make one read of a unit.
proof fn lemma_behind_steps(
    control: u8,
    s: Seq<u8>,
    dst: Option<(u16, Option<Addr>)>,
    n: nat,
    src: Option<(u16, Option<Addr>)>,
    m: nat,
    hops: u8,
    k: nat,
    apdu: ApplicationPduModel,
    j: nat,
)
    requires
        parse_optional_station((control / 32) % 2 == 1, s) == Ok::<
            (Option<(u16, Option<Addr>)>, nat),
            Error,
        >((dst, n)),
        parse_optional_station((control / 8) % 2 == 1, s.skip(n as int)) == Ok::<
            (Option<(u16, Option<Addr>)>, nat),
            Error,
        >((src, m)),
        parse_hops((control / 32) % 2 == 1, s.skip((n + m) as int)) == Ok::<(u8, nat), Error>(
            (hops, k),
        ),
        ApplicationPduModel::parse(s.skip((n + m + k) as int)) == Ok::<
            (ApplicationPduModel, nat),
            Error,
        >((apdu, j)),
    ensures
        NetworkPduModel::parse_behind(control, s) == Ok::<(NetworkPduModel, nat), Error>(
            (NetworkPduModel::assemble(control, dst, src, hops, apdu), n + m + k + j),
        ),
{
}

/// The hop count of an encoded unit reads back as it was, whatever follows.
proof fn lemma_hops_roundtrip(dst: Option<DestinationAddress>, rest: Seq<u8>)
    ensures
        ({
            let wire: Seq<u8> = match dst {
                Some(d) => seq![d.hops],
                None => Seq::empty(),
            };
            parse_hops(dst.is_some(), wire + rest) == Ok::<(u8, nat), Error>(
                (
                    match dst {
                        Some(d) => d.hops,
                        None => 0u8,
                    },
                    wire.len(),
                ),
            )
        }),
{
}

/// The routing of an encoded unit in front of a body that reads as its
/// application unit reads back as the unit.
proof fn lemma_behind_roundtrip(control: u8, unit: NetworkPduModel, body: Seq<u8>)
    requires
        controls(control, unit),
        ApplicationPduModel::parse(body) == Ok::<(ApplicationPduModel, nat), Error>(
            (unit.apdu, body.len()),
        ),
    ensures
        NetworkPduModel::parse_behind(control, unit.routing() + body) == Ok::<
            (NetworkPduModel, nat),
            Error,
        >((unit, unit.routing().len() + body.len())),
{
    let a = match unit.dst {
        Some(d) => station_wire(d.net, d.address),
        None => Seq::empty(),
    };
    let b = match unit.src {
        Some(x) => station_wire(x.net, x.address),
        None => Seq::empty(),
    };
    let c: Seq<u8> = match unit.dst {
        Some(d) => seq![d.hops],
        None => Seq::empty(),
    };
    let dst = match unit.dst {
        Some(d) => Some((d.net, d.address)),
        None => None,
    };
    let src = match unit.src {
        Some(x) => Some((x.net, x.address)),
        None => None,
    };
    let hops = match unit.dst {
        Some(d) => d.hops,
        None => 0u8,
    };
    let s = unit.routing() + body;
    assert(unit.routing() == a + b + c);
    assert(s =~= a + (b + c + body));
    assert(s.skip(a.len() as int) =~= b + (c + body));
    assert(s.skip((a.len() + b.len()) as int) =~= c + body);
    assert(s.skip((a.len() + b.len() + c.len()) as int) =~= body);
    lemma_destination_roundtrip(unit.dst, b + c + body);
    lemma_source_roundtrip(unit.src, c + body);
    lemma_hops_roundtrip(unit.dst, body);
    lemma_behind_steps(control, s, dst, a.len(), src, b.len(), hops, c.len(), unit.apdu, body.len());
    lemma_assemble(control, unit);
}

/// A version, a control byte and a routing in front of a body that reads as
/// the application unit read as the unit.
proof fn lemma_unit_roundtrip(unit: NetworkPduModel, body: Seq<u8>)
    requires
        ApplicationPduModel::parse(body) == Ok::<(ApplicationPduModel, nat), Error>(
            (unit.apdu, body.len()),
        ),
    ensures
        NetworkPduModel::parse(seq![1u8, unit.control()] + unit.routing() + body) == Ok::<
            (NetworkPduModel, nat),
            Error,
        >((unit, 2 + unit.routing().len() + body.len())),
{
    reveal(NetworkPduModel::parse);
    let control = unit.control();
    lemma_control(unit);
    lemma_behind_roundtrip(control, unit, body);
    let s = seq![1u8, control] + unit.routing() + body;
    assert(s[0] == 1 && s[1] == control);
    assert(s.skip(2) =~= unit.routing() + body);
}

/// Decoding an encoded unit gives the unit back and uses all of its bytes.
/// This holds of every unit whose application unit has a wire form and
/// carries values of the readings that their places ask for.
pub proof fn lemma_network_pdu_roundtrip(unit: NetworkPduModel)
    requires
        unit.canonical(),
    ensures
        unit.wire().is_ok(),
        NetworkPduModel::parse(unit.wire().unwrap()) == Ok::<(NetworkPduModel, nat), Error>(
            (unit, unit.wire().unwrap().len()),
        ),
{
    lemma_application_pdu_roundtrip(unit.apdu);
    lemma_unit_roundtrip(unit, unit.apdu.wire().unwrap());
}

} // verus!
