//! Addresses: a process-local identifier, an IP host, and the tagged union
//! over the local, TCP and UDP kinds.
use vstd::prelude::*;

use crate::bytes::{le_u16_bytes, le_u16_value, le_u32_bytes, le_u32_value, push_le_u16, push_le_u32};
use crate::codec::{Codec, CodecError};

verus! {

/// The kind of an address, written as one tag byte before its payload.
#[derive(Clone, Copy, Debug, PartialEq, Eq, Structural)]
pub enum AddressType {
    Local,
    Tcp,
    Udp,
}

impl AddressType {
    /// The tag byte that `tag` returns.
    pub open spec fn spec_tag(self) -> u8 {
        match self {
            AddressType::Local => 0,
            AddressType::Tcp => 1,
            AddressType::Udp => 2,
        }
    }

    /// The tag byte of this kind.
    pub fn tag(&self) -> (r: u8)
        ensures
            r == self.spec_tag(),
    {
        match self {
            AddressType::Local => 0,
            AddressType::Tcp => 1,
            AddressType::Udp => 2,
        }
    }
}

/// The kind that a tag byte names, if any.
pub open spec fn address_type_of(b: u8) -> Result<AddressType, CodecError> {
    if b == 0 {
        Ok(AddressType::Local)
    } else if b == 1 {
        Ok(AddressType::Tcp)
    } else if b == 2 {
        Ok(AddressType::Udp)
    } else {
        Err(CodecError::UnknownTag)
    }
}

impl TryFrom<u8> for AddressType {
    type Error = CodecError;

    fn try_from(data: u8) -> (r: Result<AddressType, CodecError>)
        ensures
            r == address_type_of(data),
    {
        match data {
            0 => Ok(AddressType::Local),
            1 => Ok(AddressType::Tcp),
            2 => Ok(AddressType::Udp),
            _ => Err(CodecError::UnknownTag),
        }
    }
}

impl vstd::std_specs::convert::TryFromSpecImpl<u8> for AddressType {
    open spec fn obeys_try_from_spec() -> bool {
        true
    }

    open spec fn try_from_spec(v: u8) -> Result<AddressType, CodecError> {
        address_type_of(v)
    }
}

/// The family of an IP host address, written as one tag byte before its
/// octets.
#[derive(Clone, Copy, Debug, PartialEq, Eq, Structural)]
pub enum HostAddressType {
    Ipv4,
    Ipv6,
}

impl HostAddressType {
    /// The tag byte that `tag` returns.
    pub open spec fn spec_tag(self) -> u8 {
        match self {
            HostAddressType::Ipv4 => 0,
            HostAddressType::Ipv6 => 1,
        }
    }

    /// The tag byte of this family.
    pub fn tag(&self) -> (r: u8)
        ensures
            r == self.spec_tag(),
    {
        match self {
            HostAddressType::Ipv4 => 0,
            HostAddressType::Ipv6 => 1,
        }
    }
}

/// The family that a tag byte names, if any.
pub open spec fn host_address_type_of(b: u8) -> Result<HostAddressType, CodecError> {
    if b == 0 {
        Ok(HostAddressType::Ipv4)
    } else if b == 1 {
        Ok(HostAddressType::Ipv6)
    } else {
        Err(CodecError::UnknownTag)
    }
}

impl TryFrom<u8> for HostAddressType {
    type Error = CodecError;

    fn try_from(data: u8) -> (r: Result<HostAddressType, CodecError>)
        ensures
            r == host_address_type_of(data),
    {
        match data {
            0 => Ok(HostAddressType::Ipv4),
            1 => Ok(HostAddressType::Ipv6),
            _ => Err(CodecError::UnknownTag),
        }
    }
}

impl vstd::std_specs::convert::TryFromSpecImpl<u8> for HostAddressType {
    open spec fn obeys_try_from_spec() -> bool {
        true
    }

    open spec fn try_from_spec(v: u8) -> Result<HostAddressType, CodecError> {
        host_address_type_of(v)
    }
}

/// A 32-bit identifier of an address inside one process.
#[derive(Clone, Copy, Debug, PartialEq, Eq, Structural)]
pub struct LocalAddress {
    pub address: u32,
}

impl View for LocalAddress {
    type V = u32;

    open spec fn view(&self) -> u32 {
        self.address
    }
}

/// A local address is the four bytes at the front of `s`.
pub open spec fn local_parse(s: Seq<u8>) -> Result<(u32, nat), CodecError> {
    if s.len() < 4 {
        Err(CodecError::Truncated)
    } else {
        Ok((le_u32_value(s), 4))
    }
}

impl Codec for LocalAddress {
    type Inner = LocalAddress;

    open spec fn well_formed(t: &LocalAddress) -> bool {
        true
    }

    open spec fn encodable(t: u32) -> bool {
        true
    }

    open spec fn wire(t: u32) -> Seq<u8> {
        le_u32_bytes(t)
    }

    open spec fn parse(s: Seq<u8>) -> Result<(u32, nat), CodecError> {
        local_parse(s)
    }

    fn encode(la: &LocalAddress, v: &mut Vec<u8>) -> (r: Result<(), CodecError>) {
        push_le_u32(la.address, v);
        Ok(())
    }

    fn decode(s: &[u8]) -> (r: Result<(LocalAddress, &[u8]), CodecError>) {
        if s.len() < 4 {
            return Err(CodecError::Truncated);
        }
        let address: u32 = s[0] as u32 + (s[1] as u32) * 0x100 + (s[2] as u32) * 0x10000 + (
        s[3] as u32) * 0x1000000;
        Ok((LocalAddress { address }, vstd::slice::slice_subrange(s, 4, s.len())))
    }

    open spec fn decodes_boxed() -> bool {
        false
    }

    fn decode_boxed(s: &[u8]) -> (r: Result<(Box<LocalAddress>, &[u8]), CodecError>) {
        Err(CodecError::Unsupported)
    }
}

/// An IP host address: four octets for IPv4, sixteen for IPv6, in network
/// order.
#[derive(Clone, Copy, Debug, PartialEq, Eq)]
pub enum IpHostAddress {
    V4([u8; 4]),
    V6([u8; 16]),
}

/// What an IP host address stands for: its family and its octets.
pub enum HostModel {
    V4(Seq<u8>),
    V6(Seq<u8>),
}

impl View for IpHostAddress {
    type V = HostModel;

    open spec fn view(&self) -> HostModel {
        match self {
            IpHostAddress::V4(o) => HostModel::V4(o@),
            IpHostAddress::V6(o) => HostModel::V6(o@),
        }
    }
}

/// The family tag, then the octets.
pub open spec fn host_wire(h: HostModel) -> Seq<u8> {
    match h {
        HostModel::V4(o) => seq![0u8] + o,
        HostModel::V6(o) => seq![1u8] + o,
    }
}

/// The IP host address at the front of `s` and the bytes it takes.
pub open spec fn host_parse(s: Seq<u8>) -> Result<(HostModel, nat), CodecError> {
    if s.len() == 0 {
        Err(CodecError::Truncated)
    } else {
        match host_address_type_of(s[0]) {
            Ok(HostAddressType::Ipv4) => if s.len() < 5 {
                Err(CodecError::Truncated)
            } else {
                Ok((HostModel::V4(s.subrange(1, 5)), 5))
            },
            Ok(HostAddressType::Ipv6) => if s.len() < 17 {
                Err(CodecError::Truncated)
            } else {
                Ok((HostModel::V6(s.subrange(1, 17)), 17))
            },
            Err(e) => Err(e),
        }
    }
}

impl IpHostAddress {
    /// The family of this address.
    pub fn host_type(&self) -> (r: HostAddressType)
        ensures
            r == (match self {
                IpHostAddress::V4(_) => HostAddressType::Ipv4,
                IpHostAddress::V6(_) => HostAddressType::Ipv6,
            }),
    {
        match self {
            IpHostAddress::V4(_) => HostAddressType::Ipv4,
            IpHostAddress::V6(_) => HostAddressType::Ipv6,
        }
    }
}

impl Codec for IpHostAddress {
    type Inner = IpHostAddress;

    open spec fn well_formed(t: &IpHostAddress) -> bool {
        true
    }

    open spec fn encodable(t: HostModel) -> bool {
        true
    }

    open spec fn wire(t: HostModel) -> Seq<u8> {
        host_wire(t)
    }

    open spec fn parse(s: Seq<u8>) -> Result<(HostModel, nat), CodecError> {
        host_parse(s)
    }

    fn encode(ip: &IpHostAddress, v: &mut Vec<u8>) -> (r: Result<(), CodecError>) {
        match ip {
            IpHostAddress::V4(o) => {
                v.push(HostAddressType::Ipv4.tag());
                v.extend_from_slice(o.as_slice());
            },
            IpHostAddress::V6(o) => {
                v.push(HostAddressType::Ipv6.tag());
                v.extend_from_slice(o.as_slice());
            },
        }
        assert(v@ =~= old(v)@ + host_wire(ip@));
        Ok(())
    }

    fn decode(s: &[u8]) -> (r: Result<(IpHostAddress, &[u8]), CodecError>) {
        if s.len() == 0 {
            return Err(CodecError::Truncated);
        }
        match HostAddressType::try_from(s[0]) {
            Ok(HostAddressType::Ipv4) => {
                if s.len() < 5 {
                    return Err(CodecError::Truncated);
                }
                let o: [u8; 4] = [s[1], s[2], s[3], s[4]];
                assert(o@ =~= s@.subrange(1, 5));
                Ok((IpHostAddress::V4(o), vstd::slice::slice_subrange(s, 5, s.len())))
            },
            Ok(HostAddressType::Ipv6) => {
                if s.len() < 17 {
                    return Err(CodecError::Truncated);
                }
                let mut o: [u8; 16] = [0u8; 16];
                for i in 0..16
                    invariant
                        s@.len() >= 17,
                        forall|j: int| 0 <= j < i ==> o@[j] == s@[j + 1],
                {
                    o[i] = s[i + 1];
                }
                assert(o@ =~= s@.subrange(1, 17));
                Ok((IpHostAddress::V6(o), vstd::slice::slice_subrange(s, 17, s.len())))
            },
            Err(e) => Err(e),
        }
    }

    open spec fn decodes_boxed() -> bool {
        false
    }

    fn decode_boxed(s: &[u8]) -> (r: Result<(Box<IpHostAddress>, &[u8]), CodecError>) {
        Err(CodecError::Unsupported)
    }
}

/// An address: a local identifier, or an IP host with a port reached over
/// TCP or UDP. The kind that each variant carries agrees with the variant
/// in every well-formed address; the encoder writes the variant's own tag.
#[derive(Clone, Copy, Debug, PartialEq, Eq)]
pub enum Address {
    LocalAddress(AddressType, LocalAddress),
    TcpAddress(AddressType, IpHostAddress, u16),
    UdpAddress(AddressType, IpHostAddress, u16),
}

/// What an address stands for.
pub enum AddressModel {
    Local(u32),
    Tcp(HostModel, u16),
    Udp(HostModel, u16),
}

impl View for Address {
    type V = AddressModel;

    open spec fn view(&self) -> AddressModel {
        match self {
            Address::LocalAddress(_, la) => AddressModel::Local(la.address),
            Address::TcpAddress(_, ip, port) => AddressModel::Tcp(ip@, *port),
            Address::UdpAddress(_, ip, port) => AddressModel::Udp(ip@, *port),
        }
    }
}

impl Address {
    /// The kind that the variant carries is the variant's own.
    pub open spec fn wf(&self) -> bool {
        match self {
            Address::LocalAddress(t, _) => *t == AddressType::Local,
            Address::TcpAddress(t, _, _) => *t == AddressType::Tcp,
            Address::UdpAddress(t, _, _) => *t == AddressType::Udp,
        }
    }
}

/// The kind's tag, then the payload; a port is two bytes, least
/// significant first.
pub open spec fn address_wire(a: AddressModel) -> Seq<u8> {
    match a {
        AddressModel::Local(id) => seq![0u8] + le_u32_bytes(id),
        AddressModel::Tcp(h, port) => seq![1u8] + host_wire(h) + le_u16_bytes(port),
        AddressModel::Udp(h, port) => seq![2u8] + host_wire(h) + le_u16_bytes(port),
    }
}

/// The address at the front of `s` and the bytes it takes. A TCP tag is
/// refused whatever follows it.
pub open spec fn address_parse(s: Seq<u8>) -> Result<(AddressModel, nat), CodecError> {
    if s.len() == 0 {
        Err(CodecError::Truncated)
    } else {
        match address_type_of(s[0]) {
            Ok(AddressType::Local) => match local_parse(s.subrange(1, s.len() as int)) {
                Ok((id, n)) => Ok((AddressModel::Local(id), 1 + n)),
                Err(e) => Err(e),
            },
            Ok(AddressType::Tcp) => Err(CodecError::Unsupported),
            Ok(AddressType::Udp) => match host_parse(s.subrange(1, s.len() as int)) {
                Ok((h, n)) => if s.len() < 1 + n + 2 {
                    Err(CodecError::Truncated)
                } else {
                    Ok(
                        (
                            AddressModel::Udp(h, le_u16_value(s.subrange(1 + n as int, s.len() as int))),
                            1 + n + 2,
                        ),
                    )
                },
                Err(e) => Err(e),
            },
            Err(e) => Err(e),
        }
    }
}

impl Codec for Address {
    type Inner = Address;

    open spec fn well_formed(t: &Address) -> bool {
        t.wf()
    }

    open spec fn encodable(t: AddressModel) -> bool {
        true
    }

    open spec fn wire(t: AddressModel) -> Seq<u8> {
        address_wire(t)
    }

    open spec fn parse(s: Seq<u8>) -> Result<(AddressModel, nat), CodecError> {
        address_parse(s)
    }

    fn encode(a: &Address, v: &mut Vec<u8>) -> (r: Result<(), CodecError>) {
        match a {
            Address::LocalAddress(_, la) => {
                v.push(AddressType::Local.tag());
                let _ = LocalAddress::encode(la, v);
            },
            Address::TcpAddress(_, ip, port) => {
                v.push(AddressType::Tcp.tag());
                let _ = IpHostAddress::encode(ip, v);
                push_le_u16(*port, v);
            },
            Address::UdpAddress(_, ip, port) => {
                v.push(AddressType::Udp.tag());
                let _ = IpHostAddress::encode(ip, v);
                push_le_u16(*port, v);
            },
        }
        assert(v@ =~= old(v)@ + address_wire(a@));
        Ok(())
    }

    fn decode(s: &[u8]) -> (r: Result<(Address, &[u8]), CodecError>) {
        if s.len() == 0 {
            return Err(CodecError::Truncated);
        }
        let payload = vstd::slice::slice_subrange(s, 1, s.len());
        match AddressType::try_from(s[0]) {
            Ok(AddressType::Local) => match LocalAddress::decode(payload) {
                Ok((la, rest)) => Ok((Address::LocalAddress(AddressType::Local, la), rest)),
                Err(e) => Err(e),
            },
            Ok(AddressType::Tcp) => Err(CodecError::Unsupported),
            Ok(AddressType::Udp) => match IpHostAddress::decode(payload) {
                Ok((ip, rest)) => {
                    if rest.len() < 2 {
                        return Err(CodecError::Truncated);
                    }
                    let port: u16 = rest[0] as u16 + (rest[1] as u16) * 0x100;
                    assert(rest@ =~= s@.subrange(1 + (s@.len() - 1 - rest@.len()), s@.len() as int));
                    let after = vstd::slice::slice_subrange(rest, 2, rest.len());
                    assert(after@ =~= s@.subrange(s@.len() - rest@.len() + 2, s@.len() as int));
                    Ok((Address::UdpAddress(AddressType::Udp, ip, port), after))
                },
                Err(e) => Err(e),
            },
            Err(e) => Err(e),
        }
    }

    open spec fn decodes_boxed() -> bool {
        false
    }

    fn decode_boxed(s: &[u8]) -> (r: Result<(Box<Address>, &[u8]), CodecError>) {
        Err(CodecError::Unsupported)
    }
}

/// The octets of an IP host address have its family's length.
pub open spec fn host_valid(h: HostModel) -> bool {
    match h {
        HostModel::V4(o) => o.len() == 4,
        HostModel::V6(o) => o.len() == 16,
    }
}

/// An address whose wire form decodes: a local one, or a UDP one with an IP
/// host of the right length. TCP addresses have a wire form, but no decoding.
pub open spec fn address_decodable(a: AddressModel) -> bool {
    match a {
        AddressModel::Local(_) => true,
        AddressModel::Tcp(_, _) => false,
        AddressModel::Udp(h, _) => host_valid(h),
    }
}

/// Every IP host address has octets of its family's length.
pub proof fn lemma_host_valid(ip: IpHostAddress)
    ensures
        host_valid(ip@),
{
}

/// Decoding the wire form of a local address, whatever bytes follow it,
/// gives the address back and consumes its four bytes.
pub proof fn lemma_local_round_trip(la: LocalAddress, tail: Seq<u8>)
    ensures
        local_parse(le_u32_bytes(la@) + tail) == Ok::<(u32, nat), CodecError>((la@, 4)),
{
    crate::bytes::lemma_le_u32(la@);
    let s = le_u32_bytes(la@) + tail;
    assert(s.subrange(0, 4) =~= le_u32_bytes(la@));
    assert(le_u32_value(s) == le_u32_value(s.subrange(0, 4)));
}

/// Decoding the wire form of an IP host address, whatever bytes follow it,
/// gives the address back and consumes exactly the wire form.
pub proof fn lemma_host_round_trip(ip: IpHostAddress, tail: Seq<u8>)
    ensures
        host_parse(host_wire(ip@) + tail) == Ok::<(HostModel, nat), CodecError>(
            (ip@, host_wire(ip@).len()),
        ),
{
    lemma_host_model_round_trip(ip@, tail);
}

proof fn lemma_host_model_round_trip(h: HostModel, tail: Seq<u8>)
    requires
        host_valid(h),
    ensures
        host_parse(host_wire(h) + tail) == Ok::<(HostModel, nat), CodecError>(
            (h, host_wire(h).len()),
        ),
{
    let s = host_wire(h) + tail;
    match h {
        HostModel::V4(o) => {
            assert(s.subrange(1, 5) =~= o);
        },
        HostModel::V6(o) => {
            assert(s.subrange(1, 17) =~= o);
        },
    }
}

/// Decoding the wire form of a decodable address, whatever bytes follow it,
/// gives the address back and consumes exactly the wire form.
pub proof fn lemma_address_model_round_trip(a: AddressModel, tail: Seq<u8>)
    requires
        address_decodable(a),
    ensures
        address_parse(address_wire(a) + tail) == Ok::<(AddressModel, nat), CodecError>(
            (a, address_wire(a).len()),
        ),
{
    let s = address_wire(a) + tail;
    let payload = s.subrange(1, s.len() as int);
    match a {
        AddressModel::Local(id) => {
            assert(payload =~= le_u32_bytes(id) + tail);
            lemma_local_round_trip(LocalAddress { address: id }, tail);
        },
        AddressModel::Tcp(_, _) => {},
        AddressModel::Udp(h, port) => {
            assert(payload =~= host_wire(h) + (le_u16_bytes(port) + tail));
            lemma_host_model_round_trip(h, le_u16_bytes(port) + tail);
            let n = host_wire(h).len();
            let after = s.subrange(1 + n as int, s.len() as int);
            assert(after =~= le_u16_bytes(port) + tail);
            crate::bytes::lemma_le_u16(port);
            assert(after.subrange(0, 2) =~= le_u16_bytes(port));
            assert(le_u16_value(after) == le_u16_value(after.subrange(0, 2)));
        },
    }
}

/// Decoding the wire form of a local or UDP address, whatever bytes follow
/// it, gives the address back and consumes exactly the wire form.
pub proof fn lemma_address_round_trip(a: Address, tail: Seq<u8>)
    requires
        !(a is TcpAddress),
    ensures
        address_parse(address_wire(a@) + tail) == Ok::<(AddressModel, nat), CodecError>(
            (a@, address_wire(a@).len()),
        ),
{
    match a {
        Address::UdpAddress(_, ip, _) => lemma_host_valid(ip),
        _ => {},
    }
    lemma_address_model_round_trip(a@, tail);
}

/// A tag byte that names no address kind is refused as unknown, whatever
/// follows it.
pub proof fn lemma_address_unknown_tag(s: Seq<u8>)
    requires
        s.len() > 0,
        s[0] > 2,
    ensures
        address_parse(s) == Err::<(AddressModel, nat), CodecError>(CodecError::UnknownTag),
{
}

/// A TCP tag is refused as unsupported, whatever follows it.
pub proof fn lemma_address_tcp_unsupported(s: Seq<u8>)
    requires
        s.len() > 0,
        s[0] == 1,
    ensures
        address_parse(s) == Err::<(AddressModel, nat), CodecError>(CodecError::Unsupported),
{
}

/// Fewer than four bytes hold no local address.
pub proof fn lemma_local_truncated(s: Seq<u8>)
    requires
        s.len() < 4,
    ensures
        local_parse(s) == Err::<(u32, nat), CodecError>(CodecError::Truncated),
{
}

/// Every proper prefix of the wire form of a decodable address is reported
/// as truncated.
pub proof fn lemma_address_model_truncated(a: AddressModel, k: int)
    requires
        address_decodable(a),
        0 <= k < address_wire(a).len(),
    ensures
        address_parse(address_wire(a).take(k)) == Err::<(AddressModel, nat), CodecError>(
            CodecError::Truncated,
        ),
{
    let w = address_wire(a);
    let s = w.take(k);
    if k > 0 {
        let payload = s.subrange(1, s.len() as int);
        match a {
            AddressModel::Local(id) => {},
            AddressModel::Tcp(_, _) => {},
            AddressModel::Udp(h, port) => {
                let hw = host_wire(h);
                let n = hw.len();
                if k < 1 + n {
                    assert(payload =~= hw.take(k - 1));
                    match h {
                        HostModel::V4(o) => {},
                        HostModel::V6(o) => {},
                    }
                    assert(payload.len() == 0 || payload[0] == hw[0]);
                } else {
                    assert(payload =~= hw + le_u16_bytes(port).take(k - 1 - n));
                    lemma_host_model_round_trip(h, le_u16_bytes(port).take(k - 1 - n));
                }
            },
        }
    }
}

/// Every proper prefix of the wire form of a local or UDP address is
/// reported as truncated.
pub proof fn lemma_address_truncated(a: Address, k: int)
    requires
        !(a is TcpAddress),
        0 <= k < address_wire(a@).len(),
    ensures
        address_parse(address_wire(a@).take(k)) == Err::<(AddressModel, nat), CodecError>(
            CodecError::Truncated,
        ),
{
    match a {
        Address::UdpAddress(_, ip, _) => lemma_host_valid(ip),
        _ => {},
    }
    lemma_address_model_truncated(a@, k);
}

} // verus!
