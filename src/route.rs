//! Routes: ordered hop lists of addresses behind a one-byte count.
use vstd::prelude::*;

use crate::address::{
    address_decodable, address_parse, address_wire, lemma_address_model_round_trip,
    lemma_address_model_truncated, lemma_host_valid, Address, AddressModel,
};
use crate::codec::{Codec, CodecError};

verus! {

/// The most addresses that a route can hold: its count is one byte.
pub const ROUTE_CAPACITY: usize = 255;

/// An ordered sequence of addresses, the hops of a path.
#[derive(Clone, Debug)]
pub struct Route {
    pub addresses: Vec<Address>,
}

/// What each address stands for, in order.
pub open spec fn addresses_view(a: Seq<Address>) -> Seq<AddressModel> {
    a.map_values(|x: Address| x@)
}

impl View for Route {
    type V = Seq<AddressModel>;

    open spec fn view(&self) -> Seq<AddressModel> {
        addresses_view(self.addresses@)
    }
}

impl Route {
    /// Every address of the route is well formed.
    pub open spec fn wf(&self) -> bool {
        forall|i: int| 0 <= i < self.addresses@.len() ==> (#[trigger] self.addresses@[i]).wf()
    }
}

/// The wire forms of the addresses, one after another.
pub open spec fn addresses_wire(a: Seq<AddressModel>) -> Seq<u8>
    decreases a.len(),
{
    if a.len() == 0 {
        Seq::empty()
    } else {
        addresses_wire(a.drop_last()) + address_wire(a.last())
    }
}

/// Whether the count fits in its byte.
pub open spec fn route_encodable(a: Seq<AddressModel>) -> bool {
    a.len() <= ROUTE_CAPACITY
}

/// The count, then each address in order.
pub open spec fn route_wire(a: Seq<AddressModel>) -> Seq<u8> {
    seq![a.len() as u8] + addresses_wire(a)
}

/// Reads `k` addresses one after another from the front of `s`: the
/// addresses and the bytes consumed, or the first error met.
pub open spec fn parse_addresses(s: Seq<u8>, k: nat) -> Result<(Seq<AddressModel>, nat), CodecError>
    decreases k,
{
    if k == 0 {
        Ok((Seq::empty(), 0))
    } else {
        match parse_addresses(s, (k - 1) as nat) {
            Ok((prev, n)) => match address_parse(s.subrange(n as int, s.len() as int)) {
                Ok((a, m)) => Ok((prev.push(a), n + m)),
                Err(e) => Err(e),
            },
            Err(e) => Err(e),
        }
    }
}

/// The route at the front of `s` and the bytes it takes; the first
/// address that fails to decode fails the route.
pub open spec fn route_parse(s: Seq<u8>) -> Result<(Seq<AddressModel>, nat), CodecError> {
    if s.len() == 0 {
        Err(CodecError::Truncated)
    } else {
        match parse_addresses(s.subrange(1, s.len() as int), s[0] as nat) {
            Ok((a, n)) => Ok((a, 1 + n)),
            Err(e) => Err(e),
        }
    }
}

/// Once reading addresses has failed, reading more fails the same way; when
/// it succeeds, it stays within the bytes given.
pub proof fn lemma_parse_addresses_steps(s: Seq<u8>, k: nat, j: nat)
    requires
        k <= j,
    ensures
        parse_addresses(s, k) is Err ==> parse_addresses(s, j) == parse_addresses(s, k),
        parse_addresses(s, k) matches Ok((a, n)) ==> a.len() == k && n <= s.len(),
    decreases j,
{
    if k < j {
        lemma_parse_addresses_steps(s, k, (j - 1) as nat);
    }
    if k > 0 {
        lemma_parse_addresses_steps(s, (k - 1) as nat, (k - 1) as nat);
    }
}

impl Codec for Route {
    type Inner = Route;

    open spec fn well_formed(t: &Route) -> bool {
        t.wf()
    }

    open spec fn encodable(t: Seq<AddressModel>) -> bool {
        route_encodable(t)
    }

    open spec fn wire(t: Seq<AddressModel>) -> Seq<u8> {
        route_wire(t)
    }

    open spec fn parse(s: Seq<u8>) -> Result<(Seq<AddressModel>, nat), CodecError> {
        route_parse(s)
    }

    fn encode(route: &Route, v: &mut Vec<u8>) -> (r: Result<(), CodecError>) {
        let len: usize = route.addresses.len();
        if len > ROUTE_CAPACITY {
            return Err(CodecError::RangeExceeded);
        }
        v.push(len as u8);
        let ghost a = route@;
        for i in 0..len
            invariant
                len == route.addresses@.len(),
                a == route@,
                v@ == old(v)@ + seq![len as u8] + addresses_wire(a.take(i as int)),
        {
            let _ = Address::encode(&route.addresses[i], v);
            assert(a.take(i + 1).drop_last() =~= a.take(i as int));
        }
        assert(a.take(len as int) =~= a);
        Ok(())
    }

    fn decode(s: &[u8]) -> (r: Result<(Route, &[u8]), CodecError>) {
        if s.len() == 0 {
            return Err(CodecError::Truncated);
        }
        let count: u8 = s[0];
        let ghost body = s@.subrange(1, s@.len() as int);
        let mut rest = vstd::slice::slice_subrange(s, 1, s.len());
        let mut addresses: Vec<Address> = Vec::new();
        let ghost mut n: nat = 0;
        let mut i: u8 = 0;
        assert(addresses_view(addresses@) =~= Seq::empty());
        while i < count
            invariant
                i <= count,
                s@.len() >= 1,
                count == s@[0],
                body == s@.subrange(1, s@.len() as int),
                parse_addresses(body, i as nat) == Ok::<(Seq<AddressModel>, nat), CodecError>(
                    (addresses_view(addresses@), n),
                ),
                n <= body.len(),
                rest@ == body.subrange(n as int, body.len() as int),
                forall|j: int| 0 <= j < addresses@.len() ==> (#[trigger] addresses@[j]).wf(),
            decreases count - i,
        {
            match Address::decode(rest) {
                Ok((a, after)) => {
                    let ghost m: nat = (rest@.len() - after@.len()) as nat;
                    proof {
                        assert(addresses_view(addresses@).push(a@) =~= addresses_view(
                            addresses@.push(a),
                        ));
                        assert(after@ =~= body.subrange(n + m as int, body.len() as int));
                        n = n + m;
                    }
                    addresses.push(a);
                    rest = after;
                },
                Err(e) => {
                    proof {
                        assert(parse_addresses(body, (i + 1) as nat) == Err::<
                            (Seq<AddressModel>, nat),
                            CodecError,
                        >(e));
                        lemma_parse_addresses_steps(body, (i + 1) as nat, count as nat);
                    }
                    return Err(e);
                },
            }
            i = i + 1;
        }
        assert(rest@ =~= s@.subrange(1 + n as int, s@.len() as int));
        Ok((Route { addresses }, rest))
    }

    open spec fn decodes_boxed() -> bool {
        false
    }

    fn decode_boxed(s: &[u8]) -> (r: Result<(Box<Route>, &[u8]), CodecError>) {
        Err(CodecError::Unsupported)
    }
}

/// Reading back the wire forms of decodable addresses, whatever bytes follow
/// them, gives the addresses and consumes exactly their bytes.
pub proof fn lemma_addresses_round_trip(a: Seq<AddressModel>, tail: Seq<u8>)
    requires
        forall|i: int| 0 <= i < a.len() ==> address_decodable(#[trigger] a[i]),
    ensures
        parse_addresses(addresses_wire(a) + tail, a.len()) == Ok::<
            (Seq<AddressModel>, nat),
            CodecError,
        >((a, addresses_wire(a).len())),
    decreases a.len(),
{
    if a.len() > 0 {
        let init = a.drop_last();
        let last = a.last();
        let rest = address_wire(last) + tail;
        let s = addresses_wire(a) + tail;
        assert(s =~= addresses_wire(init) + rest);
        assert forall|i: int| 0 <= i < init.len() implies address_decodable(#[trigger] init[i]) by {
            assert(init[i] == a[i]);
        }
        lemma_addresses_round_trip(init, rest);
        assert(s.subrange(addresses_wire(init).len() as int, s.len() as int) =~= rest);
        assert(address_decodable(a[a.len() - 1]));
        lemma_address_model_round_trip(last, tail);
        assert(init.push(last) =~= a);
        assert(addresses_wire(a).len() == addresses_wire(init).len() + address_wire(last).len());
    } else {
        assert(a =~= Seq::empty());
    }
}

/// The addresses of a route without TCP addresses all decode.
proof fn lemma_route_decodable(r: Route)
    requires
        forall|i: int| 0 <= i < r.addresses@.len() ==> !(#[trigger] r.addresses@[i] is TcpAddress),
    ensures
        forall|i: int| 0 <= i < r@.len() ==> address_decodable(#[trigger] r@[i]),
{
    assert forall|i: int| 0 <= i < r@.len() implies address_decodable(#[trigger] r@[i]) by {
        let x = r.addresses@[i];
        match x {
            Address::UdpAddress(_, ip, _) => lemma_host_valid(ip),
            _ => {},
        }
    }
}

/// A route of at most `ROUTE_CAPACITY` addresses, none of them TCP, decodes
/// from its wire form, whatever bytes follow it, to the same addresses in
/// the same order, consuming exactly the wire form.
pub proof fn lemma_route_round_trip(r: Route, tail: Seq<u8>)
    requires
        r.addresses@.len() <= ROUTE_CAPACITY,
        forall|i: int| 0 <= i < r.addresses@.len() ==> !(#[trigger] r.addresses@[i] is TcpAddress),
    ensures
        route_parse(route_wire(r@) + tail) == Ok::<(Seq<AddressModel>, nat), CodecError>(
            (r@, route_wire(r@).len()),
        ),
{
    let a = r@;
    lemma_route_decodable(r);
    let s = route_wire(a) + tail;
    assert(s.subrange(1, s.len() as int) =~= addresses_wire(a) + tail);
    lemma_addresses_round_trip(a, tail);
}

/// Reading as many addresses as were written from a proper prefix of their
/// wire forms is reported as truncated.
pub proof fn lemma_addresses_truncated(a: Seq<AddressModel>, j: int)
    requires
        forall|i: int| 0 <= i < a.len() ==> address_decodable(#[trigger] a[i]),
        0 <= j < addresses_wire(a).len(),
    ensures
        parse_addresses(addresses_wire(a).take(j), a.len()) == Err::<
            (Seq<AddressModel>, nat),
            CodecError,
        >(CodecError::Truncated),
    decreases a.len(),
{
    let init = a.drop_last();
    let last = a.last();
    let wi = addresses_wire(init);
    let p = addresses_wire(a).take(j);
    assert forall|i: int| 0 <= i < init.len() implies address_decodable(#[trigger] init[i]) by {
        assert(init[i] == a[i]);
    }
    assert(address_decodable(a[a.len() - 1]));
    if j < wi.len() {
        assert(p =~= wi.take(j));
        lemma_addresses_truncated(init, j);
        lemma_parse_addresses_steps(p, init.len(), a.len());
    } else {
        let cut = address_wire(last).take(j - wi.len());
        assert(p =~= wi + cut);
        lemma_addresses_round_trip(init, cut);
        assert(p.subrange(wi.len() as int, p.len() as int) =~= cut);
        lemma_address_model_truncated(last, j - wi.len());
    }
}

/// Every proper prefix of the wire form of a route of at most
/// `ROUTE_CAPACITY` addresses, none of them TCP, is reported as truncated.
pub proof fn lemma_route_truncated(r: Route, j: int)
    requires
        r.addresses@.len() <= ROUTE_CAPACITY,
        forall|i: int| 0 <= i < r.addresses@.len() ==> !(#[trigger] r.addresses@[i] is TcpAddress),
        0 <= j < route_wire(r@).len(),
    ensures
        route_parse(route_wire(r@).take(j)) == Err::<(Seq<AddressModel>, nat), CodecError>(
            CodecError::Truncated,
        ),
{
    let a = r@;
    lemma_route_decodable(r);
    if j > 0 {
        let p = route_wire(a).take(j);
        assert(p.subrange(1, p.len() as int) =~= addresses_wire(a).take(j - 1));
        lemma_addresses_truncated(a, j - 1);
    }
}

} // verus!
