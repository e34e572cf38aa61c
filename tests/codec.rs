use ockam_message::{Address, AddressType, Codec, IpHostAddress, LocalAddress, Message, Route};

#[test]
fn local_address_codec() {
    let local_in = LocalAddress {
        address: 0x00010203,
    };
    let mut v: Vec<u8> = vec![];
    LocalAddress::encode(&local_in, &mut v).unwrap();
    assert_eq!(v, [3, 2, 1, 0]);
    match LocalAddress::decode(&v) {
        Ok((local_out, _w)) => assert_eq!(
            local_out,
            LocalAddress {
                address: 0x00010203
            }
        ),
        Err(s) => {
            println!("{:?}", s);
        }
    }
}

#[test]
fn ip4_address_codec() {
    let mut v: Vec<u8> = vec![];
    let ip4a = IpHostAddress::V4([127, 0, 0, 1]);
    IpHostAddress::encode(&ip4a, &mut v).unwrap();
    assert_eq!(v, vec![0, 127, 0, 0, 1]);
    let v: Vec<u8> = vec![0, 127, 0, 0, 1];
    match IpHostAddress::decode(&v) {
        Ok((ip4a, _w)) => {
            assert_eq!(ip4a, IpHostAddress::V4([127, 0, 0, 1]));
        }
        Err(s) => {
            println!("{:?}", s);
        }
    }
}

#[test]
fn address_codec() {
    let address = Address::UdpAddress(AddressType::Udp, IpHostAddress::V4([127, 0, 0, 1]), 0x8080);
    let mut v: Vec<u8> = vec![];
    Address::encode(&address, &mut v).unwrap();
    assert_eq!(v, vec![2, 0, 127, 0, 0, 1, 0x80, 0x80]);
    let v = vec![2, 0, 127, 0, 0, 1, 0x80, 0x80];
    match Address::decode(&v) {
        Ok((address, _w)) => {
            assert_eq!(
                address,
                Address::UdpAddress(AddressType::Udp, IpHostAddress::V4([127, 0, 0, 1]), 0x8080)
            );
        }
        Err(s) => {
            println!("{:?}", s);
        }
    }
    let address = Address::LocalAddress(
        AddressType::Local,
        LocalAddress {
            address: 0x00010203,
        },
    );
    let mut v: Vec<u8> = vec![];
    Address::encode(&address, &mut v).unwrap();
    assert_eq!(v, vec![0, 3, 2, 1, 0]);
    let v = vec![0, 3, 2, 1, 0];
    match Address::decode(&v) {
        Ok((address, _w)) => {
            assert_eq!(
                address,
                Address::LocalAddress(
                    AddressType::Local,
                    LocalAddress {
                        address: 0x00010203
                    }
                )
            );
        }
        Err(s) => {
            println!("{:?}", s);
        }
    }
}

#[test]
fn route_codec() {
    let mut route: Route = Route { addresses: vec![] };
    route.addresses.push(Address::UdpAddress(
        AddressType::Udp,
        IpHostAddress::V4([127, 0, 0, 1]),
        0x8080,
    ));
    route.addresses.push(Address::UdpAddress(
        AddressType::Udp,
        IpHostAddress::V4([10, 0, 1, 10]),
        0x7070,
    ));
    route.addresses.push(Address::LocalAddress(
        AddressType::Local,
        LocalAddress {
            address: 0x00010203,
        },
    ));
    let mut v: Vec<u8> = vec![];
    Route::encode(&route, &mut v).unwrap();
    assert_eq!(
        v,
        vec![3, 2, 0, 127, 0, 0, 1, 0x80, 0x80, 2, 0, 10, 0, 1, 10, 0x70, 0x70, 0, 3, 2, 1, 0]
    );
    match Route::decode(&v) {
        Ok((r, _u)) => {
            assert_eq!(r.addresses.len(), 3);
            assert_eq!(
                r.addresses[0],
                Address::UdpAddress(AddressType::Udp, IpHostAddress::V4([127, 0, 0, 1]), 0x8080)
            );
            assert_eq!(
                r.addresses[1],
                Address::UdpAddress(AddressType::Udp, IpHostAddress::V4([10, 0, 1, 10]), 0x7070)
            );
            assert_eq!(
                r.addresses[2],
                Address::LocalAddress(
                    AddressType::Local,
                    LocalAddress {
                        address: 0x00010203
                    }
                )
            );
            assert_eq!(v.len(), 22);
        }
        Err(_s) => {
            panic!();
        }
    }
}

#[test]
fn u16_codec() {
    let mut u: Vec<u8> = vec![];
    let n: u16 = 0x7f;
    u16::encode(&n, &mut u).unwrap();
    assert_eq!(u.len(), 1);
    assert_eq!(u[0], 0x7f);
    match u16::decode(&u) {
        Ok((_m, v)) => {
            assert_eq!(u[0], 0x7f);
            assert_eq!(v.len(), 0);
        }
        Err(_s) => panic!(),
    }

    let too_big: u16 = 0xC000;
    let mut u: Vec<u8> = vec![];
    match u16::encode(&too_big, &mut u) {
        Ok(()) => panic!(),
        Err(_s) => {}
    }

    let n: u16 = 0x80;
    let mut u: Vec<u8> = vec![];
    u16::encode(&n, &mut u).unwrap();
    assert_eq!(u.len(), 2);
    assert_eq!(u[0], 0x80);
    assert_eq!(u[1], 0x01);
    match u16::decode(&u[0..]) {
        Ok((m, v)) => {
            assert_eq!(m, 0x80);
            assert_eq!(v.len(), 0);
        }
        Err(_e) => panic!(),
    }

    let n: u16 = 0x1300;
    let mut u: Vec<u8> = vec![];
    u16::encode(&n, &mut u).unwrap();
    assert_eq!(u.len(), 2);
    assert_eq!(u[1], 0x13 << 1);
    assert_eq!(u[0], 0x80);
    match u16::decode(&u[0..]) {
        Ok((m, v)) => {
            assert_eq!(m, 0x1300);
            assert_eq!(v.len(), 0);
        }
        Err(_e) => panic!(),
    }

    let n: u16 = 0x1381;
    let mut u: Vec<u8> = vec![];
    u16::encode(&n, &mut u).unwrap();
    assert_eq!(u.len(), 2);
    assert_eq!(u[1], (0x13 << 1) | 1);
    assert_eq!(u[0], 0x81);
    match u16::decode(&u[0..]) {
        Ok((m, v)) => {
            assert_eq!(m, 0x1381);
            assert_eq!(v.len(), 0);
        }
        Err(_e) => panic!(),
    }
}

#[test]
fn message_codec() {
    let mut onward_addresses: Vec<Address> = vec![];
    onward_addresses.push(Address::UdpAddress(
        AddressType::Udp,
        IpHostAddress::V4([127, 0, 0, 1]),
        0x8080,
    ));
    onward_addresses.push(Address::UdpAddress(
        AddressType::Udp,
        IpHostAddress::V4([10, 0, 1, 10]),
        0x7070,
    ));
    onward_addresses.push(Address::LocalAddress(
        AddressType::Local,
        LocalAddress {
            address: 0x00010203,
        },
    ));
    let mut return_addresses: Vec<Address> = vec![];
    return_addresses.push(Address::UdpAddress(
        AddressType::Udp,
        IpHostAddress::V4([127, 0, 0, 2]),
        0x8080,
    ));
    return_addresses.push(Address::UdpAddress(
        AddressType::Udp,
        IpHostAddress::V4([10, 0, 1, 11]),
        0x7070,
    ));
    return_addresses.push(Address::LocalAddress(
        AddressType::Local,
        LocalAddress {
            address: 0x00010203,
        },
    ));
    let onward_route = Route {
        addresses: onward_addresses,
    };
    let return_route = Route {
        addresses: return_addresses,
    };
    let message_body = vec![0];
    let msg = Message {
        onward_route,
        return_route,
        message_body,
    };
    let mut u: Vec<u8> = vec![];
    Message::encode(&msg, &mut u).unwrap();
    assert_eq!(
        u,
        vec![
            3, 2, 0, 127, 0, 0, 1, 0x80, 0x80, 2, 0, 10, 0, 1, 10, 0x70, 0x70, 0, 3, 2, 1, 0, 3, 2,
            0, 127, 0, 0, 2, 0x80, 0x80, 2, 0, 10, 0, 1, 11, 0x70, 0x70, 0, 3, 2, 1, 0, 0
        ]
    );

    match Message::decode(&u) {
        Ok((m, _v)) => {
            assert_eq!(m.onward_route.addresses.len(), 3);
            assert_eq!(
                m.onward_route.addresses[0],
                Address::UdpAddress(AddressType::Udp, IpHostAddress::V4([127, 0, 0, 1]), 0x8080)
            );
            assert_eq!(
                m.onward_route.addresses[1],
                Address::UdpAddress(AddressType::Udp, IpHostAddress::V4([10, 0, 1, 10]), 0x7070)
            );
            assert_eq!(
                m.onward_route.addresses[2],
                Address::LocalAddress(
                    AddressType::Local,
                    LocalAddress {
                        address: 0x00010203
                    }
                )
            );
            assert_eq!(m.return_route.addresses.len(), 3);
            assert_eq!(
                m.return_route.addresses[0],
                Address::UdpAddress(AddressType::Udp, IpHostAddress::V4([127, 0, 0, 2]), 0x8080)
            );
            assert_eq!(
                m.return_route.addresses[1],
                Address::UdpAddress(AddressType::Udp, IpHostAddress::V4([10, 0, 1, 11]), 0x7070)
            );
            assert_eq!(
                m.return_route.addresses[2],
                Address::LocalAddress(
                    AddressType::Local,
                    LocalAddress {
                        address: 0x00010203
                    }
                )
            );
            assert_eq!(m.message_body[0], 0);
        }
        Err(_e) => panic!(),
    }
}
