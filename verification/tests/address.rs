use rpcbind_rs::error::AcceptedStatusError;
use rpcbind_rs::state::ProgramDescription;
use rpcbind_rs::universal_address::{
    decode_universal_address, encode_universal_address, Ipv4Addr, SocketAddrV4,
};

#[test]
fn address_decoder_test() {
    let test_addr = SocketAddrV4::new(Ipv4Addr::new(0x01, 0x23, 0x45, 0x67), 0xB3A2);
    let description = ProgramDescription {
        addr: test_addr,
        owner: None,
    };

    let universal_address = description.universal_address();
    assert_eq!(universal_address, "1.35.69.103.179.162");

    let decoded_addr = decode_universal_address(&universal_address).unwrap();

    assert_eq!(test_addr, decoded_addr);
}

#[test]
fn address_encodes_without_leading_zeros() {
    let addr = SocketAddrV4::new(Ipv4Addr::new(0, 10, 100, 255), 111);
    assert_eq!(encode_universal_address(&addr), "0.10.100.255.0.111");
    let addr = SocketAddrV4::new(Ipv4Addr::unspecified(), 0);
    assert_eq!(encode_universal_address(&addr), "0.0.0.0.0.0");
    let addr = SocketAddrV4::new(Ipv4Addr::new(255, 255, 255, 255), 65535);
    assert_eq!(encode_universal_address(&addr), "255.255.255.255.255.255");
}

#[test]
fn address_round_trip_over_many_values() {
    let mut port: u32 = 0;
    while port <= 65535 {
        let a = (port % 256) as u8;
        let b = (port / 256) as u8;
        let addr = SocketAddrV4::new(Ipv4Addr::new(a, b, a ^ b, 255 - a), port as u16);
        let text = encode_universal_address(&addr);
        assert_eq!(decode_universal_address(&text), Ok(addr));
        port += 97;
    }
}

#[test]
fn address_octets_and_parts() {
    let ip = Ipv4Addr::new(192, 168, 1, 7);
    assert_eq!(ip.octets(), [192, 168, 1, 7]);
    let addr = SocketAddrV4::new(ip, 2049);
    assert_eq!(addr.ip(), ip);
    assert_eq!(addr.port(), 2049);
}

#[test]
fn address_port_is_big_endian() {
    assert_eq!(
        decode_universal_address("10.0.0.1.1.2"),
        Ok(SocketAddrV4::new(Ipv4Addr::new(10, 0, 0, 1), 258))
    );
}

#[test]
fn address_with_missing_part_is_garbage() {
    assert_eq!(decode_universal_address(""), Err(AcceptedStatusError::GarbageArgs));
    assert_eq!(decode_universal_address("1.2.3.4"), Err(AcceptedStatusError::GarbageArgs));
    assert_eq!(decode_universal_address("1.2.3.4.5"), Err(AcceptedStatusError::GarbageArgs));
    assert_eq!(decode_universal_address("1.2.3.4.5."), Err(AcceptedStatusError::GarbageArgs));
    assert_eq!(decode_universal_address("1..3.4.5.6"), Err(AcceptedStatusError::GarbageArgs));
}

#[test]
fn address_with_part_that_is_no_byte_is_garbage() {
    assert_eq!(decode_universal_address("256.2.3.4.5.6"), Err(AcceptedStatusError::GarbageArgs));
    assert_eq!(decode_universal_address("1.2.3.4.5.300"), Err(AcceptedStatusError::GarbageArgs));
    assert_eq!(decode_universal_address("a.2.3.4.5.6"), Err(AcceptedStatusError::GarbageArgs));
    assert_eq!(decode_universal_address("-1.2.3.4.5.6"), Err(AcceptedStatusError::GarbageArgs));
    assert_eq!(decode_universal_address("1.2.3.4.5.6 "), Err(AcceptedStatusError::GarbageArgs));
    assert_eq!(decode_universal_address("+.2.3.4.5.6"), Err(AcceptedStatusError::GarbageArgs));
    assert_eq!(decode_universal_address("++1.2.3.4.5.6"), Err(AcceptedStatusError::GarbageArgs));
    assert_eq!(
        decode_universal_address("99999999999999999999.2.3.4.5.6"),
        Err(AcceptedStatusError::GarbageArgs)
    );
}

#[test]
fn address_parts_read_as_the_standard_library_reads_bytes() {
    let expected = SocketAddrV4::new(Ipv4Addr::new(1, 2, 3, 4), 5 * 256 + 6);
    assert_eq!(decode_universal_address("+1.2.3.4.5.6"), Ok(expected));
    assert_eq!(decode_universal_address("001.2.3.4.5.0006"), Ok(expected));
    for token in ["", "+", "-", "0", "+0", "00", "255", "256", "0255", "+255", "1a", " 1", "٣"] {
        let text = format!("{}.2.3.4.5.6", token);
        let ours = decode_universal_address(&text).ok().map(|a| a.ip().octets()[0]);
        assert_eq!(ours, token.parse::<u8>().ok(), "token {:?}", token);
    }
}

#[test]
fn address_parts_behind_the_sixth_are_not_looked_at() {
    let expected = SocketAddrV4::new(Ipv4Addr::new(1, 2, 3, 4), 5 * 256 + 6);
    assert_eq!(decode_universal_address("1.2.3.4.5.6.7"), Ok(expected));
    assert_eq!(decode_universal_address("1.2.3.4.5.6.x.y"), Ok(expected));
    assert_eq!(decode_universal_address("1.2.3.4.5.6."), Ok(expected));
    assert_eq!(decode_universal_address("1.2.3.4.5.6.é"), Ok(expected));
}
