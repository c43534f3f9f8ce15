use rpcbind_rs::error::{AcceptedStatusError, RPCError};
use rpcbind_rs::netconfig::{parse_netconfig, NetConfigEntry};
use rpcbind_rs::process_request::{
    portmapper, process_request, process_request_at, rpcbind, serialize_bool, serialize_string,
    serialize_u32, ProcessError,
};
use rpcbind_rs::request::{PortMapperRequest, RpcBindRequest, RpcRequest};
use rpcbind_rs::state::{ProgramDescription, ProgramKey, Registry};
use rpcbind_rs::universal_address::{Ipv4Addr, SocketAddrV4};
use rpcbind_rs::xdr_types::port_mapper::{CallArgs, Mapping};
use rpcbind_rs::xdr_types::rpcbind::{NetBuf, RmtCallArgs, RPCB};

const TRUE: [u8; 4] = [0, 0, 0, 1];
const FALSE: [u8; 4] = [0, 0, 0, 0];

fn garbage<T>() -> Result<T, RPCError> {
    Err(RPCError::Accepted(AcceptedStatusError::GarbageArgs))
}

fn net_config() -> Vec<NetConfigEntry> {
    parse_netconfig(
        "udp tpi_clts v inet udp - -\ntcp tpi_cots_ord v inet tcp - -\nlocal tpi_cots - loopback - - -\n",
    )
    .unwrap()
}

fn key(program: u32, version: u32, net_id: &str) -> ProgramKey {
    ProgramKey { program, version, net_id: net_id.to_string() }
}

fn rpcb(prog: u32, vers: u32, netid: &str, addr: &str, owner: &str) -> RPCB {
    RPCB {
        r_prog: prog,
        r_vers: vers,
        r_netid: netid.to_string(),
        r_addr: addr.to_string(),
        r_owner: owner.to_string(),
    }
}

fn text(value: &str) -> Vec<u8> {
    let mut out = (value.len() as u32).to_be_bytes().to_vec();
    out.extend_from_slice(value.as_bytes());
    while out.len() % 4 != 0 {
        out.push(0);
    }
    out
}

#[test]
fn results_are_encoded_as_words_and_texts() {
    assert_eq!(serialize_bool(true), Ok(TRUE.to_vec()));
    assert_eq!(serialize_bool(false), Ok(FALSE.to_vec()));
    assert_eq!(serialize_u32(2049), Ok(vec![0, 0, 8, 1]));
    assert_eq!(serialize_string("ab"), Ok(vec![0, 0, 0, 2, b'a', b'b', 0, 0]));
}

#[test]
fn set_twice_keeps_the_first_value() {
    let mut state = Registry::new();
    let first = Mapping { prog: 100003, vers: 3, prot: 6, port: 2049 };
    let second = Mapping { prog: 100003, vers: 3, prot: 6, port: 4000 };
    assert_eq!(portmapper::set(&mut state, &first), Ok(TRUE.to_vec()));
    assert_eq!(portmapper::set(&mut state, &second), Ok(FALSE.to_vec()));
    assert_eq!(portmapper::get_port(&state, &second), Ok(vec![0, 0, 8, 1]));
    assert_eq!(
        state.get(&key(100003, 3, "tcp")),
        Some(&ProgramDescription {
            addr: SocketAddrV4::new(Ipv4Addr::unspecified(), 2049),
            owner: None,
        })
    );

    assert_eq!(portmapper::unset(&mut state, &first), Ok(TRUE.to_vec()));
    assert_eq!(portmapper::set(&mut state, &second), Ok(TRUE.to_vec()));
    assert_eq!(portmapper::get_port(&state, &first), Ok(vec![0, 0, 0x0f, 0xa0]));
}

#[test]
fn set_with_a_port_above_sixteen_bits_is_garbage() {
    let mut state = Registry::new();
    let mapping = Mapping { prog: 1, vers: 1, prot: 6, port: 65536 };
    assert_eq!(portmapper::set(&mut state, &mapping), garbage());
    assert_eq!(state.len(), 0);
    let mapping = Mapping { prog: 1, vers: 1, prot: 6, port: 65535 };
    assert_eq!(portmapper::set(&mut state, &mapping), Ok(TRUE.to_vec()));
    assert_eq!(portmapper::get_port(&state, &mapping), Ok(vec![0, 0, 0xff, 0xff]));
}

#[test]
fn port_mapper_unset_ignores_the_protocol_and_always_answers_true() {
    let mut state = Registry::new();
    let tcp = Mapping { prog: 5, vers: 1, prot: 6, port: 10 };
    let udp = Mapping { prog: 5, vers: 1, prot: 17, port: 11 };
    let other = Mapping { prog: 5, vers: 2, prot: 6, port: 12 };
    assert_eq!(portmapper::set(&mut state, &tcp), Ok(TRUE.to_vec()));
    assert_eq!(portmapper::set(&mut state, &udp), Ok(TRUE.to_vec()));
    assert_eq!(portmapper::set(&mut state, &other), Ok(TRUE.to_vec()));
    let any = Mapping { prog: 5, vers: 1, prot: 99, port: 0 };
    assert_eq!(portmapper::unset(&mut state, &any), Ok(TRUE.to_vec()));
    assert_eq!(state.len(), 1);
    assert_eq!(portmapper::get_port(&state, &tcp), Ok(FALSE.to_vec()));
    assert_eq!(portmapper::get_port(&state, &udp), Ok(FALSE.to_vec()));
    assert_eq!(portmapper::get_port(&state, &other), Ok(vec![0, 0, 0, 12]));
    assert_eq!(portmapper::unset(&mut state, &any), Ok(TRUE.to_vec()));
    assert_eq!(state.len(), 1);
}

#[test]
fn get_port_miss_returns_zero() {
    let mut state = Registry::new();
    let mapping = Mapping { prog: 100003, vers: 3, prot: 6, port: 0 };
    assert_eq!(portmapper::get_port(&state, &mapping), Ok(vec![0, 0, 0, 0]));
    let request = RpcRequest::V2(PortMapperRequest::GetPort(mapping));
    assert_eq!(process_request(&request, &mut state, &[]), Ok(vec![0, 0, 0, 0]));
    let udp = Mapping { prog: 100003, vers: 3, prot: 17, port: 2049 };
    portmapper::set(&mut state, &udp).unwrap();
    assert_eq!(portmapper::get_port(&state, &mapping), Ok(vec![0, 0, 0, 0]));
    assert_eq!(portmapper::get_port(&state, &udp), Ok(vec![0, 0, 8, 1]));
}

#[test]
fn port_mapper_dump_of_an_empty_registry_is_the_terminator() {
    let state = Registry::new();
    assert_eq!(portmapper::dump(&state, &net_config()), Ok(vec![0, 0, 0, 0]));
    assert_eq!(portmapper::dump(&state, &[]), Ok(vec![0, 0, 0, 0]));
}

#[test]
fn port_mapper_dump_lists_the_mappings_in_order() {
    let mut state = Registry::new();
    rpcbind::set(&mut state, &rpcb(100003, 3, "tcp", "10.0.0.1.8.1", "")).unwrap();
    rpcbind::set(&mut state, &rpcb(100005, 1, "tcp6", "10.0.0.1.0.9", "")).unwrap();
    rpcbind::set(&mut state, &rpcb(100003, 3, "udp", "10.0.0.1.8.2", "")).unwrap();
    rpcbind::set(&mut state, &rpcb(100021, 4, "local", "10.0.0.1.0.1", "")).unwrap();
    let expected = vec![
        0, 0, 0, 1, 0, 1, 0x86, 0xa3, 0, 0, 0, 3, 0, 0, 0, 6, 0, 0, 8, 1, //
        0, 0, 0, 1, 0, 1, 0x86, 0xa3, 0, 0, 0, 3, 0, 0, 0, 17, 0, 0, 8, 2, //
        0, 0, 0, 0,
    ];
    assert_eq!(portmapper::dump(&state, &net_config()), Ok(expected));
    assert_eq!(portmapper::dump(&state, &[]), Ok(vec![0, 0, 0, 0]));
}

#[test]
fn port_mapper_requests_are_dispatched() {
    let mut state = Registry::new();
    let config = net_config();
    let mapping = Mapping { prog: 9, vers: 1, prot: 17, port: 53 };
    assert_eq!(portmapper::process_request(&PortMapperRequest::Null, &mut state, &config), Ok(vec![]));
    assert_eq!(
        portmapper::process_request(&PortMapperRequest::SetMapping(mapping), &mut state, &config),
        Ok(TRUE.to_vec())
    );
    assert_eq!(
        portmapper::process_request(&PortMapperRequest::GetPort(mapping), &mut state, &config),
        Ok(vec![0, 0, 0, 53])
    );
    assert_eq!(
        portmapper::process_request(&PortMapperRequest::Dump, &mut state, &config),
        Ok(vec![0, 0, 0, 1, 0, 0, 0, 9, 0, 0, 0, 1, 0, 0, 0, 17, 0, 0, 0, 53, 0, 0, 0, 0])
    );
    assert_eq!(
        portmapper::process_request(&PortMapperRequest::Unset(mapping), &mut state, &config),
        Ok(TRUE.to_vec())
    );
    assert_eq!(state.len(), 0);
    let too_big = Mapping { prog: 9, vers: 1, prot: 17, port: 1 << 20 };
    assert_eq!(
        portmapper::process_request(&PortMapperRequest::SetMapping(too_big), &mut state, &config),
        Err(ProcessError::Reply(RPCError::Accepted(AcceptedStatusError::GarbageArgs)))
    );
    let call_it = PortMapperRequest::CallIt(CallArgs { prog: 1, vers: 1, proc: 1, args: vec![] });
    assert_eq!(
        portmapper::process_request(&call_it, &mut state, &config),
        Err(ProcessError::NotYetImplemented)
    );
}

#[test]
fn rpcbind_set_stores_the_address_and_the_owner() {
    let mut state = Registry::new();
    assert_eq!(
        rpcbind::set(&mut state, &rpcb(100003, 3, "tcp", "1.35.69.103.179.162", "nfs")),
        Ok(TRUE.to_vec())
    );
    assert_eq!(
        state.get(&key(100003, 3, "tcp")),
        Some(&ProgramDescription {
            addr: SocketAddrV4::new(Ipv4Addr::new(1, 35, 69, 103), 0xb3a2),
            owner: Some("nfs".to_string()),
        })
    );
    assert_eq!(
        rpcbind::set(&mut state, &rpcb(100003, 3, "udp", "1.2.3.4.0.1", "")),
        Ok(TRUE.to_vec())
    );
    assert_eq!(state.get(&key(100003, 3, "udp")).unwrap().owner, None);
    assert_eq!(
        rpcbind::set(&mut state, &rpcb(100003, 3, "tcp", "9.9.9.9.9.9", "x")),
        Ok(FALSE.to_vec())
    );
    assert_eq!(
        rpcbind::get_addr(&rpcb(100003, 3, "tcp", "", ""), &state),
        Ok(text("1.35.69.103.179.162"))
    );
}

#[test]
fn rpcbind_set_with_a_malformed_address_is_garbage() {
    let mut state = Registry::new();
    for addr in ["", "1.2.3.4", "1.2.3.4.5", "1.2.3.4.5.256", "localhost", "1.2.3.4.5.x"] {
        assert_eq!(rpcbind::set(&mut state, &rpcb(1, 1, "tcp", addr, "")), garbage());
    }
    assert_eq!(state.len(), 0);
    assert_eq!(
        rpcbind::process_request(&RpcBindRequest::SetBinding(rpcb(1, 1, "tcp", "bad", "")), &mut state),
        Err(ProcessError::Reply(RPCError::Accepted(AcceptedStatusError::GarbageArgs)))
    );
}

#[test]
fn rpcbind_unset_scoping() {
    let fill = |state: &mut Registry| {
        rpcbind::set(state, &rpcb(7, 2, "tcp", "1.1.1.1.0.1", "")).unwrap();
        rpcbind::set(state, &rpcb(7, 2, "udp", "2.2.2.2.0.2", "")).unwrap();
    };
    let mut state = Registry::new();
    fill(&mut state);
    assert_eq!(rpcbind::unset(&mut state, &rpcb(7, 2, "", "", "")), Ok(TRUE.to_vec()));
    assert_eq!(state.len(), 0);
    assert_eq!(rpcbind::unset(&mut state, &rpcb(7, 2, "", "", "")), Ok(FALSE.to_vec()));

    let mut state = Registry::new();
    fill(&mut state);
    assert_eq!(rpcbind::unset(&mut state, &rpcb(7, 2, "tcp", "", "")), Ok(TRUE.to_vec()));
    assert_eq!(state.len(), 1);
    assert_eq!(state.get(&key(7, 2, "tcp")), None);
    assert_eq!(
        state.get(&key(7, 2, "udp")).map(|d| d.addr),
        Some(SocketAddrV4::new(Ipv4Addr::new(2, 2, 2, 2), 2))
    );
    assert_eq!(rpcbind::unset(&mut state, &rpcb(7, 2, "tcp", "", "")), Ok(FALSE.to_vec()));
    assert_eq!(rpcbind::unset(&mut state, &rpcb(7, 3, "udp", "", "")), Ok(FALSE.to_vec()));
    assert_eq!(rpcbind::unset(&mut state, &rpcb(7, 3, "", "", "")), Ok(FALSE.to_vec()));
    assert_eq!(state.len(), 1);
}

#[test]
fn get_addr_miss_returns_the_empty_text() {
    let mut state = Registry::new();
    assert_eq!(rpcbind::get_addr(&rpcb(1, 1, "tcp", "", ""), &state), Ok(vec![0, 0, 0, 0]));
    rpcbind::set(&mut state, &rpcb(1, 1, "tcp", "127.0.0.1.0.111", "")).unwrap();
    assert_eq!(rpcbind::get_addr(&rpcb(1, 1, "udp", "", ""), &state), Ok(vec![0, 0, 0, 0]));
    assert_eq!(
        rpcbind::get_addr(&rpcb(1, 1, "tcp", "", ""), &state),
        Ok(text("127.0.0.1.0.111"))
    );
}

#[test]
fn rpcbind_dump_lists_every_binding_in_order() {
    let mut state = Registry::new();
    assert_eq!(rpcbind::dump(&state), Ok(vec![0, 0, 0, 0]));
    rpcbind::set(&mut state, &rpcb(100003, 3, "tcp", "10.0.0.1.8.1", "nfs")).unwrap();
    rpcbind::set(&mut state, &rpcb(100021, 4, "local", "0.0.0.0.0.0", "")).unwrap();
    let mut expected = vec![0, 0, 0, 1, 0, 1, 0x86, 0xa3, 0, 0, 0, 3];
    expected.extend(text("tcp"));
    expected.extend(text("10.0.0.1.8.1"));
    expected.extend(text("nfs"));
    expected.extend([0, 0, 0, 1, 0, 1, 0x86, 0xb5, 0, 0, 0, 4]);
    expected.extend(text("local"));
    expected.extend(text("0.0.0.0.0.0"));
    expected.extend(text(""));
    expected.extend([0, 0, 0, 0]);
    assert_eq!(rpcbind::dump(&state), Ok(expected.clone()));
    assert_eq!(rpcbind::process_request(&RpcBindRequest::Dump, &mut state), Ok(expected));
}

#[test]
fn get_time_answers_the_low_word_of_the_seconds() {
    assert_eq!(rpcbind::get_time(Some(0)), Ok(vec![0, 0, 0, 0]));
    assert_eq!(rpcbind::get_time(Some(1_700_000_000)), Ok(vec![0x65, 0x53, 0xf1, 0x00]));
    assert_eq!(rpcbind::get_time(Some(u32::MAX as u64)), Ok(vec![0xff, 0xff, 0xff, 0xff]));
    assert_eq!(rpcbind::get_time(Some(u32::MAX as u64 + 1)), Ok(vec![0, 0, 0, 0]));
    assert_eq!(rpcbind::get_time(Some(0x1_0000_0000 + 0x0102_0304)), Ok(vec![1, 2, 3, 4]));
    assert_eq!(rpcbind::get_time(Some(u64::MAX)), Ok(vec![0xff, 0xff, 0xff, 0xff]));
    assert_eq!(
        rpcbind::get_time(None),
        Err(RPCError::Accepted(AcceptedStatusError::SystemError))
    );
}

#[test]
fn get_time_reads_the_clock() {
    let mut state = Registry::new();
    let before = std::time::SystemTime::now()
        .duration_since(std::time::UNIX_EPOCH)
        .unwrap()
        .as_secs();
    let answer = rpcbind::process_request(&RpcBindRequest::GetTime, &mut state).unwrap();
    let after = rpcbind::seconds_since_epoch().unwrap();
    assert_eq!(answer.len(), 4);
    let seconds = u32::from_be_bytes([answer[0], answer[1], answer[2], answer[3]]) as u64;
    assert!(before <= seconds && seconds <= after);
    assert!(seconds > 1_600_000_000);
    let request = RpcRequest::V4(RpcBindRequest::GetTime);
    assert_eq!(
        process_request_at(&request, &mut state, &[], Some(5)),
        Ok(vec![0, 0, 0, 5])
    );
    assert!(RpcBindRequest::GetTime.asks_time());
    assert!(!RpcBindRequest::Dump.asks_time());
}

#[test]
fn get_stat_is_never_available() {
    let mut state = Registry::new();
    let unavailable =
        Err(ProcessError::Reply(RPCError::Accepted(AcceptedStatusError::ProcedureUnavailable)));
    assert_eq!(rpcbind::process_request(&RpcBindRequest::GetStat, &mut state), unavailable);
    rpcbind::set(&mut state, &rpcb(1, 1, "tcp", "1.1.1.1.1.1", "")).unwrap();
    assert_eq!(
        process_request(&RpcRequest::V3(RpcBindRequest::GetStat), &mut state, &[]),
        unavailable
    );
    assert_eq!(
        process_request(&RpcRequest::V4(RpcBindRequest::GetStat), &mut state, &[]),
        unavailable
    );
    assert_eq!(state.len(), 1);
}

#[test]
fn procedures_without_a_handler_are_not_yet_implemented() {
    let mut state = Registry::new();
    let requests = vec![
        RpcBindRequest::UADDR2TADDR("1.2.3.4.5.6".to_string()),
        RpcBindRequest::TADDR2UADDR(NetBuf { maxlen: 0, buf: vec![] }),
        RpcBindRequest::GETVERSADDR(rpcb(1, 1, "tcp", "", "")),
        RpcBindRequest::Indirect(RmtCallArgs { prog: 1, vers: 1, proc: 1, args: vec![] }),
        RpcBindRequest::GetAddrList(rpcb(1, 1, "tcp", "", "")),
    ];
    for request in requests {
        assert_eq!(
            rpcbind::process_request(&request, &mut state),
            Err(ProcessError::NotYetImplemented)
        );
    }
    assert_eq!(state.len(), 0);
}

#[test]
fn both_versions_share_one_registry() {
    let mut state = Registry::new();
    let config = net_config();
    let set = RpcRequest::V2(PortMapperRequest::SetMapping(Mapping {
        prog: 100003,
        vers: 3,
        prot: 6,
        port: 2049,
    }));
    assert_eq!(process_request(&set, &mut state, &config), Ok(TRUE.to_vec()));
    let get = RpcRequest::V4(RpcBindRequest::GetAddr(rpcb(100003, 3, "tcp", "", "")));
    assert_eq!(process_request(&get, &mut state, &config), Ok(text("0.0.0.0.8.1")));
    let unset = RpcRequest::V3(RpcBindRequest::Unset(rpcb(100003, 3, "", "", "")));
    assert_eq!(process_request(&unset, &mut state, &config), Ok(TRUE.to_vec()));
    let port = RpcRequest::V2(PortMapperRequest::GetPort(Mapping {
        prog: 100003,
        vers: 3,
        prot: 6,
        port: 0,
    }));
    assert_eq!(process_request(&port, &mut state, &config), Ok(FALSE.to_vec()));
}
