use rpcbind_rs::netconfig::{netconfig_optional, parse_netconfig, NetConfigEntry, NetConfigError};
use rpcbind_rs::state::{
    make_rpcb, prot_netid, protocol_number, seed, ProgramDescription, ProgramKey, Registry,
};
use rpcbind_rs::universal_address::{Ipv4Addr, SocketAddrV4};
use rpcbind_rs::xdr_types::port_mapper::Mapping;
use rpcbind_rs::xdr_types::rpcbind::RPCB;

fn key(program: u32, version: u32, net_id: &str) -> ProgramKey {
    ProgramKey { program, version, net_id: net_id.to_string() }
}

fn description(last: u8, port: u16, owner: Option<&str>) -> ProgramDescription {
    ProgramDescription {
        addr: SocketAddrV4::new(Ipv4Addr::new(10, 0, 0, last), port),
        owner: owner.map(|o| o.to_string()),
    }
}

fn keys_of(registry: &Registry) -> Vec<ProgramKey> {
    (0..registry.len()).map(|i| registry.entry(i).0.clone()).collect()
}

#[test]
fn registry_starts_empty() {
    let registry = Registry::new();
    assert_eq!(registry.len(), 0);
    assert_eq!(registry.get(&key(1, 2, "tcp")), None);
}

#[test]
fn registry_set_is_idempotent() {
    let mut registry = Registry::new();
    let k = key(100003, 3, "tcp");
    assert!(registry.insert_if_absent(k.clone(), description(1, 2049, None)));
    assert!(!registry.insert_if_absent(k.clone(), description(2, 9999, Some("other"))));
    assert_eq!(registry.len(), 1);
    assert_eq!(registry.get(&k), Some(&description(1, 2049, None)));

    assert_eq!(registry.remove(&k), Some(description(1, 2049, None)));
    assert_eq!(registry.get(&k), None);
    assert!(registry.insert_if_absent(k.clone(), description(2, 9999, Some("other"))));
    assert_eq!(registry.get(&k), Some(&description(2, 9999, Some("other"))));
}

#[test]
fn registry_keys_differ_in_any_of_three_parts() {
    let mut registry = Registry::new();
    assert!(registry.insert_if_absent(key(1, 1, "tcp"), description(1, 1, None)));
    assert!(registry.insert_if_absent(key(1, 1, "udp"), description(2, 2, None)));
    assert!(registry.insert_if_absent(key(1, 2, "tcp"), description(3, 3, None)));
    assert!(registry.insert_if_absent(key(2, 1, "tcp"), description(4, 4, None)));
    assert!(!registry.insert_if_absent(key(1, 1, "udp"), description(5, 5, None)));
    assert_eq!(registry.len(), 4);
    assert_eq!(registry.get(&key(1, 1, "udp")), Some(&description(2, 2, None)));
    assert_eq!(registry.get(&key(2, 1, "tcp")), Some(&description(4, 4, None)));
    assert_eq!(registry.get(&key(2, 2, "tcp")), None);
    assert_eq!(registry.get(&key(1, 1, "")), None);
}

#[test]
fn registry_keeps_the_order_of_registration() {
    let mut registry = Registry::new();
    for (i, net_id) in ["tcp", "udp", "tcp6", "udp6", "local"].iter().enumerate() {
        assert!(registry.insert_if_absent(key(7, 1, net_id), description(i as u8, 100, None)));
    }
    assert_eq!(registry.remove(&key(7, 1, "tcp6")), Some(description(2, 100, None)));
    assert_eq!(registry.remove(&key(7, 1, "none")), None);
    assert_eq!(
        keys_of(&registry),
        vec![key(7, 1, "tcp"), key(7, 1, "udp"), key(7, 1, "udp6"), key(7, 1, "local")]
    );
    let (k, d) = registry.entry(2);
    assert_eq!(k, &key(7, 1, "udp6"));
    assert_eq!(d, &description(3, 100, None));
}

#[test]
fn registry_remove_matching_takes_every_transport() {
    let mut registry = Registry::new();
    registry.insert_if_absent(key(1, 1, "tcp"), description(1, 1, None));
    registry.insert_if_absent(key(2, 1, "tcp"), description(2, 2, None));
    registry.insert_if_absent(key(1, 1, "udp"), description(3, 3, None));
    registry.insert_if_absent(key(1, 2, "tcp"), description(4, 4, None));
    registry.insert_if_absent(key(1, 1, "icmp"), description(5, 5, None));
    assert_eq!(registry.remove_matching(1, 1), 3);
    assert_eq!(keys_of(&registry), vec![key(2, 1, "tcp"), key(1, 2, "tcp")]);
    assert_eq!(registry.remove_matching(1, 1), 0);
    assert_eq!(registry.remove_matching(9, 9), 0);
    assert_eq!(registry.len(), 2);
}

#[test]
fn registry_insert_replaces_in_place() {
    let mut registry = Registry::new();
    assert_eq!(registry.insert(key(1, 1, "tcp"), description(1, 1, None)), None);
    assert_eq!(registry.insert(key(1, 1, "udp"), description(2, 2, None)), None);
    assert_eq!(
        registry.insert(key(1, 1, "tcp"), description(3, 3, Some("x"))),
        Some(description(1, 1, None))
    );
    assert_eq!(keys_of(&registry), vec![key(1, 1, "tcp"), key(1, 1, "udp")]);
    assert_eq!(registry.get(&key(1, 1, "tcp")), Some(&description(3, 3, Some("x"))));
}

#[test]
fn seed_advertises_the_service_in_three_versions() {
    let mut registry = Registry::new();
    seed(&mut registry, &[]);
    assert_eq!(registry.len(), 0);
    seed(&mut registry, &[Ipv4Addr::new(127, 0, 0, 1), Ipv4Addr::new(192, 168, 0, 9)]);
    assert_eq!(
        keys_of(&registry),
        vec![key(100000, 2, "tcp"), key(100000, 3, "tcp"), key(100000, 4, "tcp")]
    );
    for version in 2..5 {
        assert_eq!(
            registry.get(&key(100000, version, "tcp")),
            Some(&ProgramDescription {
                addr: SocketAddrV4::new(Ipv4Addr::new(192, 168, 0, 9), 111),
                owner: Some("rpcbind-rs".to_string()),
            })
        );
    }
}

#[test]
fn key_of_a_mapping_names_the_transport_of_its_protocol() {
    let mapping = |prot| Mapping { prog: 5, vers: 6, prot, port: 7 };
    assert_eq!(ProgramKey::from_mapping(&mapping(6)), key(5, 6, "tcp"));
    assert_eq!(ProgramKey::from_mapping(&mapping(17)), key(5, 6, "udp"));
    assert_eq!(ProgramKey::from_mapping(&mapping(1)), key(5, 6, "icmp"));
    assert_eq!(ProgramKey::from_mapping(&mapping(0)), key(5, 6, "rawip"));
    assert_eq!(ProgramKey::from_mapping(&mapping(u32::MAX)), key(5, 6, "rawip"));
    assert_eq!(prot_netid(6), "tcp");
    assert_eq!(prot_netid(17), "udp");
    assert_eq!(prot_netid(1), "icmp");
    assert_eq!(prot_netid(2), "rawip");
}

#[test]
fn key_of_a_binding_takes_its_three_parts() {
    let rpcb = RPCB {
        r_prog: 9,
        r_vers: 8,
        r_netid: "udp6".to_string(),
        r_addr: "ignored".to_string(),
        r_owner: "ignored".to_string(),
    };
    assert_eq!(ProgramKey::from_rpcb(&rpcb), key(9, 8, "udp6"));
    assert!(key(9, 8, "udp6").same(&ProgramKey::from_rpcb(&rpcb)));
    assert!(!key(9, 8, "udp").same(&ProgramKey::from_rpcb(&rpcb)));
}

#[test]
fn binding_record_of_an_entry() {
    let record = make_rpcb(&key(100003, 3, "tcp"), &description(5, 2049, Some("nfs")));
    assert_eq!(
        record,
        RPCB {
            r_prog: 100003,
            r_vers: 3,
            r_netid: "tcp".to_string(),
            r_addr: "10.0.0.5.8.1".to_string(),
            r_owner: "nfs".to_string(),
        }
    );
    let record = make_rpcb(&key(1, 1, "udp"), &description(5, 1, None));
    assert_eq!(record.r_owner, "");
}

#[test]
fn protocol_numbers_by_name() {
    assert_eq!(protocol_number(&"tcp".to_string()), Some(6));
    assert_eq!(protocol_number(&"udp".to_string()), Some(17));
    assert_eq!(protocol_number(&"icmp".to_string()), Some(1));
    assert_eq!(protocol_number(&"rawip".to_string()), Some(0));
    assert_eq!(protocol_number(&"-".to_string()), None);
    assert_eq!(protocol_number(&"TCP".to_string()), None);
}

#[test]
fn netconfig_optional_reads_a_dash_as_nothing() {
    assert_eq!(netconfig_optional("-"), None);
    assert_eq!(netconfig_optional("v"), Some("v".to_string()));
    assert_eq!(netconfig_optional("--"), Some("--".to_string()));
    assert_eq!(netconfig_optional(""), Some("".to_string()));
}

const NETCONFIG: &str = "# comment\n\
udp        tpi_clts      v     inet     udp     -       -\n\
tcp        tpi_cots_ord  v     inet     tcp     -       -\n\
  # indented comment\n\
udp6       tpi_clts      v     inet6    udp     -       -\n\
local      tpi_cots_ord  -     loopback -       -       -\n\
odd        tpi_raw       -     inet     -       /dev/x  lib.so extra\n";

#[test]
fn netconfig_is_read_line_by_line() {
    let entries = parse_netconfig(NETCONFIG).unwrap();
    assert_eq!(entries.len(), 5);
    assert_eq!(
        entries[0],
        NetConfigEntry {
            network_id: "udp".to_string(),
            semantics: "tpi_clts".to_string(),
            flags: Some("v".to_string()),
            protofamily: "inet".to_string(),
            protoname: "udp".to_string(),
            device: None,
            nametoaddr_libs: None,
        }
    );
    assert_eq!(entries[3].network_id, "local");
    assert_eq!(entries[3].flags, None);
    assert_eq!(entries[3].protoname, "-");
    assert_eq!(entries[4].device, Some("/dev/x".to_string()));
    assert_eq!(entries[4].nametoaddr_libs, Some("lib.so".to_string()));
    assert_eq!(parse_netconfig(""), Ok(Vec::new()));
    assert_eq!(parse_netconfig("#only\n#comments"), Ok(Vec::new()));
}

#[test]
fn netconfig_line_with_too_few_fields_is_an_error() {
    assert_eq!(parse_netconfig("tcp tpi v inet tcp -"), Err(NetConfigError::MissingField(0)));
    assert_eq!(
        parse_netconfig("# c\nudp a v inet udp - -\n\ntcp a v inet tcp - -\n"),
        Err(NetConfigError::MissingField(2))
    );
}

#[test]
fn portmapper_description_finds_the_first_usable_entry() {
    let entries = parse_netconfig(NETCONFIG).unwrap();
    assert_eq!(key(1, 1, "tcp").portmapper_description(&entries), Some(6));
    assert_eq!(key(1, 1, "udp").portmapper_description(&entries), Some(17));
    assert_eq!(key(1, 1, "udp6").portmapper_description(&entries), Some(17));
    assert_eq!(key(1, 1, "local").portmapper_description(&entries), None);
    assert_eq!(key(1, 1, "tcp6").portmapper_description(&entries), None);
    assert_eq!(key(1, 1, "tcp").portmapper_description(&[]), None);

    let twice = parse_netconfig("x a - inet nope - -\nx a - inet icmp - -\nx a - inet tcp - -\n")
        .unwrap();
    assert_eq!(key(1, 1, "x").portmapper_description(&twice), Some(1));
}

#[test]
fn registry_is_well_formed_after_every_change() {
    let mut registry = Registry::new();
    assert!(registry.is_well_formed());
    for i in 0..20u32 {
        registry.insert_if_absent(key(i % 5, i % 3, "tcp"), description(i as u8, 1, None));
        registry.insert(key(i % 4, 1, "udp"), description(i as u8, 2, None));
        assert!(registry.is_well_formed());
    }
    registry.remove_matching(1, 1);
    registry.remove(&key(0, 0, "tcp"));
    assert!(registry.is_well_formed());
}

#[test]
fn snapshot_copies_the_bindings_in_order() {
    let mut registry = Registry::new();
    registry.insert_if_absent(key(1, 1, "tcp"), description(1, 1, Some("a")));
    registry.insert_if_absent(key(1, 1, "udp"), description(2, 2, None));
    assert_eq!(
        registry.snapshot(),
        vec![
            (key(1, 1, "tcp"), description(1, 1, Some("a"))),
            (key(1, 1, "udp"), description(2, 2, None)),
        ]
    );
    assert_eq!(Registry::new().snapshot(), vec![]);
}
