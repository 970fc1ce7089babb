use base64::Engine;
use wg_waybar::config::{
    configure_wireguard, load_cidr_list, load_config, load_trimmed_pieces, parse_dns_servers,
    parse_ip_addr_mask, parse_ip_addr_masks, parse_public_key, parse_wg_config,
    public_key_from_bytes, AddressMask, InterfaceConfig, ManagerAction, PeerConfig, Stage,
    WireGuardConfig,
};
use wg_waybar::error::{Error, MissingPropertyError, PeerConfigError};

const KEY_A: &str = "AAECAwQFBgcICQoLDA0ODxAREhMUFRYXGBkaGxwdHh8=";

fn key_a_bytes() -> [u8; 32] {
    let mut k = [0u8; 32];
    for (i, b) in k.iter_mut().enumerate() {
        *b = i as u8;
    }
    k
}

fn texts(items: &[&str]) -> Vec<String> {
    items.iter().map(|s| s.to_string()).collect()
}

fn mask(ip: &str, cidr: u8) -> AddressMask {
    AddressMask { ip: ip.to_string(), cidr }
}

fn invalid_format(message: &str) -> Error {
    Error::InvalidFormat { message: message.to_string() }
}

fn missing(what: &str) -> Error {
    Error::MissingProperty(MissingPropertyError(what.to_string()))
}

fn sample_config() -> WireGuardConfig {
    WireGuardConfig {
        interface: InterfaceConfig {
            private_key: "secret".to_string(),
            addresses: texts(&["10.0.0.2/32", "fd00::2/64"]),
            dns: Some(texts(&["1.1.1.1", "2606:4700:4700::1111"])),
            listen_port: None,
        },
        peers: vec![
            PeerConfig {
                public_key: key_a_bytes(),
                endpoint: Some("192.0.2.1:51820".to_string()),
                allowed_ips: texts(&["0.0.0.0/0", "::/0"]),
            },
            PeerConfig { public_key: [7u8; 32], endpoint: None, allowed_ips: texts(&["10.9.0.0/16"]) },
        ],
    }
}

#[test]
fn interface_without_peers_parses() {
    let text = "[Interface]\nAddress=10.0.0.2/32\nPrivateKey=secret\n";
    let config = parse_wg_config(text).unwrap();
    assert!(
        config.interface
            == InterfaceConfig {
                private_key: "secret".to_string(),
                addresses: texts(&["10.0.0.2/32"]),
                dns: None,
                listen_port: None,
            }
    );
    assert_eq!(config.peers.len(), 0);
}

#[test]
fn missing_interface_section_is_reported() {
    let text = "[Peer]\nPublicKey=abc\n";
    match parse_wg_config(text) {
        Err(Error::MissingSection(e)) => {
            assert_eq!(e.0, "Interface");
            assert_eq!(e.to_string(), "Missing section Interface in WireGuard configuration file");
        }
        _ => panic!("expected a missing section"),
    }
    assert!(matches!(parse_wg_config(""), Err(Error::MissingSection(_))));
}

#[test]
fn text_that_is_not_ini_is_reported() {
    match parse_wg_config("[Interface") {
        Err(Error::Ini(reason)) => assert!(!reason.is_empty()),
        _ => panic!("expected an INI failure"),
    }
}

#[test]
fn peers_come_in_source_order() {
    let other_key = base64::prelude::BASE64_STANDARD.encode([7u8; 32]);
    let text = format!(
        "[Interface]\nPrivateKey = k\nAddress = 10.0.0.2/32, fd00::2/64\nDNS = 1.1.1.1, 8.8.8.8\nListenPort = 51820\n\n[Peer]\nPublicKey = {}\nAllowedIPs = 0.0.0.0/0\nEndpoint = 192.0.2.1:51820\n\n[Other]\nx = y\n\n[Peer2]\nPublicKey = {}\nAllowedIPs = 10.1.0.0/16 , ,10.2.0.0/16\n\n[NotAPeer]\nPublicKey = zzz\n",
        KEY_A, other_key
    );
    let config = parse_wg_config(&text).unwrap();
    assert_eq!(config.interface.addresses, texts(&["10.0.0.2/32", "fd00::2/64"]));
    assert_eq!(config.interface.dns, Some(texts(&["1.1.1.1", "8.8.8.8"])));
    assert_eq!(config.interface.listen_port, Some(51820));
    assert_eq!(
        config.peers,
        vec![
            PeerConfig {
                public_key: key_a_bytes(),
                endpoint: Some("192.0.2.1:51820".to_string()),
                allowed_ips: texts(&["0.0.0.0/0"]),
            },
            PeerConfig {
                public_key: [7u8; 32],
                endpoint: None,
                allowed_ips: texts(&["10.1.0.0/16", "10.2.0.0/16"]),
            },
        ]
    );
}

#[test]
fn many_peers_are_all_kept() {
    let mut text = String::from("[Interface]\nPrivateKey = k\nAddress = 10.0.0.2/32\n");
    for i in 0..20u8 {
        let key = base64::prelude::BASE64_STANDARD.encode([i; 32]);
        text.push_str(&format!("[Peer{}]\nPublicKey = {}\nAllowedIPs = 10.{}.0.0/16\n", i, key, i));
    }
    let config = parse_wg_config(&text).unwrap();
    assert_eq!(config.peers.len(), 20);
    for i in 0..20u8 {
        assert_eq!(config.peers[i as usize].public_key, [i; 32]);
        assert_eq!(config.peers[i as usize].allowed_ips, vec![format!("10.{}.0.0/16", i)]);
    }
}

#[test]
fn first_peer_that_cannot_be_read_fails_the_document() {
    let text = format!(
        "[Interface]\nPrivateKey = k\nAddress = 10.0.0.2/32\n[Peer]\nPublicKey = {}\n[Peer]\nAllowedIPs = 1.1.1.1/32\n",
        KEY_A
    );
    assert_eq!(parse_wg_config(&text).err(), Some(missing("AllowedIPs is missing")));
}

#[test]
fn interface_properties_are_required() {
    assert_eq!(
        parse_wg_config("[Interface]\nAddress = 10.0.0.2/32\n").err(),
        Some(missing("PrivateKey is missing"))
    );
    assert_eq!(
        parse_wg_config("[Interface]\nPrivateKey = k\n").err(),
        Some(missing("Address is missing"))
    );
    assert_eq!(
        parse_wg_config("[Interface]\nPrivateKey = k\nAddress = ,\n").err(),
        Some(missing("Address cannot be empty"))
    );
}

#[test]
fn listen_port_must_be_an_unsigned_number() {
    let with_port = |port: &str| {
        let mut p = ini::Properties::new();
        p.insert("PrivateKey", "k");
        p.insert("Address", "10.0.0.2/32");
        p.insert("ListenPort", port);
        InterfaceConfig::load(&p).map(|c| c.listen_port)
    };
    assert_eq!(with_port("0"), Ok(Some(0)));
    assert_eq!(with_port("+7"), Ok(Some(7)));
    assert_eq!(with_port("0051820"), Ok(Some(51820)));
    assert_eq!(with_port("4294967295"), Ok(Some(4294967295)));
    assert_eq!(with_port("4294967296"), Err(invalid_format("Invalid ListenPort: 4294967296")));
    assert_eq!(with_port("x"), Err(invalid_format("Invalid ListenPort: x")));
    assert_eq!(with_port("-1"), Err(invalid_format("Invalid ListenPort: -1")));
    assert_eq!(with_port(""), Err(invalid_format("Invalid ListenPort: ")));
    assert_eq!(with_port("+"), Err(invalid_format("Invalid ListenPort: +")));
    assert_eq!(with_port("5 1"), Err(invalid_format("Invalid ListenPort: 5 1")));
}

#[test]
fn name_servers_are_trimmed_but_not_judged_when_read() {
    let mut p = ini::Properties::new();
    p.insert("PrivateKey", "k");
    p.insert("Address", "10.0.0.2/32");
    p.insert("DNS", " 1.1.1.1 ,, not-an-address");
    let config = InterfaceConfig::load(&p).unwrap();
    assert_eq!(config.dns, Some(texts(&["1.1.1.1", "", "not-an-address"])));
    assert_eq!(load_trimmed_pieces(""), texts(&[""]));
    assert_eq!(load_trimmed_pieces("a ,\tb"), texts(&["a", "b"]));
}

#[test]
fn first_value_of_a_repeated_key_counts() {
    let mut p = ini::Properties::new();
    p.append("PrivateKey", "first");
    p.append("PrivateKey", "second");
    p.append("Address", "10.0.0.2/32");
    p.append("Address", "bad");
    let config = InterfaceConfig::load(&p).unwrap();
    assert_eq!(config.private_key, "first");
    assert_eq!(config.addresses, texts(&["10.0.0.2/32"]));
}

#[test]
fn first_interface_section_counts() {
    let mut document = ini::Ini::new();
    document.with_section(Some("Interface")).set("PrivateKey", "one").set("Address", "10.0.0.1/8");
    document.entry(Some("Peer".to_string())).or_insert(ini::Properties::new());
    let loaded = load_config(&document);
    assert_eq!(loaded.err(), Some(missing("PublicKey is missing")));
}

#[test]
fn list_entries_are_trimmed_and_blank_ones_dropped() {
    assert_eq!(
        load_cidr_list("Address", "  10.0.0.2/32 ,,\t fd00::2/64\u{a0}, \u{2003} "),
        Ok(texts(&["10.0.0.2/32", "fd00::2/64"]))
    );
    assert_eq!(load_cidr_list("Address", "10.0.0.2/"), Ok(texts(&["10.0.0.2/"])));
    assert_eq!(load_cidr_list("Address", "10.0.0.2/abc"), Ok(texts(&["10.0.0.2/abc"])));
}

#[test]
fn entry_with_more_than_one_slash_is_an_invalid_format() {
    assert_eq!(
        load_cidr_list("Address", "10.0.0.2/32/1"),
        Err(invalid_format("Invalid Address format: 10.0.0.2/32/1"))
    );
    assert_eq!(
        load_cidr_list("AllowedIPs", "10.0.0.0/8, 10.0.0.2//"),
        Err(invalid_format("Invalid AllowedIPs format: 10.0.0.2//"))
    );
    assert_eq!(
        load_cidr_list("Address", "x/32/1"),
        Err(invalid_format("Invalid Address format: x/32/1"))
    );
    let mut p = ini::Properties::new();
    p.insert("PrivateKey", "k");
    p.insert("Address", "10.0.0.2/32/7");
    assert!(
        InterfaceConfig::load(&p) == Err(invalid_format("Invalid Address format: 10.0.0.2/32/7"))
    );
    let mut q = ini::Properties::new();
    q.insert("PublicKey", KEY_A);
    q.insert("AllowedIPs", "0.0.0.0/0/0");
    assert_eq!(
        PeerConfig::load(&q),
        Err(invalid_format("Invalid AllowedIPs format: 0.0.0.0/0/0"))
    );
}

#[test]
fn white_space_is_what_is_trimmed() {
    let listed = |c: char| {
        let n = c as u32;
        (0x09..=0x0d).contains(&n)
            || [0x20, 0x85, 0xa0, 0x1680, 0x2028, 0x2029, 0x202f, 0x205f, 0x3000].contains(&n)
            || (0x2000..=0x200a).contains(&n)
    };
    let mut count = 0;
    for n in 0..=0x10ffffu32 {
        if let Some(c) = char::from_u32(n) {
            if c == ',' {
                continue;
            }
            let trimmed = load_trimmed_pieces(&c.to_string());
            assert_eq!(trimmed == vec![String::new()], listed(c), "character {:#x}", n);
            if listed(c) {
                count += 1;
            }
        }
    }
    assert_eq!(count, 25);
    assert_eq!(load_trimmed_pieces("\u{2003}a b\u{3000},\u{85}"), texts(&["a b", ""]));
}

#[test]
fn entry_without_slash_is_an_invalid_format() {
    assert_eq!(
        load_cidr_list("Address", "10.0.0.2/32, 10.0.0.3"),
        Err(invalid_format("Invalid Address format: 10.0.0.3"))
    );
    assert_eq!(
        invalid_format("Invalid Address format: 10.0.0.3").to_string(),
        "Invalid format: Invalid Address format: 10.0.0.3"
    );
}

#[test]
fn entry_with_bad_ip_is_an_invalid_format() {
    assert_eq!(
        load_cidr_list("AllowedIPs", " 10.0.0.256/32"),
        Err(invalid_format("Invalid IP in AllowedIPs: 10.0.0.256"))
    );
    assert_eq!(
        load_cidr_list("AllowedIPs", "/32"),
        Err(invalid_format("Invalid IP in AllowedIPs: "))
    );
    assert_eq!(
        load_cidr_list("Address", "a/1, b"),
        Err(invalid_format("Invalid IP in Address: a"))
    );
    assert_eq!(
        load_cidr_list("Address", "b, a/1"),
        Err(invalid_format("Invalid Address format: b"))
    );
}

#[test]
fn blank_list_is_a_missing_property() {
    assert_eq!(load_cidr_list("Address", " , ,"), Err(missing("Address cannot be empty")));
    assert_eq!(load_cidr_list("AllowedIPs", ""), Err(missing("AllowedIPs cannot be empty")));
    assert_eq!(
        missing("Address cannot be empty").to_string(),
        "Missing property: Address cannot be empty"
    );
}

#[test]
fn public_key_round_trip() {
    assert_eq!(parse_public_key(KEY_A), Ok(key_a_bytes()));
    for fill in [0u8, 1, 127, 255] {
        let bytes = [fill; 32];
        let text = base64::prelude::BASE64_STANDARD.encode(bytes);
        assert_eq!(parse_public_key(&text), Ok(bytes));
    }
}

#[test]
fn public_key_of_another_length_is_invalid() {
    let wrong = Error::PeerConfig(PeerConfigError::InvalidPublicKey {
        message: "Public key must be 32 bytes".to_string(),
    });
    for length in [0usize, 1, 31, 33, 64] {
        let text = base64::prelude::BASE64_STANDARD.encode(vec![9u8; length]);
        assert_eq!(parse_public_key(&text), Err(wrong.clone()), "length {}", length);
    }
    assert_eq!(wrong.to_string(), "Invalid public key: Public key must be 32 bytes");
    assert_eq!(public_key_from_bytes(&vec![1u8; 32]), Ok([1u8; 32]));
    assert_eq!(public_key_from_bytes(&vec![1u8; 31]), Err(wrong));
}

#[test]
fn public_key_that_is_not_base64_is_reported() {
    match parse_public_key("@@@") {
        Err(Error::Base64(reason)) => assert!(!reason.is_empty()),
        other => panic!("unexpected {:?}", other),
    }
}

#[test]
fn peer_properties_are_read() {
    let peer = |endpoint: Option<&str>, allowed: Option<&str>, key: Option<&str>| {
        let mut q = ini::Properties::new();
        if let Some(k) = key {
            q.insert("PublicKey", k);
        }
        if let Some(e) = endpoint {
            q.insert("Endpoint", e);
        }
        if let Some(a) = allowed {
            q.insert("AllowedIPs", a);
        }
        PeerConfig::load(&q)
    };
    assert_eq!(peer(None, Some("0.0.0.0/0"), None), Err(missing("PublicKey is missing")));
    assert_eq!(peer(None, None, Some(KEY_A)), Err(missing("AllowedIPs is missing")));
    assert_eq!(
        peer(Some("example.com:51820"), Some("0.0.0.0/0"), Some(KEY_A)),
        Err(Error::PeerConfig(PeerConfigError::EndPoint(
            "invalid socket address syntax".to_string()
        )))
    );
    assert_eq!(
        peer(Some("example.com:51820"), None, Some(KEY_A)).unwrap_err().to_string(),
        "Endpoint parsing error: invalid socket address syntax"
    );
    assert_eq!(
        peer(Some("[fe80::1%2]:51820"), Some("0.0.0.0/0"), Some(KEY_A)),
        Ok(PeerConfig {
            public_key: key_a_bytes(),
            endpoint: Some("[fe80::1%2]:51820".to_string()),
            allowed_ips: texts(&["0.0.0.0/0"]),
        })
    );
    assert_eq!(
        peer(None, Some("0.0.0.0"), Some(KEY_A)),
        Err(invalid_format("Invalid AllowedIPs format: 0.0.0.0"))
    );
}

#[test]
fn address_with_prefix_is_read() {
    assert_eq!(parse_ip_addr_mask("10.0.0.2/32"), Ok(mask("10.0.0.2", 32)));
    assert_eq!(parse_ip_addr_mask("fd00::1/128"), Ok(mask("fd00::1", 128)));
    assert_eq!(parse_ip_addr_mask("0.0.0.0/0"), Ok(mask("0.0.0.0", 0)));
    assert_eq!(parse_ip_addr_mask("10.0.0.2/255"), Ok(mask("10.0.0.2", 255)));
    assert_eq!(parse_ip_addr_mask("10.0.0.2/+8"), Ok(mask("10.0.0.2", 8)));
    assert_eq!(parse_ip_addr_mask("10.0.0.2/008"), Ok(mask("10.0.0.2", 8)));
}

#[test]
fn address_with_prefix_is_refused() {
    assert_eq!(
        parse_ip_addr_mask("10.0.0.2"),
        Err(invalid_format("Invalid IP/CIDR format: 10.0.0.2"))
    );
    assert_eq!(
        parse_ip_addr_mask("10.0.0.2/32/1"),
        Err(invalid_format("Invalid IP/CIDR format: 10.0.0.2/32/1"))
    );
    assert_eq!(parse_ip_addr_mask("x/24"), Err(invalid_format("Invalid IP: x")));
    assert_eq!(parse_ip_addr_mask("/24"), Err(invalid_format("Invalid IP: ")));
    assert_eq!(
        parse_ip_addr_mask("10.0.0.2/256"),
        Err(invalid_format("Invalid CIDR prefix: 256"))
    );
    assert_eq!(parse_ip_addr_mask("10.0.0.2/"), Err(invalid_format("Invalid CIDR prefix: ")));
    assert_eq!(parse_ip_addr_mask("10.0.0.2/-1"), Err(invalid_format("Invalid CIDR prefix: -1")));
    assert_eq!(parse_ip_addr_mask("10.0.0.2/ 8"), Err(invalid_format("Invalid CIDR prefix:  8")));
    assert_eq!(
        parse_ip_addr_masks(&texts(&["10.0.0.2/8", "x/1", "y"])),
        Err(invalid_format("Invalid IP: x"))
    );
    assert_eq!(
        parse_ip_addr_masks(&texts(&["10.0.0.2/8", "::/0"])),
        Ok(vec![mask("10.0.0.2", 8), mask("::", 0)])
    );
    assert_eq!(parse_ip_addr_masks(&vec![]), Ok(vec![]));
}

#[test]
fn name_servers_must_be_addresses_when_applied() {
    assert_eq!(parse_dns_servers(&texts(&["1.1.1.1", "::1"])), Ok(texts(&["1.1.1.1", "::1"])));
    assert_eq!(
        parse_dns_servers(&texts(&["1.1.1.1", "dns.example"])),
        Err(invalid_format("Invalid DNS IP: invalid IP address syntax"))
    );
    assert_eq!(
        parse_dns_servers(&texts(&[""])),
        Err(invalid_format("Invalid DNS IP: invalid IP address syntax"))
    );
}

#[test]
fn bringing_up_asks_for_each_thing_in_turn() {
    let config = sample_config();
    let step = |stage: Stage| configure_wireguard(&config, "wg0", 40077, stage);
    assert!(step(Stage::Create) == Ok(Some((ManagerAction::CreateInterface, Stage::Interface))));
    assert!(
        step(Stage::Interface)
            == Ok(Some((
                ManagerAction::ConfigureInterface {
                    name: "wg0".to_string(),
                    private_key: "secret".to_string(),
                    addresses: vec![mask("10.0.0.2", 32), mask("fd00::2", 64)],
                    port: 40077,
                },
                Stage::Dns
            )))
    );
    assert!(
        step(Stage::Dns)
            == Ok(Some((
                ManagerAction::ConfigureDns { servers: texts(&["1.1.1.1", "2606:4700:4700::1111"]) },
                Stage::Peer(0)
            )))
    );
    assert!(
        step(Stage::Peer(0))
            == Ok(Some((
                ManagerAction::ConfigurePeer {
                    public_key: key_a_bytes(),
                    allowed_ips: vec![mask("0.0.0.0", 0), mask("::", 0)],
                    endpoint: Some("192.0.2.1:51820".to_string()),
                },
                Stage::Peer(1)
            )))
    );
    assert!(
        step(Stage::Peer(1))
            == Ok(Some((
                ManagerAction::ConfigurePeer {
                    public_key: [7u8; 32],
                    allowed_ips: vec![mask("10.9.0.0", 16)],
                    endpoint: None,
                },
                Stage::Peer(2)
            )))
    );
    assert!(step(Stage::Peer(2)) == Ok(None));
    assert!(step(Stage::Peer(usize::MAX)) == Ok(None));
}

#[test]
fn bringing_up_prefers_the_port_of_the_configuration() {
    let mut config = sample_config();
    config.interface.listen_port = Some(51820);
    config.interface.dns = None;
    match configure_wireguard(&config, "wg0", 40077, Stage::Interface) {
        Ok(Some((ManagerAction::ConfigureInterface { port, .. }, Stage::Dns))) => {
            assert_eq!(port, 51820)
        }
        _ => panic!("expected the configuring of the interface"),
    }
    match configure_wireguard(&config, "wg0", 40077, Stage::Dns) {
        Ok(Some((ManagerAction::ConfigurePeer { public_key, .. }, Stage::Peer(1)))) => {
            assert_eq!(public_key, key_a_bytes())
        }
        _ => panic!("expected the first peer"),
    }
}

#[test]
fn bringing_up_stops_at_a_value_that_cannot_be_read() {
    let mut config = sample_config();
    config.interface.addresses = texts(&["10.0.0.2/abc"]);
    config.interface.dns = Some(texts(&["one.one.one.one"]));
    config.peers[1].allowed_ips = texts(&["10.9.0.0/16/1"]);
    let step = |stage: Stage| configure_wireguard(&config, "wg0", 1, stage);
    assert!(step(Stage::Create).is_ok());
    assert!(step(Stage::Interface) == Err(invalid_format("Invalid CIDR prefix: abc")));
    assert!(step(Stage::Dns) == Err(invalid_format("Invalid DNS IP: invalid IP address syntax")));
    assert!(step(Stage::Peer(0)).is_ok());
    assert!(step(Stage::Peer(1)) == Err(invalid_format("Invalid IP/CIDR format: 10.9.0.0/16/1")));
}
