use decentis::config::{configure, parse_port};
use decentis::control::{ControlServiceImpl, SendRefusal};
use decentis::tun::device::{interface_name, tun_settings};

#[test]
fn a_node_has_defaults() {
    let config = configure(None, None, None);
    assert_eq!(config.port, "51820");
    assert_eq!(config.local_port, 51820);
    assert_eq!(config.bind_addr, "0.0.0.0:51820");
    assert_eq!(config.socket_path, "/tmp/decentis_51820.sock");
    assert_eq!(config.identity_path, "/etc/decentis/node_51820.key");
    assert_eq!(config.peer_pub, None);
}

#[test]
fn a_node_is_set_up_from_its_environment() {
    let config = configure(
        Some("4000".to_string()),
        Some("/tmp/key".to_string()),
        Some("peer".to_string()),
    );
    assert_eq!(config.port, "4000");
    assert_eq!(config.local_port, 4000);
    assert_eq!(config.socket_path, "/tmp/decentis_4000.sock");
    assert_eq!(config.identity_path, "/tmp/key");
    assert_eq!(config.peer_pub, Some("peer".to_string()));
    let config = configure(Some("many".to_string()), None, None);
    assert_eq!(config.local_port, 51820);
    assert_eq!(config.identity_path, "/etc/decentis/node_many.key");
}

#[test]
fn ports_are_read_like_other_numbers() {
    for text in [
        "", "+", "-", "-1", "0", "+0", "7", "+65535", "65535", "65536", "0000065535", "99999999999",
        "12a", "a12", " 1", "1 ", "1.0", "\u{0663}", "++1", "000000000000000000000000000000001",
    ] {
        assert_eq!(parse_port(text), text.parse::<u16>().ok(), "{}", text);
    }
}

#[test]
fn a_connected_peer_can_be_sent_to() {
    let mut service = ControlServiceImpl::new("10.99.0.1".to_string());
    let status = service.get_status();
    assert_eq!(status.virtual_ip, "10.99.0.1");
    assert!(status.is_active);
    assert_eq!(status.active_peers, 0);
    service.register_peer("10.99.0.2".to_string(), 7u8);
    service.register_peer("10.99.0.3".to_string(), 8);
    service.register_peer("10.99.0.2".to_string(), 9);
    assert_eq!(service.get_status().active_peers, 2);
    let (connection, first) = service.initiate_send("10.99.0.2").unwrap();
    assert_eq!(*connection, 9);
    let (_, second) = service.initiate_send("10.99.0.2").unwrap();
    assert_eq!(first.len(), 36);
    assert_eq!(first.as_bytes()[14], b'4');
    assert!(b"89ab".contains(&first.as_bytes()[19]));
    for (at, digit) in first.bytes().enumerate() {
        if [8, 13, 18, 23].contains(&at) {
            assert_eq!(digit, b'-');
        } else {
            assert!(b"0123456789abcdef".contains(&digit));
        }
    }
    assert_ne!(first, second);
}

#[test]
fn a_peer_that_is_not_connected_is_refused() {
    let service: ControlServiceImpl<u8> = ControlServiceImpl::new("10.99.0.1".to_string());
    match service.initiate_send("10.99.0.9") {
        Err(refusal) => {
            assert!(matches!(&refusal, SendRefusal::NotConnected(vip) if vip == "10.99.0.9"));
            assert_eq!(refusal.message(), "Peer VIP 10.99.0.9 not connected");
        }
        Ok(_) => panic!("accepted"),
    }
}

#[test]
fn an_interface_is_named_after_its_address() {
    assert_eq!(interface_name("10.99.0.1"), "mesh109901");
    assert_eq!(interface_name(""), "mesh");
    assert_eq!(interface_name("..."), "mesh");
    let settings = tun_settings("10.99.0.1");
    assert_eq!(settings.name, "mesh109901");
    assert_eq!(settings.address, "10.99.0.1");
    assert_eq!(settings.netmask, "255.255.255.0");
    assert_eq!(settings.mtu, 1420);
}
