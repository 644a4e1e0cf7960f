use decentis::traversal::address::{Endpoint, IpAddress};
use decentis::traversal::punch::{magic_probe, prediction_ports};
use decentis::traversal::rendezvous::{is_authorized, node_id, plan_rendezvous, DialPlan};
use decentis::traversal::signaling::{
    dial_outcome, discovered_peer, DialError, Payload, PeerFound, SignalMessage, SignalResponse,
    SignalingClient,
};
use decentis::traversal::stun::{
    binding_request, build_request, is_truncated, parse_response, StunError,
};
use decentis::traversal::tiers::{TierAction, TierEvent, Tiers};
use decentis::traversal::upnp::{mapped_endpoint, port_mapping, UpnpError};

const HOME: IpAddress = IpAddress::V4(0xC0A8_0102);
const PUBLIC: IpAddress = IpAddress::V4(0xCB00_7105);
const SIX: IpAddress = IpAddress::V6(1);

fn header(kind: u16) -> Vec<u8> {
    let mut bytes = kind.to_be_bytes().to_vec();
    bytes.extend_from_slice(&[0u8; 18]);
    bytes
}

fn attribute(kind: u16, value: &[u8]) -> Vec<u8> {
    let mut bytes = kind.to_be_bytes().to_vec();
    bytes.extend_from_slice(&(value.len() as u16).to_be_bytes());
    bytes.extend_from_slice(value);
    while bytes.len() % 4 != 0 {
        bytes.push(0);
    }
    bytes
}

fn masked(ip: u32, port: u16) -> Vec<u8> {
    let mut value = vec![0u8, 1];
    value.extend_from_slice(&(port ^ 0x2112).to_be_bytes());
    value.extend_from_slice(&(ip ^ 0x2112_A442).to_be_bytes());
    value
}

#[test]
fn a_binding_request_has_its_bytes() {
    let id = [1u8, 2, 3, 4, 5, 6, 7, 8, 9, 10, 11, 12];
    assert_eq!(
        build_request(&id),
        vec![
            0x00, 0x01, 0x00, 0x00, 0x21, 0x12, 0xA4, 0x42, 1, 2, 3, 4, 5, 6, 7, 8, 9, 10, 11, 12
        ]
    );
    let drawn = binding_request();
    assert_eq!(drawn.len(), 20);
    assert_eq!(&drawn[..8], &[0x00, 0x01, 0x00, 0x00, 0x21, 0x12, 0xA4, 0x42]);
    assert_ne!(drawn, binding_request());
}

#[test]
fn the_masked_address_is_found_behind_other_attributes() {
    let mut response = header(0x0101);
    response.extend_from_slice(&attribute(0x8022, b"server"));
    response.extend_from_slice(&attribute(0x0001, &[]));
    response.extend_from_slice(&attribute(0x0020, &masked(0xCB00_7105, 51820)));
    response.extend_from_slice(&attribute(0x0020, &masked(1, 1)));
    assert!(!is_truncated(&response));
    assert_eq!(
        parse_response(&response),
        Ok(Endpoint {
            ip: PUBLIC,
            port: 51820
        })
    );
}

#[test]
fn an_ipv6_address_is_passed_over() {
    let mut response = header(0x0101);
    let mut six = vec![0u8, 2];
    six.extend_from_slice(&[0u8; 18]);
    response.extend_from_slice(&attribute(0x0020, &six));
    assert_eq!(parse_response(&response), Err(StunError::NotFound));
    response.extend_from_slice(&attribute(0x0020, &masked(7, 8)));
    assert_eq!(
        parse_response(&response),
        Ok(Endpoint {
            ip: IpAddress::V4(7),
            port: 8
        })
    );
}

#[test]
fn a_response_without_an_address_is_an_error() {
    assert_eq!(parse_response(&[0u8; 19]), Err(StunError::TooShort));
    assert_eq!(
        parse_response(&header(0x0111)),
        Err(StunError::UnexpectedType(0x0111))
    );
    assert_eq!(parse_response(&header(0x0101)), Err(StunError::NotFound));
    let mut overlong = header(0x0101);
    overlong.extend_from_slice(&[0x80, 0x22, 0xFF, 0xFF, 1, 2, 3, 4]);
    assert_eq!(parse_response(&overlong), Err(StunError::NotFound));
}

#[test]
fn a_response_that_ends_within_the_address_is_told_apart() {
    let mut response = header(0x0101);
    response.extend_from_slice(&attribute(0x0020, &masked(1, 2)));
    assert!(!is_truncated(&response));
    for len in 24..32 {
        assert!(is_truncated(&response[..len]), "{}", len);
    }
    for len in 0..24 {
        assert!(!is_truncated(&response[..len]), "{}", len);
    }
}

#[test]
fn a_window_of_128_ports_is_probed() {
    let ports = prediction_ports(51820);
    assert_eq!(ports.len(), 128);
    assert_eq!(ports[0], 51756);
    assert_eq!(ports[127], 51883);
    assert!(ports.contains(&51820));
}

#[test]
fn the_window_ends_where_the_ports_do() {
    let low = prediction_ports(1030);
    assert_eq!(low[0], 1024);
    assert_eq!(low.last(), Some(&1093));
    let high = prediction_ports(65535);
    assert_eq!(high[0], 65471);
    assert_eq!(high.last(), Some(&65535));
    assert_eq!(high.len(), 65);
    assert!(prediction_ports(0).is_empty());
    assert!(prediction_ports(960).is_empty());
    assert_eq!(prediction_ports(961), vec![1024]);
}

#[test]
fn a_probe_is_recognizable() {
    assert_eq!(magic_probe(), b"DECENTIS_PUNCH".to_vec());
}

#[test]
fn a_port_is_mapped_to_itself() {
    let mapping = port_mapping(HOME, 51820).unwrap();
    assert_eq!(mapping.external_port, 51820);
    assert_eq!(
        mapping.local,
        Endpoint {
            ip: HOME,
            port: 51820
        }
    );
    assert_eq!(mapping.lease_secs, 86400);
    assert_eq!(
        mapped_endpoint(PUBLIC, &mapping),
        Ok(Endpoint {
            ip: PUBLIC,
            port: 51820
        })
    );
}

#[test]
fn ipv6_is_not_mapped() {
    assert_eq!(port_mapping(SIX, 1), Err(UpnpError::LocalIpv6));
    let mapping = port_mapping(HOME, 1).unwrap();
    assert_eq!(mapped_endpoint(SIX, &mapping), Err(UpnpError::ExternalIpv6));
}

#[test]
fn the_router_is_asked_before_a_server() {
    let seen = Endpoint {
        ip: PUBLIC,
        port: 40000,
    };
    let (mut tiers, action) = Tiers::new(51820, true);
    assert!(matches!(action, TierAction::MapPort));
    assert!(matches!(
        tiers.step(TierEvent::Mapped(Some(seen))),
        TierAction::Register(endpoint) if endpoint == seen
    ));
    assert!(tiers.is_mapped());
    assert!(matches!(
        tiers.step(TierEvent::Registered(true)),
        TierAction::Dial
    ));
    assert!(tiers.is_mapped());

    let (mut tiers, _) = Tiers::new(51820, false);
    assert!(matches!(
        tiers.step(TierEvent::Mapped(None)),
        TierAction::Discover
    ));
    assert!(matches!(
        tiers.step(TierEvent::Discovered(Some(seen))),
        TierAction::Register(endpoint) if endpoint == Endpoint { ip: PUBLIC, port: 51820 }
    ));
    assert!(!tiers.is_mapped());
    assert!(matches!(
        tiers.step(TierEvent::Registered(true)),
        TierAction::Done
    ));
}

#[test]
fn without_an_address_nothing_is_registered() {
    let (mut tiers, _) = Tiers::new(1, true);
    assert!(matches!(
        tiers.step(TierEvent::Mapped(None)),
        TierAction::Discover
    ));
    assert!(matches!(
        tiers.step(TierEvent::Discovered(None)),
        TierAction::Done
    ));
    assert!(matches!(
        tiers.step(TierEvent::Registered(false)),
        TierAction::Done
    ));
}

#[test]
fn a_client_speaks_for_its_node() {
    let client = SignalingClient::new("http://server".to_string(), "me".to_string());
    assert_eq!(client.server_addr(), "http://server");
    match client
        .registration("203.0.113.5".to_string(), 51820, "127.0.0.1".to_string())
        .payload
    {
        Some(Payload::Register(register)) => {
            assert_eq!(register.node_id, "me");
            assert_eq!(register.public_ip, "203.0.113.5");
            assert_eq!(register.public_port, 51820);
            assert_eq!(register.local_ip, "127.0.0.1");
        }
        other => panic!("{:?}", other),
    }
    match client.dial_request("you").payload {
        Some(Payload::Dial(dial)) => {
            assert_eq!(dial.my_node_id, "me");
            assert_eq!(dial.target_node_id, "you");
        }
        other => panic!("{:?}", other),
    }
}

fn found(node: &str, port: u32) -> PeerFound {
    PeerFound {
        target_node_id: node.to_string(),
        public_ip: "203.0.113.5".to_string(),
        public_port: port,
        local_ip: "192.168.1.2".to_string(),
    }
}

#[test]
fn only_peers_that_were_found_are_passed_on() {
    let client = SignalingClient::new(String::new(), String::new());
    assert!(discovered_peer(client.dial_request("x")).is_none());
    assert!(discovered_peer(SignalMessage { payload: None }).is_none());
    let peer = discovered_peer(SignalMessage {
        payload: Some(Payload::PeerFound(found("x", 9))),
    })
    .unwrap();
    assert_eq!(peer.target_node_id, "x");
    assert_eq!(peer.public_port, 9);
}

#[test]
fn a_rejected_dial_is_an_error() {
    assert!(dial_outcome(SignalResponse {
        success: true,
        message: "fine".to_string()
    })
    .is_ok());
    match dial_outcome(SignalResponse {
        success: false,
        message: "unknown node".to_string(),
    }) {
        Err(error) => {
            assert!(matches!(&error, DialError::Rejected(reason) if reason == "unknown node"));
            assert_eq!(
                error.message(),
                "Signaling server rejected dial: unknown node"
            );
        }
        Ok(()) => panic!("accepted"),
    }
}

#[test]
fn the_peer_of_this_node_is_dialed_on_its_own_network_first() {
    let key = vec![0xFBu8, 0xFF, 0x00, 0x10];
    let id = node_id(&key);
    assert_eq!(id, "+/8AEA==");
    let filter = Some(id.clone());
    let plan = plan_rendezvous(&found(&id, 65536 + 4242), Some(PUBLIC), Some(HOME), &filter)
        .unwrap();
    assert_eq!(
        plan.probe,
        Endpoint {
            ip: PUBLIC,
            port: 4242
        }
    );
    match plan.dial {
        DialPlan::Dial {
            candidates,
            key: expected,
        } => {
            assert_eq!(
                candidates,
                vec![
                    Endpoint {
                        ip: HOME,
                        port: 4242
                    },
                    Endpoint {
                        ip: PUBLIC,
                        port: 4242
                    },
                ]
            );
            assert_eq!(expected, key);
        }
        _ => panic!("not dialed"),
    }
    let plan = plan_rendezvous(&found(&id, 1), Some(PUBLIC), None, &filter).unwrap();
    match plan.dial {
        DialPlan::Dial { candidates, .. } => assert_eq!(candidates[0].ip, PUBLIC),
        _ => panic!("not dialed"),
    }
}

#[test]
fn other_peers_are_only_probed() {
    let plan = plan_rendezvous(
        &found("AAAA", 5),
        Some(PUBLIC),
        None,
        &Some("AAAB".to_string()),
    )
    .unwrap();
    assert!(matches!(plan.dial, DialPlan::Wait));
    let plan = plan_rendezvous(&found("AAAA", 5), Some(PUBLIC), None, &None).unwrap();
    assert!(matches!(plan.dial, DialPlan::Wait));
    assert!(plan_rendezvous(&found("AAAA", 5), None, Some(HOME), &None).is_none());
}

#[test]
fn a_peer_whose_name_is_no_key_is_not_dialed() {
    for name in ["?", "AAA", "AA=A", "A===", "AB==", "AAB=", "AAAA\n", "AA"] {
        let filter = Some(name.to_string());
        let plan = plan_rendezvous(&found(name, 5), Some(PUBLIC), None, &filter).unwrap();
        assert!(matches!(plan.dial, DialPlan::BadKey), "{}", name);
    }
    for name in ["", "AA==", "AAA=", "AAAA"] {
        let filter = Some(name.to_string());
        let plan = plan_rendezvous(&found(name, 5), Some(PUBLIC), None, &filter).unwrap();
        assert!(matches!(plan.dial, DialPlan::Dial { .. }), "{}", name);
    }
}

#[test]
fn only_the_wanted_node_is_let_in() {
    let key = [7u8; 32];
    let filter = Some(node_id(&key));
    assert!(is_authorized(&filter, &key));
    assert!(!is_authorized(&filter, &[8u8; 32]));
    assert!(is_authorized(&None, &[8u8; 32]));
}
