use coap_server::server::{classify_rx_event, require_handler, FatalServerError, IoError, RxAction};
use coap_server::udp::{LocalAddress, MulticastGroupJoin, ResolvedJoin, UdpTransport};

#[test]
fn default_joins_by_family() {
    let t = UdpTransport::new("0.0.0.0:5683").enable_multicast();
    assert!(t.multicast());
    assert!(t.joins_resolvable(LocalAddress::V4([10, 0, 0, 2])));
    let v4 = t.plan_joins(LocalAddress::V4([10, 0, 0, 2]));
    assert_eq!(v4, vec![ResolvedJoin::Ipv4 { group: [224, 0, 1, 187], interface: [10, 0, 0, 2] }]);
    let v6 = t.plan_joins(LocalAddress::V6);
    let link = [0xff, 0x02, 0, 0, 0, 0, 0, 0, 0, 0, 0, 0, 0, 0, 0, 0xfd];
    let site = [0xff, 0x05, 0, 0, 0, 0, 0, 0, 0, 0, 0, 0, 0, 0, 0, 0xfd];
    assert_eq!(
        v6,
        vec![ResolvedJoin::Ipv6 { group: link, interface: 0 }, ResolvedJoin::Ipv6 { group: site, interface: 0 }]
    );
}

#[test]
fn configured_joins_and_interfaces() {
    let t = UdpTransport::new(())
        .set_mtu(1280)
        .set_multicast_default_ipv4_interface([192, 168, 1, 1])
        .set_multicast_default_ipv6_interface(3)
        .add_multicast_join(MulticastGroupJoin::Ipv4([239, 1, 1, 1], None))
        .add_multicast_join(MulticastGroupJoin::Ipv4([239, 1, 1, 2], Some([10, 1, 1, 1])))
        .add_multicast_join(MulticastGroupJoin::Ipv6([0xff; 16], None));
    assert_eq!(t.mtu(), Some(1280));
    assert!(t.joins_resolvable(LocalAddress::V6));
    let plan = t.plan_joins(LocalAddress::V6);
    assert_eq!(
        plan,
        vec![
            ResolvedJoin::Ipv4 { group: [239, 1, 1, 1], interface: [192, 168, 1, 1] },
            ResolvedJoin::Ipv4 { group: [239, 1, 1, 2], interface: [10, 1, 1, 1] },
            ResolvedJoin::Ipv6 { group: [0xff; 16], interface: 3 },
        ]
    );
}

#[test]
fn ipv4_join_without_interface_on_ipv6_socket_is_unresolvable() {
    let t = UdpTransport::new(()).add_multicast_join(MulticastGroupJoin::Ipv4([239, 1, 1, 1], None));
    assert!(!t.joins_resolvable(LocalAddress::V6));
    assert!(t.joins_resolvable(LocalAddress::V4([1, 2, 3, 4])));
    assert_eq!(
        t.plan_joins(LocalAddress::V4([1, 2, 3, 4])),
        vec![ResolvedJoin::Ipv4 { group: [239, 1, 1, 1], interface: [1, 2, 3, 4] }]
    );
}

#[test]
fn rx_events() {
    let ok: Result<u8, (&str, Option<u8>)> = Ok(5);
    assert!(matches!(classify_rx_event(ok), RxAction::Handle(5)));
    let peer: Result<u8, (&str, Option<u8>)> = Err(("bad packet", Some(1)));
    assert!(matches!(classify_rx_event(peer), RxAction::Continue("bad packet")));
    let fatal: Result<u8, (&str, Option<u8>)> = Err(("socket closed", None));
    assert!(matches!(classify_rx_event(fatal), RxAction::Fatal("socket closed")));
}

#[test]
fn handler_must_be_set() {
    let h = 3;
    assert!(matches!(require_handler::<i32, ()>(Some(&h)), Ok(&3)));
    match require_handler::<i32, ()>(None) {
        Err(FatalServerError::InternalError(m)) => assert_eq!(m, "handler not set"),
        _ => panic!("expected an internal error"),
    }
    assert_eq!(IoError::Undefined.describe(), "Undefined error!");
}
