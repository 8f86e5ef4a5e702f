use talpid_dns::ip::IpAddr;
use talpid_dns::resolved::{
    after_canonicalize, after_contents, after_read_link, after_static_stub, catch_all_domains,
    is_stub_path, link_dns_payload, points_to_localhost, resolved_stub_paths, revert_outcome,
    stub_tokens, BusError, DnsServer, DnsServerFields, DnsState, Error, LinkRead, PreflightStep,
};

fn v4(a: u8, b: u8, c: u8, d: u8) -> IpAddr {
    IpAddr::V4([a, b, c, d])
}

fn v6(first: u8, last: u8) -> IpAddr {
    let mut o = [0u8; 16];
    o[0] = first;
    o[15] = last;
    IpAddr::V6(o)
}

fn bus_error(name: Option<&str>) -> BusError {
    BusError { name: name.map(|n| n.to_string()), message: None }
}

#[test]
fn stub_symlink_is_accepted_without_reading() {
    let step = after_read_link(LinkRead::Target("/run/systemd/resolve/stub-resolv.conf".to_string()));
    assert_eq!(step, PreflightStep::Done(Ok(())));
    let step = after_read_link(LinkRead::Target("/var/run/systemd/resolve/resolv.conf".to_string()));
    assert_eq!(step, PreflightStep::Done(Ok(())));
}

#[test]
fn relative_symlink_is_canonicalized_under_etc() {
    let step = after_read_link(LinkRead::Target("../run/systemd/resolve/stub-resolv.conf".to_string()));
    assert_eq!(
        step,
        PreflightStep::Canonicalize("/etc/../run/systemd/resolve/stub-resolv.conf".to_string())
    );
    assert_eq!(
        after_canonicalize(Some("/run/systemd/resolve/stub-resolv.conf".to_string())),
        PreflightStep::Done(Ok(()))
    );
    assert_eq!(
        after_canonicalize(Some("/etc/other.conf".to_string())),
        PreflightStep::CompareContents { via_symlink: true }
    );
    assert_eq!(after_canonicalize(None), PreflightStep::CompareContents { via_symlink: true });
}

#[test]
fn static_stub_symlink_reads_the_stub() {
    let step = after_read_link(LinkRead::Target("/usr/lib/systemd/resolv.conf".to_string()));
    assert_eq!(step, PreflightStep::ReadStaticStub);
}

#[test]
fn other_symlink_and_plain_file_compare_contents() {
    assert_eq!(
        after_read_link(LinkRead::Target("/etc/resolvconf/run/resolv.conf".to_string())),
        PreflightStep::CompareContents { via_symlink: true }
    );
    assert_eq!(
        after_read_link(LinkRead::NotASymlink),
        PreflightStep::CompareContents { via_symlink: false }
    );
    assert_eq!(
        after_read_link(LinkRead::Failed),
        PreflightStep::Done(Err(Error::NotSymlinkedToResolvConf))
    );
}

#[test]
fn static_stub_with_public_resolver_is_untrusted() {
    assert_eq!(stub_tokens("8.8.8.8"), vec!["8.8.8.8"]);
    let parsed = vec![Some(v4(8, 8, 8, 8))];
    assert_eq!(
        after_static_stub(Some(parsed)),
        PreflightStep::Done(Err(Error::StaticStubNotPointingToLocalhost))
    );
}

#[test]
fn static_stub_with_loopback_is_trusted() {
    assert_eq!(stub_tokens("127.0.0.53"), vec!["127.0.0.53"]);
    let parsed = vec![Some(v4(127, 0, 0, 53))];
    assert_eq!(after_static_stub(Some(parsed)), PreflightStep::Done(Ok(())));
    assert_eq!(
        stub_tokens("nameserver 127.0.0.53\noptions edns0\n"),
        vec!["nameserver", "127.0.0.53", "options", "edns0"]
    );
    let parsed = vec![None, Some(v4(127, 0, 0, 53)), None, None];
    assert_eq!(after_static_stub(Some(parsed)), PreflightStep::Done(Ok(())));
}

#[test]
fn unreadable_static_stub_is_untrusted() {
    assert_eq!(
        after_static_stub(None),
        PreflightStep::Done(Err(Error::StaticStubNotPointingToLocalhost))
    );
}

#[test]
fn tokens_split_on_any_whitespace() {
    assert_eq!(
        stub_tokens("  nameserver\t127.0.0.53 \n\noptions  edns0 "),
        vec!["nameserver", "127.0.0.53", "options", "edns0"]
    );
    assert!(stub_tokens("").is_empty());
    assert!(stub_tokens(" \n\t").is_empty());
}

#[test]
fn loopback_detection_covers_both_families() {
    assert!(points_to_localhost(&[None, Some(v6(0, 1))]));
    assert!(points_to_localhost(&[Some(v4(127, 1, 2, 3))]));
    assert!(!points_to_localhost(&[Some(v6(0, 2)), Some(v4(10, 0, 0, 1)), None]));
    assert!(!points_to_localhost(&[]));
}

#[test]
fn contents_comparison_outcomes() {
    let stubs = vec![None, Some("nameserver 127.0.0.53\n".to_string())];
    assert_eq!(after_contents(false, Ok("nameserver 127.0.0.53\n".to_string()), &stubs), Ok(()));
    assert_eq!(after_contents(true, Ok("nameserver 127.0.0.53\n".to_string()), &stubs), Ok(()));
    assert_eq!(
        after_contents(false, Ok("nameserver 1.1.1.1\n".to_string()), &stubs),
        Err(Error::ResolvConfDiffers)
    );
    assert_eq!(
        after_contents(true, Ok("nameserver 1.1.1.1\n".to_string()), &stubs),
        Err(Error::NotSymlinkedToResolvConf)
    );
    assert_eq!(
        after_contents(false, Err("denied".to_string()), &stubs),
        Err(Error::ReadResolvConfError("denied".to_string()))
    );
    assert_eq!(
        after_contents(true, Err("denied".to_string()), &stubs),
        Err(Error::NotSymlinkedToResolvConf)
    );
}

#[test]
fn stub_path_list() {
    let paths = resolved_stub_paths();
    assert_eq!(paths.len(), 4);
    assert_eq!(paths[0], "/run/systemd/resolve/stub-resolv.conf");
    assert!(is_stub_path("/run/systemd/resolve/resolv.conf"));
    assert!(!is_stub_path("/usr/lib/systemd/resolv.conf"));
}

#[test]
fn set_dns_state_is_sorted_and_payload_keeps_order() {
    let servers = vec![v6(0xfd, 1), v4(10, 0, 0, 2), v4(10, 0, 0, 1), v4(10, 0, 0, 2)];
    let state = DnsState::new("/org/freedesktop/resolve1/link/_37".to_string(), 7, &servers);
    assert_eq!(state.interface_index, 7);
    assert_eq!(state.interface_path, "/org/freedesktop/resolve1/link/_37");
    assert_eq!(state.set_servers, vec![v4(10, 0, 0, 1), v4(10, 0, 0, 2), v6(0xfd, 1)]);
    let payload = link_dns_payload(&servers);
    assert_eq!(payload.len(), 4);
    assert_eq!(payload[0].0, 10);
    assert_eq!(payload[0].1.len(), 16);
    assert_eq!(payload[0].1[0], 0xfd);
    assert_eq!(payload[0].1[15], 1);
    assert_eq!(payload[1], (2, vec![10, 0, 0, 2]));
    assert_eq!(payload[2], (2, vec![10, 0, 0, 1]));
    assert_eq!(payload[3], (2, vec![10, 0, 0, 2]));
}

#[test]
fn catch_all_domain_is_root_routing_domain() {
    assert_eq!(catch_all_domains(), vec![(".".to_string(), true)]);
}

#[test]
fn revert_of_vanished_link_succeeds() {
    let gone = bus_error(Some("org.freedesktop.DBus.Error.UnknownObject"));
    assert_eq!(revert_outcome(Err(gone)), Ok(()));
    assert_eq!(revert_outcome(Ok(())), Ok(()));
    let other = bus_error(Some("org.freedesktop.DBus.Error.NoReply"));
    assert_eq!(revert_outcome(Err(other.clone())), Err(other));
    assert_eq!(revert_outcome(Err(bus_error(None))), Err(bus_error(None)));
}

#[test]
fn malformed_notification_entry_is_dropped() {
    let good = DnsServerFields {
        iface_index: Some(3),
        address_family: Some(2),
        address: Some(vec![10, 64, 0, 1]),
    };
    let bad = DnsServerFields {
        iface_index: Some(3),
        address_family: Some(2),
        address: Some(vec![10, 64, 0, 1, 9]),
    };
    let list = DnsServer::server_list_from_fields(&[good, bad]);
    assert_eq!(
        list,
        vec![DnsServer { iface_index: 3, address_family: 2, address: IpAddr::V4([10, 64, 0, 1]) }]
    );
}

#[test]
fn notification_entries_decode_in_order() {
    let v6 = DnsServerFields {
        iface_index: Some(4),
        address_family: Some(10),
        address: Some(vec![0; 16]),
    };
    let missing = DnsServerFields { iface_index: None, address_family: Some(2), address: Some(vec![1, 2, 3, 4]) };
    let v4 = DnsServerFields { iface_index: Some(5), address_family: Some(2), address: Some(vec![1, 2, 3, 4]) };
    let list = DnsServer::server_list_from_fields(&[v6, missing, v4]);
    assert_eq!(list.len(), 2);
    assert_eq!(list[0].address, IpAddr::V6([0; 16]));
    assert_eq!(list[0].iface_index, 4);
    assert_eq!(list[1].address, IpAddr::V4([1, 2, 3, 4]));
    assert_eq!(list[1].iface_index, 5);
}
