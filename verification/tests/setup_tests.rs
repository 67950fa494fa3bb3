use netsetup::constructor::derived_status;
use netsetup::constructor::FailingConstructor;
use netsetup::constructor::RecordingConstructor;
use netsetup::firewall::FailingFirewall;
use netsetup::firewall::FwCall;
use netsetup::firewall::RecordingFirewall;
use netsetup::hash::create_network_hash;
use netsetup::hash::MAX_HASH_SIZE;
use netsetup::setup::get_supported_firewall_driver;
use netsetup::setup::Setup;
use netsetup::setup::SetupError;
use netsetup::sysctl_mgr::MemSysctl;
use netsetup::sysctl_mgr::SysctlApi;
use netsetup::sysctl_mgr::SysctlEvent;
use netsetup::types::Network;
use netsetup::types::NetworkOptions;
use netsetup::types::PerNetworkOptions;
use netsetup::types::PortMapping;
use netsetup::types::Subnet;

fn bridge_network(subnets: Option<Vec<Subnet>>, iface: Option<&str>) -> Network {
    Network {
        driver: "bridge".to_string(),
        network_interface: iface.map(|s| s.to_string()),
        subnets,
    }
}

fn macvlan_network() -> Network {
    Network {
        driver: "macvlan".to_string(),
        network_interface: Some("eth1".to_string()),
        subnets: None,
    }
}

fn per_options(ips: Option<Vec<&str>>, iface: Option<&str>) -> PerNetworkOptions {
    PerNetworkOptions {
        static_ips: ips.map(|v| v.into_iter().map(|s| s.to_string()).collect()),
        interface_name: iface.map(|s| s.to_string()),
    }
}

fn subnet(cidr: &str) -> Subnet {
    Subnet { subnet: cidr.to_string(), gateway: None }
}

fn forwarding_on() -> MemSysctl {
    MemSysctl::new(vec![("net.ipv4.ip_forward".to_string(), "1".to_string())])
}

fn reads_for(mgr: &MemSysctl, wanted: &str) -> usize {
    mgr.events
        .iter()
        .filter(|e| matches!(e, SysctlEvent::Read { key } if key == wanted))
        .count()
}

fn writes_for(mgr: &MemSysctl, wanted: &str) -> usize {
    mgr.events
        .iter()
        .filter(|e| matches!(e, SysctlEvent::Write { key, .. } if key == wanted))
        .count()
}

#[test]
fn two_networks_bridge_and_macvlan() {
    let setup = Setup::new("/run/netns/sample".to_string());
    let mut sysctl = forwarding_on();
    let mut firewall = RecordingFirewall::new();
    let mut constructor = RecordingConstructor::new();
    let options = NetworkOptions {
        container_id: "cid1".to_string(),
        network_info: vec![
            ("net1".to_string(), bridge_network(Some(vec![subnet("10.88.0.0/24")]), None)),
            ("net2".to_string(), macvlan_network()),
        ],
        networks: vec![
            ("net1".to_string(), per_options(Some(vec!["10.88.0.5"]), Some("eth0"))),
            ("net2".to_string(), per_options(None, None)),
        ],
        port_mappings: None,
    };
    let response = setup
        .exec(Ok(()), Ok(options), &mut sysctl, &mut firewall, &mut constructor)
        .unwrap();
    assert_eq!(response.len(), 2);
    assert_eq!(response[0].0, "net1");
    assert_eq!(response[1].0, "net2");
    let expected_first = derived_status(
        &per_options(Some(vec!["10.88.0.5"]), Some("eth0")),
        &bridge_network(Some(vec![subnet("10.88.0.0/24")]), None),
    );
    let expected_second = derived_status(&per_options(None, None), &macvlan_network());
    assert_eq!(response[0].1, expected_first);
    assert_eq!(response[1].1, expected_second);
    assert_eq!(constructor.configured.len(), 2);
    assert_eq!(firewall.calls.len(), 1);
    match &firewall.calls[0] {
        FwCall::SetupNetwork { network, handle } => {
            assert_eq!(network.driver, "bridge");
            assert_eq!(handle.len(), MAX_HASH_SIZE);
            assert_eq!(handle, &create_network_hash("net1"));
        }
        other => panic!("unexpected firewall call: {:?}", other),
    }
}

#[test]
fn unknown_driver_fails() {
    let setup = Setup::new("/run/netns/sample".to_string());
    let mut sysctl = forwarding_on();
    let mut firewall = RecordingFirewall::new();
    let mut constructor = RecordingConstructor::new();
    let options = NetworkOptions {
        container_id: "cid1".to_string(),
        network_info: vec![("odd".to_string(), Network {
            driver: "vlan99".to_string(),
            network_interface: None,
            subnets: None,
        })],
        networks: vec![("odd".to_string(), per_options(None, None))],
        port_mappings: None,
    };
    let result = setup.exec(Ok(()), Ok(options), &mut sysctl, &mut firewall, &mut constructor);
    match result {
        Err(SetupError::UnknownDriver { driver }) => assert_eq!(driver, "vlan99"),
        other => panic!("expected an unknown-driver error, got {:?}", other.is_ok()),
    }
    assert_eq!(constructor.configured.len(), 0);
}

#[test]
fn unknown_second_driver_keeps_first_network_applied() {
    let setup = Setup::new("/run/netns/sample".to_string());
    let mut sysctl = forwarding_on();
    let mut firewall = RecordingFirewall::new();
    let mut constructor = RecordingConstructor::new();
    let options = NetworkOptions {
        container_id: "cid1".to_string(),
        network_info: vec![
            ("net1".to_string(), bridge_network(None, None)),
            ("odd".to_string(), Network {
                driver: "vlan99".to_string(),
                network_interface: None,
                subnets: None,
            }),
        ],
        networks: vec![
            ("net1".to_string(), per_options(Some(vec!["10.88.0.5"]), Some("eth0"))),
            ("odd".to_string(), per_options(None, None)),
        ],
        port_mappings: None,
    };
    let result = setup.exec(Ok(()), Ok(options), &mut sysctl, &mut firewall, &mut constructor);
    assert!(matches!(result, Err(SetupError::UnknownDriver { .. })));
    // the first network was applied before the failure and stays applied
    assert_eq!(constructor.configured.len(), 1);
    let expected = derived_status(
        &per_options(Some(vec!["10.88.0.5"]), Some("eth0")),
        &bridge_network(None, None),
    );
    assert_eq!(constructor.configured[0], expected);
    assert_eq!(firewall.calls.len(), 1);
}

#[test]
fn port_forward_uses_first_ip_and_first_subnet() {
    let setup = Setup::new("/run/netns/sample".to_string());
    let mut sysctl = MemSysctl::new(vec![
        ("net.ipv4.ip_forward".to_string(), "1".to_string()),
        ("net.ipv4.conf.br0.route_localnet".to_string(), "0".to_string()),
    ]);
    let mut firewall = RecordingFirewall::new();
    let mut constructor = RecordingConstructor::new();
    let options = NetworkOptions {
        container_id: "cid1".to_string(),
        network_info: vec![(
            "net1".to_string(),
            bridge_network(
                Some(vec![subnet("10.88.0.0/24"), subnet("10.89.0.0/24")]),
                Some("br0"),
            ),
        )],
        networks: vec![(
            "net1".to_string(),
            per_options(Some(vec!["10.88.0.5", "10.89.0.7"]), Some("eth0")),
        )],
        port_mappings: Some(vec![PortMapping {
            host_ip: None,
            host_port: 8080,
            container_port: 80,
            protocol: "tcp".to_string(),
        }]),
    };
    let response = setup
        .exec(Ok(()), Ok(options), &mut sysctl, &mut firewall, &mut constructor)
        .unwrap();
    assert_eq!(response.len(), 1);
    assert_eq!(firewall.calls.len(), 2);
    assert!(matches!(firewall.calls[0], FwCall::SetupNetwork { .. }));
    match &firewall.calls[1] {
        FwCall::SetupPortForward {
            container_id,
            mappings,
            container_ip,
            subnet,
            network_name,
            handle_prefix,
        } => {
            assert_eq!(container_id, "cid1");
            assert_eq!(mappings.len(), 1);
            assert_eq!(mappings[0].host_port, 8080);
            assert_eq!(mappings[0].container_port, 80);
            assert_eq!(container_ip, "10.88.0.5");
            assert_eq!(subnet, "10.88.0.0/24");
            assert_eq!(network_name, "net1");
            assert_eq!(handle_prefix.len(), MAX_HASH_SIZE);
            assert_eq!(handle_prefix, &create_network_hash("net1"));
        }
        other => panic!("unexpected firewall call: {:?}", other),
    }
    // the localnet toggle of the bound interface was ensured to 1
    assert_eq!(writes_for(&sysctl, "net.ipv4.conf.br0.route_localnet"), 1);
    assert_eq!(sysctl.get("net.ipv4.conf.br0.route_localnet").unwrap(), "1");
}

#[test]
fn forwarding_ensured_once_regardless_of_network_count() {
    for count in 0..3usize {
        let setup = Setup::new("/run/netns/sample".to_string());
        let mut sysctl = MemSysctl::new(vec![(
            "net.ipv4.ip_forward".to_string(),
            "0".to_string(),
        )]);
        let mut firewall = RecordingFirewall::new();
        let mut constructor = RecordingConstructor::new();
        let mut network_info = Vec::new();
        let mut networks = Vec::new();
        for i in 0..count {
            let name = format!("net{}", i);
            network_info.push((name.clone(), macvlan_network()));
            networks.push((name, per_options(None, None)));
        }
        let options = NetworkOptions {
            container_id: "cid1".to_string(),
            network_info,
            networks,
            port_mappings: None,
        };
        let response = setup
            .exec(Ok(()), Ok(options), &mut sysctl, &mut firewall, &mut constructor)
            .unwrap();
        assert_eq!(response.len(), count);
        assert_eq!(reads_for(&sysctl, "net.ipv4.ip_forward"), 1);
        assert_eq!(writes_for(&sysctl, "net.ipv4.ip_forward"), 1);
        assert_eq!(sysctl.get("net.ipv4.ip_forward").unwrap(), "1");
    }
}

#[test]
fn invalid_namespace_path_stops_before_any_mutation() {
    let setup = Setup::new("".to_string());
    let mut sysctl = forwarding_on();
    let mut firewall = RecordingFirewall::new();
    let mut constructor = RecordingConstructor::new();
    let options = NetworkOptions {
        container_id: "cid1".to_string(),
        network_info: vec![],
        networks: vec![],
        port_mappings: None,
    };
    let result = setup.exec(
        Err("no such namespace".to_string()),
        Ok(options),
        &mut sysctl,
        &mut firewall,
        &mut constructor,
    );
    match result {
        Err(SetupError::InvalidNamespacePath { reason }) => {
            assert_eq!(reason, "no such namespace")
        }
        other => panic!("expected a namespace error, got {:?}", other.is_ok()),
    }
    assert!(sysctl.events.is_empty());
    assert!(firewall.calls.is_empty());
    assert!(constructor.configured.is_empty());
}

#[test]
fn config_load_failure_carries_errno_one() {
    let setup = Setup::new("/run/netns/sample".to_string());
    let mut sysctl = forwarding_on();
    let mut firewall = RecordingFirewall::new();
    let mut constructor = RecordingConstructor::new();
    let result = setup.exec(
        Ok(()),
        Err("bad document".to_string()),
        &mut sysctl,
        &mut firewall,
        &mut constructor,
    );
    match result {
        Err(SetupError::ConfigLoad { message, errno }) => {
            assert_eq!(message, "bad document");
            assert_eq!(errno, 1);
        }
        other => panic!("expected a config-load error, got {:?}", other.is_ok()),
    }
    assert!(sysctl.events.is_empty());
}

#[test]
fn missing_firewall_backend_is_a_recoverable_error() {
    let absent: Option<RecordingFirewall> = None;
    assert!(matches!(
        get_supported_firewall_driver(absent),
        Err(SetupError::NoFirewallBackend)
    ));
    let present = Some(RecordingFirewall::new());
    assert!(get_supported_firewall_driver(present).is_ok());
}

#[test]
fn missing_per_network_options_names_the_network() {
    let setup = Setup::new("/run/netns/sample".to_string());
    let mut sysctl = forwarding_on();
    let mut firewall = RecordingFirewall::new();
    let mut constructor = RecordingConstructor::new();
    let options = NetworkOptions {
        container_id: "cid1".to_string(),
        network_info: vec![("net1".to_string(), bridge_network(None, None))],
        networks: vec![],
        port_mappings: None,
    };
    let result = setup.exec(Ok(()), Ok(options), &mut sysctl, &mut firewall, &mut constructor);
    match result {
        Err(SetupError::MissingPerNetworkOptions { network }) => assert_eq!(network, "net1"),
        other => panic!("expected a missing-options error, got {:?}", other.is_ok()),
    }
}

#[test]
fn port_mappings_without_static_ip_fail() {
    let setup = Setup::new("/run/netns/sample".to_string());
    let mut sysctl = forwarding_on();
    let mut firewall = RecordingFirewall::new();
    let mut constructor = RecordingConstructor::new();
    let options = NetworkOptions {
        container_id: "cid1".to_string(),
        network_info: vec![(
            "net1".to_string(),
            bridge_network(Some(vec![subnet("10.88.0.0/24")]), None),
        )],
        networks: vec![("net1".to_string(), per_options(None, None))],
        port_mappings: Some(vec![PortMapping {
            host_ip: None,
            host_port: 8080,
            container_port: 80,
            protocol: "tcp".to_string(),
        }]),
    };
    let result = setup.exec(Ok(()), Ok(options), &mut sysctl, &mut firewall, &mut constructor);
    assert!(matches!(result, Err(SetupError::NoContainerIp)));
}

#[test]
fn port_mappings_with_empty_static_ip_list_fail() {
    let setup = Setup::new("/run/netns/sample".to_string());
    let mut sysctl = forwarding_on();
    let mut firewall = RecordingFirewall::new();
    let mut constructor = RecordingConstructor::new();
    let options = NetworkOptions {
        container_id: "cid1".to_string(),
        network_info: vec![(
            "net1".to_string(),
            bridge_network(Some(vec![subnet("10.88.0.0/24")]), None),
        )],
        networks: vec![("net1".to_string(), per_options(Some(vec![]), None))],
        port_mappings: Some(vec![PortMapping {
            host_ip: None,
            host_port: 8080,
            container_port: 80,
            protocol: "tcp".to_string(),
        }]),
    };
    let result = setup.exec(Ok(()), Ok(options), &mut sysctl, &mut firewall, &mut constructor);
    assert!(matches!(result, Err(SetupError::NoContainerIp)));
}

#[test]
fn port_mappings_without_subnet_fail() {
    let setup = Setup::new("/run/netns/sample".to_string());
    let mut sysctl = forwarding_on();
    let mut firewall = RecordingFirewall::new();
    let mut constructor = RecordingConstructor::new();
    let options = NetworkOptions {
        container_id: "cid1".to_string(),
        network_info: vec![("net1".to_string(), bridge_network(None, None))],
        networks: vec![(
            "net1".to_string(),
            per_options(Some(vec!["10.88.0.5"]), None),
        )],
        port_mappings: Some(vec![PortMapping {
            host_ip: None,
            host_port: 8080,
            container_port: 80,
            protocol: "tcp".to_string(),
        }]),
    };
    let result = setup.exec(Ok(()), Ok(options), &mut sysctl, &mut firewall, &mut constructor);
    assert!(matches!(result, Err(SetupError::NoSubnet)));
}

#[test]
fn sysctl_failure_aborts_the_invocation() {
    let setup = Setup::new("/run/netns/sample".to_string());
    let mut sysctl = MemSysctl::new(vec![]);
    let mut firewall = RecordingFirewall::new();
    let mut constructor = RecordingConstructor::new();
    let options = NetworkOptions {
        container_id: "cid1".to_string(),
        network_info: vec![("net1".to_string(), macvlan_network())],
        networks: vec![("net1".to_string(), per_options(None, None))],
        port_mappings: None,
    };
    let result = setup.exec(Ok(()), Ok(options), &mut sysctl, &mut firewall, &mut constructor);
    assert!(matches!(result, Err(SetupError::Sysctl { .. })));
    assert!(constructor.configured.is_empty());
}

#[test]
fn constructor_failure_is_propagated() {
    let setup = Setup::new("/run/netns/sample".to_string());
    let mut sysctl = forwarding_on();
    let mut firewall = RecordingFirewall::new();
    let mut constructor = FailingConstructor::new();
    let options = NetworkOptions {
        container_id: "cid1".to_string(),
        network_info: vec![("net1".to_string(), bridge_network(None, None))],
        networks: vec![("net1".to_string(), per_options(None, None))],
        port_mappings: None,
    };
    let result = setup.exec(Ok(()), Ok(options), &mut sysctl, &mut firewall, &mut constructor);
    match result {
        Err(SetupError::Constructor { fault }) => {
            assert_eq!(fault.message, "interface construction refused")
        }
        other => panic!("expected a constructor error, got {:?}", other.is_ok()),
    }
    assert!(firewall.calls.is_empty());
}

#[test]
fn firewall_failure_aborts_after_the_interface_was_applied() {
    let setup = Setup::new("/run/netns/sample".to_string());
    let mut sysctl = forwarding_on();
    let mut firewall = FailingFirewall::new();
    let mut constructor = RecordingConstructor::new();
    let options = NetworkOptions {
        container_id: "cid1".to_string(),
        network_info: vec![("net1".to_string(), bridge_network(None, None))],
        networks: vec![("net1".to_string(), per_options(None, None))],
        port_mappings: None,
    };
    let result = setup.exec(Ok(()), Ok(options), &mut sysctl, &mut firewall, &mut constructor);
    match result {
        Err(SetupError::Firewall { fault }) => {
            assert_eq!(fault.message, "firewall rule installation refused")
        }
        other => panic!("expected a firewall error, got {:?}", other.is_ok()),
    }
    // the interface work stays applied: no rollback
    assert_eq!(constructor.configured.len(), 1);
}

#[test]
fn empty_port_mapping_list_requests_no_ports() {
    let setup = Setup::new("/run/netns/sample".to_string());
    let mut sysctl = forwarding_on();
    let mut firewall = RecordingFirewall::new();
    let mut constructor = RecordingConstructor::new();
    // no static address and no subnet: with a present but empty mapping list
    // nothing is published, so this must still succeed
    let options = NetworkOptions {
        container_id: "cid1".to_string(),
        network_info: vec![("net1".to_string(), bridge_network(None, Some("br0")))],
        networks: vec![("net1".to_string(), per_options(None, None))],
        port_mappings: Some(vec![]),
    };
    let response = setup
        .exec(Ok(()), Ok(options), &mut sysctl, &mut firewall, &mut constructor)
        .unwrap();
    assert_eq!(response.len(), 1);
    assert_eq!(firewall.calls.len(), 1);
    assert!(matches!(firewall.calls[0], FwCall::SetupNetwork { .. }));
    // no localnet toggle either: only the forwarding key was touched
    assert_eq!(reads_for(&sysctl, "net.ipv4.conf.br0.route_localnet"), 0);
}

#[test]
fn error_messages_name_the_offender() {
    let unknown = SetupError::UnknownDriver { driver: "vlan99".to_string() };
    assert_eq!(unknown.message(), "unknown network driver vlan99");
    let missing = SetupError::MissingPerNetworkOptions { network: "net1".to_string() };
    assert_eq!(missing.message(), "network options for network net1 not found");
    let bad_path = SetupError::InvalidNamespacePath { reason: "gone".to_string() };
    assert_eq!(bad_path.message(), "invalid namespace path: gone");
    assert_eq!(SetupError::NoContainerIp.message(), "no container ip provided");
    assert_eq!(SetupError::NoSubnet.message(), "no network address provided");
    assert_eq!(
        SetupError::NoFirewallBackend.message(),
        "could not find supported firewall backend"
    );
}
