//! Data model for one setup invocation: the network options handed in by the
//! config-loading layer, and the status records handed back to the caller.
//!
//! Addresses, CIDR blocks and gateways are carried as plain strings: this core
//! never inspects their structure, it only routes them between collaborators.
use vstd::prelude::*;
use vstd::string::StringExecFns;

verus! {

/// A CIDR network address with an optional gateway.
#[derive(Debug)]
pub struct Subnet {
    pub subnet: String,
    pub gateway: Option<String>,
}

/// Mathematical value of a [`Subnet`].
pub struct SubnetV {
    pub subnet: Seq<char>,
    pub gateway: Option<Seq<char>>,
}

/// Mathematical value of an optional string.
pub open spec fn view_opt_string(o: Option<String>) -> Option<Seq<char>> {
    match o {
        Some(s) => Some(s@),
        None => None,
    }
}

/// Mathematical value of a string list.
pub open spec fn view_string_seq(s: Seq<String>) -> Seq<Seq<char>> {
    s.map_values(|x: String| x@)
}

impl View for Subnet {
    type V = SubnetV;

    open spec fn view(&self) -> SubnetV {
        SubnetV { subnet: self.subnet@, gateway: view_opt_string(self.gateway) }
    }
}

/// One logical network a container can be attached to: a driver kind (an open
/// set of strings; unsupported strings are rejected input, not a programming
/// error), an optional bound host interface, and optional subnets.
#[derive(Debug)]
pub struct Network {
    pub driver: String,
    pub network_interface: Option<String>,
    pub subnets: Option<Vec<Subnet>>,
}

/// Mathematical value of a [`Network`].
pub struct NetworkV {
    pub driver: Seq<char>,
    pub network_interface: Option<Seq<char>>,
    pub subnets: Option<Seq<SubnetV>>,
}

impl View for Network {
    type V = NetworkV;

    open spec fn view(&self) -> NetworkV {
        NetworkV {
            driver: self.driver@,
            network_interface: view_opt_string(self.network_interface),
            subnets: match self.subnets {
                Some(v) => Some(v@.map_values(|s: Subnet| s@)),
                None => None,
            },
        }
    }
}

/// Per-network options requested for the container: static addresses and a
/// container-side interface name.
#[derive(Debug)]
pub struct PerNetworkOptions {
    pub static_ips: Option<Vec<String>>,
    pub interface_name: Option<String>,
}

/// Mathematical value of a [`PerNetworkOptions`].
pub struct PerNetworkOptionsV {
    pub static_ips: Option<Seq<Seq<char>>>,
    pub interface_name: Option<Seq<char>>,
}

impl View for PerNetworkOptions {
    type V = PerNetworkOptionsV;

    open spec fn view(&self) -> PerNetworkOptionsV {
        PerNetworkOptionsV {
            static_ips: match self.static_ips {
                Some(v) => Some(view_string_seq(v@)),
                None => None,
            },
            interface_name: view_opt_string(self.interface_name),
        }
    }
}

/// One published port: a host port redirected to a container port.
#[derive(Debug)]
pub struct PortMapping {
    pub host_ip: Option<String>,
    pub host_port: u16,
    pub container_port: u16,
    pub protocol: String,
}

/// Mathematical value of a [`PortMapping`].
pub struct PortMappingV {
    pub host_ip: Option<Seq<char>>,
    pub host_port: u16,
    pub container_port: u16,
    pub protocol: Seq<char>,
}

impl View for PortMapping {
    type V = PortMappingV;

    open spec fn view(&self) -> PortMappingV {
        PortMappingV {
            host_ip: view_opt_string(self.host_ip),
            host_port: self.host_port,
            container_port: self.container_port,
            protocol: self.protocol@,
        }
    }
}

/// Everything one invocation needs: the container identifier, the networks to
/// join (insertion order is the processing order), the per-network options
/// keyed by network name, and the ports to publish.
#[derive(Debug)]
pub struct NetworkOptions {
    pub container_id: String,
    pub network_info: Vec<(String, Network)>,
    pub networks: Vec<(String, PerNetworkOptions)>,
    pub port_mappings: Option<Vec<PortMapping>>,
}

/// Mathematical value of a [`NetworkOptions`].
pub struct NetworkOptionsV {
    pub container_id: Seq<char>,
    pub network_info: Seq<(Seq<char>, NetworkV)>,
    pub networks: Seq<(Seq<char>, PerNetworkOptionsV)>,
    pub port_mappings: Option<Seq<PortMappingV>>,
}

impl View for NetworkOptions {
    type V = NetworkOptionsV;

    open spec fn view(&self) -> NetworkOptionsV {
        NetworkOptionsV {
            container_id: self.container_id@,
            network_info: self.network_info@.map_values(|p: (String, Network)| (p.0@, p.1@)),
            networks: self.networks@.map_values(|p: (String, PerNetworkOptions)| (p.0@, p.1@)),
            port_mappings: match self.port_mappings {
                Some(v) => Some(v@.map_values(|m: PortMapping| m@)),
                None => None,
            },
        }
    }
}

/// The result of configuring one network: the assigned interfaces, each with
/// its addresses.
#[derive(Debug, PartialEq)]
pub struct StatusBlock {
    pub interfaces: Vec<(String, Vec<String>)>,
}

/// Mathematical value of a [`StatusBlock`].
pub struct StatusBlockV {
    pub interfaces: Seq<(Seq<char>, Seq<Seq<char>>)>,
}

impl View for StatusBlock {
    type V = StatusBlockV;

    open spec fn view(&self) -> StatusBlockV {
        StatusBlockV {
            interfaces: self.interfaces@.map_values(
                |p: (String, Vec<String>)| (p.0@, view_string_seq(p.1@)),
            ),
        }
    }
}

impl Subnet {
    /// A deep copy.
    pub fn copied(&self) -> (r: Subnet)
        ensures
            r@ == self@,
    {
        Subnet {
            subnet: self.subnet.clone(),
            gateway: match &self.gateway {
                Some(g) => Some(g.clone()),
                None => None,
            },
        }
    }
}

impl Network {
    /// A deep copy, handed to collaborators that take ownership while the
    /// orchestrator keeps reading the original options.
    #[verifier::loop_isolation(false)]
    pub fn copied(&self) -> (r: Network)
        ensures
            r@ == self@,
    {
        let network_interface = match &self.network_interface {
            Some(s) => Some(s.clone()),
            None => None,
        };
        let subnets = match &self.subnets {
            Some(v) => {
                let mut out: Vec<Subnet> = Vec::new();
                let mut i: usize = 0;
                while i < v.len()
                    invariant
                        i <= v@.len(),
                        out@.map_values(|s: Subnet| s@) == v@.map_values(|s: Subnet| s@).take(
                            i as int,
                        ),
                    decreases v.len() - i,
                {
                    let ghost pre = out@;
                    out.push(v[i].copied());
                    proof {
                        assert(out@.map_values(|s: Subnet| s@) =~= pre.map_values(
                            |s: Subnet| s@,
                        ).push(v@[i as int]@));
                        assert(v@.map_values(|s: Subnet| s@).take(i + 1) =~= v@.map_values(
                            |s: Subnet| s@,
                        ).take(i as int).push(v@[i as int]@));
                    }
                    i = i + 1;
                }
                proof {
                    assert(v@.map_values(|s: Subnet| s@).take(v@.len() as int) =~= v@.map_values(
                        |s: Subnet| s@,
                    ));
                }
                Some(out)
            },
            None => None,
        };
        let r = Network { driver: self.driver.clone(), network_interface, subnets };
        proof {
            assert(r@.driver == self@.driver);
            assert(r@.network_interface == self@.network_interface);
            assert(r@.subnets == self@.subnets);
        }
        r
    }
}

impl PortMapping {
    /// A deep copy.
    pub fn copied(&self) -> (r: PortMapping)
        ensures
            r@ == self@,
    {
        PortMapping {
            host_ip: match &self.host_ip {
                Some(h) => Some(h.clone()),
                None => None,
            },
            host_port: self.host_port,
            container_port: self.container_port,
            protocol: self.protocol.clone(),
        }
    }
}

/// A deep copy of a port-mapping list.
#[verifier::loop_isolation(false)]
pub fn copy_port_mappings(v: &Vec<PortMapping>) -> (r: Vec<PortMapping>)
    ensures
        r@.map_values(|m: PortMapping| m@) == v@.map_values(|m: PortMapping| m@),
{
    let mut out: Vec<PortMapping> = Vec::new();
    let mut i: usize = 0;
    while i < v.len()
        invariant
            i <= v@.len(),
            out@.map_values(|m: PortMapping| m@) == v@.map_values(|m: PortMapping| m@).take(
                i as int,
            ),
        decreases v.len() - i,
    {
        let ghost pre = out@;
        out.push(v[i].copied());
        proof {
            assert(out@.map_values(|m: PortMapping| m@) =~= pre.map_values(
                |m: PortMapping| m@,
            ).push(v@[i as int]@));
            assert(v@.map_values(|m: PortMapping| m@).take(i + 1) =~= v@.map_values(
                |m: PortMapping| m@,
            ).take(i as int).push(v@[i as int]@));
        }
        i = i + 1;
    }
    proof {
        assert(v@.map_values(|m: PortMapping| m@).take(v@.len() as int) =~= v@.map_values(
            |m: PortMapping| m@,
        ));
    }
    out
}

/// The driver kinds this core dispatches on; any other driver string is a
/// rejected input.
#[derive(Debug, Clone, Copy, PartialEq, Eq, Structural)]
pub enum DriverKind {
    Bridge,
    Macvlan,
    Unsupported,
}

/// The driver kind named by a driver string.
pub open spec fn spec_driver_kind(driver: Seq<char>) -> DriverKind {
    if driver == "bridge"@ {
        DriverKind::Bridge
    } else if driver == "macvlan"@ {
        DriverKind::Macvlan
    } else {
        DriverKind::Unsupported
    }
}

/// Dispatch on the driver string of a network.
pub fn driver_kind(driver: &String) -> (k: DriverKind)
    ensures
        k == spec_driver_kind(driver@),
{
    let bridge = String::from_str("bridge");
    let macvlan = String::from_str("macvlan");
    if driver.eq(&bridge) {
        DriverKind::Bridge
    } else if driver.eq(&macvlan) {
        DriverKind::Macvlan
    } else {
        DriverKind::Unsupported
    }
}

} // verus!
