//! Backend-agnostic firewall interface: per-network baseline rules and
//! per-port-mapping destination NAT, every installed piece named through the
//! bounded rule handle so that rules from different containers and networks
//! never collide.
//!
//! Neither operation checks for an existing rule: a second call for the same
//! handle installs a duplicate. That limitation is part of the contract.
use crate::types::NetworkV;
use crate::types::PortMappingV;
use crate::types::Network;
use crate::types::PortMapping;
use vstd::prelude::*;
use vstd::string::StringExecFns;

verus! {

/// A failed firewall-backend operation.
#[derive(Debug)]
pub struct FirewallFault {
    pub message: String,
}

/// One rule-installing call issued to a firewall backend, as recorded by the
/// recording backend.
#[derive(Debug)]
pub enum FwCall {
    SetupNetwork {
        network: Network,
        handle: String,
    },
    SetupPortForward {
        container_id: String,
        mappings: Vec<PortMapping>,
        container_ip: String,
        subnet: String,
        network_name: String,
        handle_prefix: String,
    },
}

/// Mathematical value of a [`FwCall`].
pub enum FwCallV {
    SetupNetwork {
        network: NetworkV,
        handle: Seq<char>,
    },
    SetupPortForward {
        container_id: Seq<char>,
        mappings: Seq<PortMappingV>,
        container_ip: Seq<char>,
        subnet: Seq<char>,
        network_name: Seq<char>,
        handle_prefix: Seq<char>,
    },
}

impl View for FwCall {
    type V = FwCallV;

    open spec fn view(&self) -> FwCallV {
        match self {
            FwCall::SetupNetwork { network, handle } => FwCallV::SetupNetwork {
                network: network@,
                handle: handle@,
            },
            FwCall::SetupPortForward {
                container_id,
                mappings,
                container_ip,
                subnet,
                network_name,
                handle_prefix,
            } => FwCallV::SetupPortForward {
                container_id: container_id@,
                mappings: mappings@.map_values(|m: PortMapping| m@),
                container_ip: container_ip@,
                subnet: subnet@,
                network_name: network_name@,
                handle_prefix: handle_prefix@,
            },
        }
    }
}

/// The boundary contract this core requires from a firewall backend: each
/// operation appends exactly its own record to the log of issued calls,
/// whether or not the backend then succeeds. Nothing deduplicates the log:
/// re-invocation with the same arguments installs the same state again.
pub trait FirewallDriver: Sized {
    /// Every rule-installing call issued through this backend, oldest first.
    spec fn log(&self) -> Seq<FwCallV>;

    /// Whether this backend promises to install every asked rule.
    spec fn infallible(&self) -> bool;

    /// How many issued calls this backend has refused.
    spec fn failed(&self) -> nat;

    /// Install the baseline chain and rules for one network: outbound
    /// masquerade and inter-network isolation, named by `handle`.
    fn setup_network(&mut self, network: Network, handle: String) -> (r: Result<
        (),
        FirewallFault,
    >)
        ensures
            final(self).log() == old(self).log().push(
                FwCallV::SetupNetwork { network: network@, handle: handle@ },
            ),
            final(self).infallible() == old(self).infallible(),
            final(self).failed() == old(self).failed() + (if r is Ok {
                0nat
            } else {
                1nat
            }),
            old(self).infallible() ==> r is Ok,
    ;

    /// Install destination-NAT rules mapping each host port of `mappings` to
    /// the matching container port of `container_ip` within `subnet`, named
    /// by `handle_prefix`.
    fn setup_port_forward(
        &mut self,
        container_id: String,
        mappings: Vec<PortMapping>,
        container_ip: String,
        subnet: String,
        network_name: String,
        handle_prefix: String,
    ) -> (r: Result<(), FirewallFault>)
        ensures
            final(self).log() == old(self).log().push(
                FwCallV::SetupPortForward {
                    container_id: container_id@,
                    mappings: mappings@.map_values(|m: PortMapping| m@),
                    container_ip: container_ip@,
                    subnet: subnet@,
                    network_name: network_name@,
                    handle_prefix: handle_prefix@,
                },
            ),
            final(self).infallible() == old(self).infallible(),
            final(self).failed() == old(self).failed() + (if r is Ok {
                0nat
            } else {
                1nat
            }),
            old(self).infallible() ==> r is Ok,
    ;
}

/// A backend that installs nothing and records every call it was asked to
/// make, so the orchestrator can be exercised and observed without touching
/// the host.
#[derive(Debug)]
pub struct RecordingFirewall {
    pub calls: Vec<FwCall>,
}

impl RecordingFirewall {
    /// A backend with an empty record.
    pub fn new() -> (s: RecordingFirewall)
        ensures
            s.log() == Seq::<FwCallV>::empty(),
    {
        let s = RecordingFirewall { calls: Vec::new() };
        proof {
            assert(s.calls@.map_values(|c: FwCall| c@) =~= Seq::<FwCallV>::empty());
        }
        s
    }
}

/// A backend that records every call it was asked to make and then refuses
/// it, for exercising the fail-fast path.
pub struct FailingFirewall {
    pub ghost_log: Ghost<Seq<FwCallV>>,
    pub refusals: Ghost<nat>,
}

impl FailingFirewall {
    /// A backend that will refuse every call.
    pub fn new() -> (s: FailingFirewall)
        ensures
            s.log() == Seq::<FwCallV>::empty(),
            s.failed() == 0,
    {
        FailingFirewall { ghost_log: Ghost(Seq::empty()), refusals: Ghost(0) }
    }

    fn refusal(&self) -> (r: FirewallFault) {
        FirewallFault { message: String::from_str("firewall rule installation refused") }
    }
}

impl FirewallDriver for FailingFirewall {
    open spec fn log(&self) -> Seq<FwCallV> {
        self.ghost_log@
    }

    open spec fn infallible(&self) -> bool {
        false
    }

    open spec fn failed(&self) -> nat {
        self.refusals@
    }

    fn setup_network(&mut self, network: Network, handle: String) -> (r: Result<
        (),
        FirewallFault,
    >) {
        proof {
            self.ghost_log@ = self.ghost_log@.push(
                FwCallV::SetupNetwork { network: network@, handle: handle@ },
            );
            self.refusals@ = self.refusals@ + 1;
        }
        Err(self.refusal())
    }

    fn setup_port_forward(
        &mut self,
        container_id: String,
        mappings: Vec<PortMapping>,
        container_ip: String,
        subnet: String,
        network_name: String,
        handle_prefix: String,
    ) -> (r: Result<(), FirewallFault>) {
        proof {
            self.ghost_log@ = self.ghost_log@.push(
                FwCallV::SetupPortForward {
                    container_id: container_id@,
                    mappings: mappings@.map_values(|m: PortMapping| m@),
                    container_ip: container_ip@,
                    subnet: subnet@,
                    network_name: network_name@,
                    handle_prefix: handle_prefix@,
                },
            );
            self.refusals@ = self.refusals@ + 1;
        }
        Err(self.refusal())
    }
}

impl FirewallDriver for RecordingFirewall {
    open spec fn log(&self) -> Seq<FwCallV> {
        self.calls@.map_values(|c: FwCall| c@)
    }

    open spec fn infallible(&self) -> bool {
        true
    }

    open spec fn failed(&self) -> nat {
        0
    }

    fn setup_network(&mut self, network: Network, handle: String) -> (r: Result<
        (),
        FirewallFault,
    >) {
        let ghost pre = self.calls@;
        self.calls.push(FwCall::SetupNetwork { network, handle });
        proof {
            assert(self.calls@.map_values(|c: FwCall| c@) =~= pre.map_values(
                |c: FwCall| c@,
            ).push(self.calls@.last()@));
        }
        Ok(())
    }

    fn setup_port_forward(
        &mut self,
        container_id: String,
        mappings: Vec<PortMapping>,
        container_ip: String,
        subnet: String,
        network_name: String,
        handle_prefix: String,
    ) -> (r: Result<(), FirewallFault>) {
        let ghost pre = self.calls@;
        self.calls.push(
            FwCall::SetupPortForward {
                container_id,
                mappings,
                container_ip,
                subnet,
                network_name,
                handle_prefix,
            },
        );
        proof {
            assert(self.calls@.map_values(|c: FwCall| c@) =~= pre.map_values(
                |c: FwCall| c@,
            ).push(self.calls@.last()@));
        }
        Ok(())
    }
}

} // verus!
