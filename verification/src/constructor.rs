//! Per-driver creation of host and namespace interfaces.
//!
//! The low-level mechanics — creating a bridge or macvlan interface, moving
//! the namespace-side end, assigning addresses — belong to an external
//! collaborator. This module states the contract this core requires from it:
//! one `configure` operation per driver kind, each returning a status
//! snapshot and recording the configuration it applied.
use crate::types::Network;
use crate::types::NetworkV;
use crate::types::PerNetworkOptions;
use crate::types::PerNetworkOptionsV;
use crate::types::StatusBlock;
use crate::types::StatusBlockV;
use vstd::prelude::*;
use vstd::string::StringExecFns;

verus! {

/// A failed interface-construction operation, propagated unchanged.
#[derive(Debug)]
pub struct ConstructorFault {
    pub message: String,
}

/// One configuration a constructor applied, with the status it returned.
pub enum CtorCallV {
    Bridge { network: NetworkV, per: PerNetworkOptionsV, status: StatusBlockV },
    Macvlan { network: NetworkV, per: PerNetworkOptionsV, status: StatusBlockV },
}

/// The status snapshot a recorded configuration returned.
pub open spec fn ctor_status(c: CtorCallV) -> StatusBlockV {
    match c {
        CtorCallV::Bridge { status, .. } => status,
        CtorCallV::Macvlan { status, .. } => status,
    }
}

/// The boundary contract this core requires from the interface constructor:
/// a successful configuration appends exactly its own record; a failed one
/// applies nothing and is reported through its error.
pub trait NetworkConstructor: Sized {
    /// Every configuration applied through this constructor, oldest first.
    spec fn log(&self) -> Seq<CtorCallV>;

    /// Whether this constructor promises to apply every request.
    spec fn infallible(&self) -> bool;

    /// How many requests this constructor has refused.
    spec fn failed(&self) -> nat;

    /// Ensure a host bridge for the network, create a veth pair, move the
    /// namespace-side end into the target namespace, assign the requested
    /// addresses, and return the resulting state.
    fn configure_bridge(
        &mut self,
        per: &PerNetworkOptions,
        network: &Network,
        ns_path: &String,
    ) -> (r: Result<StatusBlock, ConstructorFault>)
        ensures
            (r matches Ok(sb) ==> final(self).log() == old(self).log().push(
                CtorCallV::Bridge { network: network@, per: per@, status: sb@ },
            )),
            r is Err ==> final(self).log() == old(self).log(),
            final(self).infallible() == old(self).infallible(),
            final(self).failed() == old(self).failed() + (if r is Ok {
                0nat
            } else {
                1nat
            }),
            old(self).infallible() ==> r is Ok,
    ;

    /// Create a macvlan interface bound to the configured host interface,
    /// move it into the namespace, assign addresses, and return the
    /// resulting state. No firewall interaction.
    fn configure_macvlan(
        &mut self,
        per: &PerNetworkOptions,
        network: &Network,
        ns_path: &String,
    ) -> (r: Result<StatusBlock, ConstructorFault>)
        ensures
            (r matches Ok(sb) ==> final(self).log() == old(self).log().push(
                CtorCallV::Macvlan { network: network@, per: per@, status: sb@ },
            )),
            r is Err ==> final(self).log() == old(self).log(),
            final(self).infallible() == old(self).infallible(),
            final(self).failed() == old(self).failed() + (if r is Ok {
                0nat
            } else {
                1nat
            }),
            old(self).infallible() ==> r is Ok,
    ;
}

/// A constructor that touches no interfaces: it derives a deterministic
/// status snapshot from the request and records what it was asked to
/// configure, so the orchestrator can be exercised and observed without a
/// host.
pub struct RecordingConstructor {
    pub configured: Vec<StatusBlock>,
    pub ghost_log: Ghost<Seq<CtorCallV>>,
}

/// The status the recording constructor derives from a request: one
/// interface, named by the requested container-side name or `eth0`, holding
/// the requested static addresses.
pub open spec fn spec_derived_status(per: PerNetworkOptionsV) -> StatusBlockV {
    StatusBlockV {
        interfaces: seq![
            (
                match per.interface_name {
                    Some(n) => n,
                    None => "eth0"@,
                },
                match per.static_ips {
                    Some(ips) => ips,
                    None => Seq::empty(),
                },
            ),
        ],
    }
}

/// Build the derived status snapshot for a request.
#[verifier::loop_isolation(false)]
pub fn derived_status(per: &PerNetworkOptions, _network: &Network) -> (sb: StatusBlock)
    ensures
        sb@ == spec_derived_status(per@),
{
    let name = match &per.interface_name {
        Some(n) => n.clone(),
        None => String::from_str("eth0"),
    };
    let mut addresses: Vec<String> = Vec::new();
    match &per.static_ips {
        Some(ips) => {
            let mut i: usize = 0;
            while i < ips.len()
                invariant
                    i <= ips@.len(),
                    addresses@.map_values(|x: String| x@) == ips@.map_values(
                        |x: String| x@,
                    ).take(i as int),
                decreases ips.len() - i,
            {
                let ghost pre = addresses@;
                addresses.push(ips[i].clone());
                proof {
                    assert(addresses@.map_values(|x: String| x@) =~= pre.map_values(
                        |x: String| x@,
                    ).push(ips@[i as int]@));
                    assert(ips@.map_values(|x: String| x@).take(i + 1) =~= ips@.map_values(
                        |x: String| x@,
                    ).take(i as int).push(ips@[i as int]@));
                }
                i = i + 1;
            }
            proof {
                assert(ips@.map_values(|x: String| x@).take(ips@.len() as int) =~= ips@.map_values(
                    |x: String| x@,
                ));
            }
        },
        None => {},
    }
    let mut interfaces: Vec<(String, Vec<String>)> = Vec::new();
    interfaces.push((name, addresses));
    let sb = StatusBlock { interfaces };
    proof {
        assert(sb@.interfaces =~~= spec_derived_status(per@).interfaces);
    }
    sb
}

impl RecordingConstructor {
    /// A constructor with an empty record.
    pub fn new() -> (s: RecordingConstructor)
        ensures
            s.log() == Seq::<CtorCallV>::empty(),
    {
        RecordingConstructor { configured: Vec::new(), ghost_log: Ghost(Seq::empty()) }
    }
}

/// A constructor that refuses every request, for exercising the
/// fail-fast path: it applies nothing and records nothing.
pub struct FailingConstructor {
    pub ghost_log: Ghost<Seq<CtorCallV>>,
    pub refusals: Ghost<nat>,
}

impl FailingConstructor {
    /// A constructor that will refuse every request.
    pub fn new() -> (s: FailingConstructor)
        ensures
            s.log() == Seq::<CtorCallV>::empty(),
            s.failed() == 0,
    {
        FailingConstructor { ghost_log: Ghost(Seq::empty()), refusals: Ghost(0) }
    }
}

impl NetworkConstructor for FailingConstructor {
    open spec fn log(&self) -> Seq<CtorCallV> {
        self.ghost_log@
    }

    open spec fn infallible(&self) -> bool {
        false
    }

    open spec fn failed(&self) -> nat {
        self.refusals@
    }

    fn configure_bridge(
        &mut self,
        _per: &PerNetworkOptions,
        _network: &Network,
        _ns_path: &String,
    ) -> (r: Result<StatusBlock, ConstructorFault>) {
        proof {
            self.refusals@ = self.refusals@ + 1;
        }
        Err(ConstructorFault { message: String::from_str("interface construction refused") })
    }

    fn configure_macvlan(
        &mut self,
        _per: &PerNetworkOptions,
        _network: &Network,
        _ns_path: &String,
    ) -> (r: Result<StatusBlock, ConstructorFault>) {
        proof {
            self.refusals@ = self.refusals@ + 1;
        }
        Err(ConstructorFault { message: String::from_str("interface construction refused") })
    }
}

impl NetworkConstructor for RecordingConstructor {
    open spec fn log(&self) -> Seq<CtorCallV> {
        self.ghost_log@
    }

    open spec fn infallible(&self) -> bool {
        true
    }

    open spec fn failed(&self) -> nat {
        0
    }

    fn configure_bridge(
        &mut self,
        per: &PerNetworkOptions,
        network: &Network,
        ns_path: &String,
    ) -> (r: Result<StatusBlock, ConstructorFault>) {
        let sb = derived_status(per, network);
        let sb_copy = derived_status(per, network);
        proof {
            self.ghost_log@ = self.ghost_log@.push(
                CtorCallV::Bridge { network: network@, per: per@, status: sb@ },
            );
        }
        self.configured.push(sb_copy);
        Ok(sb)
    }

    fn configure_macvlan(
        &mut self,
        per: &PerNetworkOptions,
        network: &Network,
        ns_path: &String,
    ) -> (r: Result<StatusBlock, ConstructorFault>) {
        let sb = derived_status(per, network);
        let sb_copy = derived_status(per, network);
        proof {
            self.ghost_log@ = self.ghost_log@.push(
                CtorCallV::Macvlan { network: network@, per: per@, status: sb@ },
            );
        }
        self.configured.push(sb_copy);
        Ok(sb)
    }
}

} // verus!
