//! The setup orchestrator: one sequential pass over the requested networks,
//! no retries, first failure aborts all remaining work and nothing already
//! applied is rolled back.
//!
//! Its contract is stated over the operation logs of the three collaborators
//! it drives — the kernel-parameter manager, the firewall backend, and the
//! interface constructor — and over the response it builds.
use crate::constructor::ctor_status;
use crate::constructor::ConstructorFault;
use crate::constructor::CtorCallV;
use crate::constructor::NetworkConstructor;
use crate::firewall::FirewallDriver;
use crate::firewall::FirewallFault;
use crate::firewall::FwCallV;
use crate::hash::create_network_hash;
use crate::hash::is_hex_char;
use crate::hash::lemma_hash_shape;
use crate::hash::MAX_HASH_SIZE;
use crate::hash::spec_network_hash;
use crate::sysctl_mgr::ensure;
use crate::sysctl_mgr::ensure_trace_for;
use crate::sysctl_mgr::lemma_run_for_empty;
use crate::sysctl_mgr::lemma_run_for_push;
use crate::sysctl_mgr::map_after;
use crate::sysctl_mgr::map_after_run;
use crate::sysctl_mgr::one_value;
use crate::sysctl_mgr::owed_writes;
use crate::sysctl_mgr::run_for;
use crate::sysctl_mgr::is_ensure_trace;
use crate::sysctl_mgr::is_ensure_run;
use crate::sysctl_mgr::lemma_ensure_run_append;
use crate::sysctl_mgr::reads_of;
use crate::sysctl_mgr::writes_of;
use crate::sysctl_mgr::lemma_counts_append;
use crate::sysctl_mgr::lemma_trace_counts;
use crate::sysctl_mgr::SysctlApi;
use crate::sysctl_mgr::SysctlEventV;
use crate::sysctl_mgr::SysctlFault;
use crate::types::spec_driver_kind;
use crate::types::driver_kind;
use crate::types::copy_port_mappings;
use crate::types::view_string_seq;
use crate::types::DriverKind;
use crate::types::NetworkOptions;
use crate::types::NetworkOptionsV;
use crate::types::PerNetworkOptions;
use crate::types::PerNetworkOptionsV;
use crate::types::StatusBlock;
use crate::types::StatusBlockV;
use vstd::prelude::*;
use vstd::string::StringExecFns;
use vstd::string::StrSliceExecFns;

verus! {

/// Why one invocation failed; every error aborts the remaining work.
#[derive(Debug)]
#[allow(inconsistent_fields)]
pub enum SetupError {
    /// The namespace path was rejected before any host mutation.
    InvalidNamespacePath { reason: String },
    /// The network-options document could not be loaded; carries the numeric
    /// code reported alongside the message.
    ConfigLoad { message: String, errno: u32 },
    /// No installed firewall backend was found by the capability probe.
    NoFirewallBackend,
    /// A kernel-parameter read or write failed.
    Sysctl { fault: SysctlFault },
    /// A network names no per-network options entry.
    MissingPerNetworkOptions { network: String },
    /// A network names a driver this core does not support.
    UnknownDriver { driver: String },
    /// Port mappings were requested without a static container address.
    NoContainerIp,
    /// Port mappings were requested without a subnet.
    NoSubnet,
    /// The interface constructor failed; propagated unchanged.
    Constructor { fault: ConstructorFault },
    /// The firewall backend failed; propagated unchanged.
    Firewall { fault: FirewallFault },
}

/// The user-facing description of each error, as the response channel
/// reports it.
#[verifier::opaque]
pub open spec fn spec_message(e: SetupError) -> Seq<char> {
    match e {
        SetupError::InvalidNamespacePath { reason } => "invalid namespace path: "@ + reason@,
        SetupError::ConfigLoad { message, .. } => message@,
        SetupError::NoFirewallBackend => "could not find supported firewall backend"@,
        SetupError::Sysctl { fault } => fault.message@,
        SetupError::MissingPerNetworkOptions { network } => ("network options for network "@
            + network@) + " not found"@,
        SetupError::UnknownDriver { driver } => "unknown network driver "@ + driver@,
        SetupError::NoContainerIp => "no container ip provided"@,
        SetupError::NoSubnet => "no network address provided"@,
        SetupError::Constructor { fault } => fault.message@,
        SetupError::Firewall { fault } => fault.message@,
    }
}

impl SetupError {
    /// The user-facing description of this error. The numeric code of a
    /// config-load failure is carried in the error itself and reported
    /// alongside this text.
    pub fn message(&self) -> (m: String)
        ensures
            m@ == spec_message(*self),
    {
        proof {
            reveal(spec_message);
        }
        match self {
            SetupError::InvalidNamespacePath { reason } => {
                let mut s = String::from_str("invalid namespace path: ");
                s.append(reason.as_str());
                s
            },
            SetupError::ConfigLoad { message, .. } => message.clone(),
            SetupError::NoFirewallBackend => String::from_str(
                "could not find supported firewall backend",
            ),
            SetupError::Sysctl { fault } => fault.message.clone(),
            SetupError::MissingPerNetworkOptions { network } => {
                let mut s = String::from_str("network options for network ");
                s.append(network.as_str());
                s.append(" not found");
                s
            },
            SetupError::UnknownDriver { driver } => {
                let mut s = String::from_str("unknown network driver ");
                s.append(driver.as_str());
                s
            },
            SetupError::NoContainerIp => String::from_str("no container ip provided"),
            SetupError::NoSubnet => String::from_str("no network address provided"),
            SetupError::Constructor { fault } => fault.message.clone(),
            SetupError::Firewall { fault } => fault.message.clone(),
        }
    }
}

/// The key of the global forwarding toggle, ensured once per invocation.
pub open spec fn ipv4_forward_key() -> Seq<char> {
    "net.ipv4.ip_forward"@
}

/// The localnet-forwarding key for a bound host interface.
pub open spec fn localnet_key(iface: Seq<char>) -> Seq<char> {
    ("net.ipv4.conf."@ + iface) + ".route_localnet"@
}

/// A localnet key never collides with the global forwarding key.
pub proof fn lemma_localnet_key_ne_forward(iface: Seq<char>)
    ensures
        localnet_key(iface) != ipv4_forward_key(),
{
    reveal_strlit("net.ipv4.ip_forward");
    reveal_strlit("net.ipv4.conf.");
    reveal_strlit(".route_localnet");
    assert(localnet_key(iface).len() == 29 + iface.len());
    assert(ipv4_forward_key().len() == 19);
}

/// The per-network options stored under `name`, first entry winning.
pub open spec fn spec_lookup(
    networks: Seq<(Seq<char>, PerNetworkOptionsV)>,
    name: Seq<char>,
) -> Option<PerNetworkOptionsV>
    decreases networks.len(),
{
    if networks.len() == 0 {
        None
    } else if networks[0].0 == name {
        Some(networks[0].1)
    } else {
        spec_lookup(networks.skip(1), name)
    }
}

/// Whether the bridge network at position `i` carries everything a
/// port-forward installation needs: a static address and a subnet.
pub open spec fn port_forward_ready(o: NetworkOptionsV, i: int) -> bool {
    let name = o.network_info[i].0;
    let net = o.network_info[i].1;
    match spec_lookup(o.networks, name) {
        Some(per) => {
            &&& per.static_ips is Some
            &&& per.static_ips.unwrap().len() > 0
            &&& net.subnets is Some
            &&& net.subnets.unwrap().len() > 0
        },
        None => false,
    }
}

/// Whether the caller asked for any port to be published: a present but
/// empty mapping list requests nothing.
pub open spec fn ports_requested(o: NetworkOptionsV) -> bool {
    match o.port_mappings {
        Some(pm) => pm.len() > 0,
        None => false,
    }
}

/// Whether the localnet key the network at position `i` may need is present
/// in the table `m`.
pub open spec fn localnet_available(
    o: NetworkOptionsV,
    i: int,
    m: Map<Seq<char>, Seq<char>>,
) -> bool {
    let net = o.network_info[i].1;
    (spec_driver_kind(net.driver) == DriverKind::Bridge && ports_requested(o)
        && net.network_interface is Some) ==> m.contains_key(
        localnet_key(net.network_interface.unwrap()),
    )
}

/// Whether the localnet toggle the network at position `i` may need holds
/// `"1"` in the table `m`.
pub open spec fn localnet_ensured(o: NetworkOptionsV, i: int, m: Map<Seq<char>, Seq<char>>) -> bool {
    let net = o.network_info[i].1;
    (spec_driver_kind(net.driver) == DriverKind::Bridge && ports_requested(o)
        && net.network_interface is Some) ==> (m.contains_key(
        localnet_key(net.network_interface.unwrap()),
    ) && m[localnet_key(net.network_interface.unwrap())] == one_value())
}

/// Whether the table `m` holds every key this invocation may ensure.
pub open spec fn keys_available(o: NetworkOptionsV, m: Map<Seq<char>, Seq<char>>) -> bool {
    &&& m.contains_key(ipv4_forward_key())
    &&& forall|i: int| 0 <= i < o.network_info.len() ==> #[trigger] localnet_available(o, i, m)
}

/// Whether the network at position `i` can be fully processed: a supported
/// driver, a per-network options entry, and — for a bridge network when port
/// mappings were requested — the data port forwarding needs.
pub open spec fn network_valid(o: NetworkOptionsV, i: int) -> bool {
    let name = o.network_info[i].0;
    let net = o.network_info[i].1;
    &&& spec_driver_kind(net.driver) != DriverKind::Unsupported
    &&& spec_lookup(o.networks, name) is Some
    &&& (spec_driver_kind(net.driver) == DriverKind::Bridge && ports_requested(o)
        ==> port_forward_ready(o, i))
}

/// Whether every requested network can be fully processed.
pub open spec fn options_valid(o: NetworkOptionsV) -> bool {
    forall|i: int| 0 <= i < o.network_info.len() ==> network_valid(o, i)
}

/// The firewall calls the orchestrator owes for the network at position `i`:
/// one baseline installation per bridge network, plus one port-forward
/// installation when port mappings were requested — fed with the first
/// static address and the first subnet only, and named by the bounded rule
/// handle. A macvlan network owes none.
pub open spec fn expected_fw_ops(o: NetworkOptionsV, i: int) -> Seq<FwCallV> {
    let name = o.network_info[i].0;
    let net = o.network_info[i].1;
    if spec_driver_kind(net.driver) == DriverKind::Bridge {
        let base = seq![
            FwCallV::SetupNetwork { network: net, handle: spec_network_hash(name) },
        ];
        if ports_requested(o) {
            base.push(
                FwCallV::SetupPortForward {
                    container_id: o.container_id,
                    mappings: o.port_mappings.unwrap(),
                    container_ip: spec_lookup(o.networks, name).unwrap().static_ips.unwrap()[0],
                    subnet: net.subnets.unwrap()[0].subnet,
                    network_name: name,
                    handle_prefix: spec_network_hash(name),
                },
            )
        } else {
            base
        }
    } else {
        Seq::empty()
    }
}

/// The firewall calls owed for the first `n` networks, in order.
pub open spec fn expected_fw_prefix(o: NetworkOptionsV, n: int) -> Seq<FwCallV>
    decreases n,
{
    if n <= 0 {
        Seq::empty()
    } else {
        expected_fw_prefix(o, n - 1) + expected_fw_ops(o, n - 1)
    }
}

/// The kernel parameters the orchestrator ensures for the network at
/// position `i`: the localnet toggle of the bound host interface, only for a
/// bridge network with port mappings and a bound interface.
pub open spec fn expected_sysctl_keys(o: NetworkOptionsV, i: int) -> Seq<Seq<char>> {
    let net = o.network_info[i].1;
    if spec_driver_kind(net.driver) == DriverKind::Bridge && ports_requested(o)
        && net.network_interface is Some {
        seq![localnet_key(net.network_interface.unwrap())]
    } else {
        Seq::empty()
    }
}

/// The kernel parameters ensured for the first `n` networks, in order.
pub open spec fn expected_keys_prefix(o: NetworkOptionsV, n: int) -> Seq<Seq<char>>
    decreases n,
{
    if n <= 0 {
        Seq::empty()
    } else {
        expected_keys_prefix(o, n - 1) + expected_sysctl_keys(o, n - 1)
    }
}

/// Whether `ext` is exactly the firewall calls owed for some fully processed
/// prefix of the networks plus an initial part of the next network's owed
/// calls — the shape the firewall log has after any outcome, successful or
/// aborted. Every handle in such an extension is a rule handle derived from
/// a network name.
pub open spec fn fw_ext_partial(o: NetworkOptionsV, ext: Seq<FwCallV>) -> bool {
    exists|k: int, j: int|
        0 <= k <= o.network_info.len() && 0 <= j <= expected_fw_ops(o, k).len() && (k
            < o.network_info.len() || j == 0) && ext == expected_fw_prefix(o, k)
            + #[trigger] expected_fw_ops(o, k).take(j)
}

/// Whether a firewall call is named by a well-formed rule handle: exactly
/// `MAX_HASH_SIZE` characters, all legal in chain and rule names.
pub open spec fn fw_handle_shape_ok(c: FwCallV) -> bool {
    match c {
        FwCallV::SetupNetwork { handle, .. } => handle.len() == MAX_HASH_SIZE && (forall|q: int|
            0 <= q < handle.len() ==> is_hex_char(#[trigger] handle[q])),
        FwCallV::SetupPortForward { handle_prefix, .. } => handle_prefix.len() == MAX_HASH_SIZE
            && (forall|q: int|
            0 <= q < handle_prefix.len() ==> is_hex_char(#[trigger] handle_prefix[q])),
    }
}

/// Each owed firewall call for one network is named by a well-formed handle.
pub proof fn lemma_ops_handles(o: NetworkOptionsV, i: int)
    ensures
        forall|j: int|
            0 <= j < expected_fw_ops(o, i).len() ==> fw_handle_shape_ok(
                #[trigger] expected_fw_ops(o, i)[j],
            ),
{
    lemma_hash_shape(o.network_info[i].0);
    let ops = expected_fw_ops(o, i);
    assert forall|j: int| 0 <= j < ops.len() implies fw_handle_shape_ok(ops[j]) by {
        if j == 0 {
            assert(ops[0] == (FwCallV::SetupNetwork {
                network: o.network_info[i].1,
                handle: spec_network_hash(o.network_info[i].0),
            }));
        } else {
            assert(ops[j] == (FwCallV::SetupPortForward {
                container_id: o.container_id,
                mappings: o.port_mappings.unwrap(),
                container_ip: spec_lookup(o.networks, o.network_info[i].0).unwrap().static_ips.unwrap()[0],
                subnet: o.network_info[i].1.subnets.unwrap()[0].subnet,
                network_name: o.network_info[i].0,
                handle_prefix: spec_network_hash(o.network_info[i].0),
            }));
        }
    }
}

/// Every owed firewall call for a processed prefix is named by a well-formed
/// handle.
pub proof fn lemma_prefix_handles(o: NetworkOptionsV, n: int)
    ensures
        forall|j: int|
            0 <= j < expected_fw_prefix(o, n).len() ==> fw_handle_shape_ok(
                #[trigger] expected_fw_prefix(o, n)[j],
            ),
    decreases n,
{
    if n > 0 {
        lemma_prefix_handles(o, n - 1);
        lemma_ops_handles(o, n - 1);
        let pre = expected_fw_prefix(o, n - 1);
        let ops = expected_fw_ops(o, n - 1);
        assert forall|j: int|
            0 <= j < expected_fw_prefix(o, n).len() implies fw_handle_shape_ok(
            expected_fw_prefix(o, n)[j],
        ) by {
            if j < pre.len() {
                assert(expected_fw_prefix(o, n)[j] == pre[j]);
            } else {
                assert(expected_fw_prefix(o, n)[j] == ops[j - pre.len()]);
            }
        }
    }
}

/// Every rule handle and handle prefix the orchestrator hands to the
/// firewall — on successful and on aborted invocations alike — has exactly
/// `MAX_HASH_SIZE` characters, all legal in firewall chain and rule names,
/// and is the pure hash of the network's name, so that any later invocation
/// recomputes the identical handle.
pub proof fn lemma_fw_handles_bounded(o: NetworkOptionsV, ext: Seq<FwCallV>)
    requires
        fw_ext_partial(o, ext),
    ensures
        forall|j: int| 0 <= j < ext.len() ==> fw_handle_shape_ok(#[trigger] ext[j]),
{
    let (k, t) = choose|k: int, t: int|
        0 <= k <= o.network_info.len() && 0 <= t <= expected_fw_ops(o, k).len() && (k
            < o.network_info.len() || t == 0) && ext == expected_fw_prefix(o, k)
            + #[trigger] expected_fw_ops(o, k).take(t);
    lemma_prefix_handles(o, k);
    lemma_ops_handles(o, k);
    let pre = expected_fw_prefix(o, k);
    let ops = expected_fw_ops(o, k);
    assert forall|j: int| 0 <= j < ext.len() implies fw_handle_shape_ok(ext[j]) by {
        if j < pre.len() {
            assert(ext[j] == pre[j]);
        } else {
            assert(ext[j] == ops.take(t)[j - pre.len()]);
            assert(ops.take(t)[j - pre.len()] == ops[j - pre.len()]);
        }
    }
}

/// A fully processed prefix meets the owed-calls shape.
pub proof fn lemma_fw_partial_prefix(o: NetworkOptionsV, ext: Seq<FwCallV>, k: int)
    requires
        0 <= k <= o.network_info.len(),
        ext == expected_fw_prefix(o, k),
    ensures
        fw_ext_partial(o, ext),
{
    assert(ext =~= expected_fw_prefix(o, k) + expected_fw_ops(o, k).take(0));
}

/// A fully processed prefix plus part of the next network's owed calls meets
/// the owed-calls shape.
pub proof fn lemma_fw_partial_take(o: NetworkOptionsV, ext: Seq<FwCallV>, k: int, j: int)
    requires
        0 <= k < o.network_info.len(),
        0 <= j <= expected_fw_ops(o, k).len(),
        ext == expected_fw_prefix(o, k) + expected_fw_ops(o, k).take(j),
    ensures
        fw_ext_partial(o, ext),
{
}

/// After the baseline installation of the bridge network at position `k`,
/// the firewall extension is that network's owed calls cut after the first.
pub proof fn lemma_fw_after_baseline(o: NetworkOptionsV, ext: Seq<FwCallV>, k: int)
    requires
        0 <= k < o.network_info.len(),
        spec_driver_kind(o.network_info[k].1.driver) == DriverKind::Bridge,
        ext == expected_fw_prefix(o, k).push(
            FwCallV::SetupNetwork {
                network: o.network_info[k].1,
                handle: spec_network_hash(o.network_info[k].0),
            },
        ),
    ensures
        ext == expected_fw_prefix(o, k) + expected_fw_ops(o, k).take(1),
        fw_ext_partial(o, ext),
{
    assert(expected_fw_ops(o, k).take(1) =~= seq![
        FwCallV::SetupNetwork {
            network: o.network_info[k].1,
            handle: spec_network_hash(o.network_info[k].0),
        },
    ]);
    assert(ext =~= expected_fw_prefix(o, k) + expected_fw_ops(o, k).take(1));
    lemma_fw_partial_take(o, ext, k, 1);
}

/// The mathematical value of a response under construction.
pub open spec fn resp_v(resp: Seq<(String, StatusBlock)>) -> Seq<(Seq<char>, StatusBlockV)> {
    resp.map_values(|p: (String, StatusBlock)| (p.0@, p.1@))
}

/// Whether `e` is the constructor record owed for the network at position
/// `i`: the right variant for its driver, applied to its network value and
/// its per-network options.
pub open spec fn ctor_entry_for(o: NetworkOptionsV, i: int, e: CtorCallV) -> bool {
    let name = o.network_info[i].0;
    let net = o.network_info[i].1;
    match e {
        CtorCallV::Bridge { network, per, status } => {
            &&& spec_driver_kind(net.driver) == DriverKind::Bridge
            &&& network == net
            &&& Some(per) == spec_lookup(o.networks, name)
        },
        CtorCallV::Macvlan { network, per, status } => {
            &&& spec_driver_kind(net.driver) == DriverKind::Macvlan
            &&& network == net
            &&& Some(per) == spec_lookup(o.networks, name)
        },
    }
}

/// The successful outcome: every network was processed in order, each
/// contributed exactly one constructor record, and the response pairs each
/// network name with the status its constructor returned.
pub open spec fn setup_succeeded(
    o: NetworkOptionsV,
    ctor_ext: Seq<CtorCallV>,
    resp: Seq<(Seq<char>, StatusBlockV)>,
) -> bool {
    let n = o.network_info.len() as int;
    &&& options_valid(o)
    &&& ctor_ext.len() == n
    &&& (forall|i: int| 0 <= i < n ==> ctor_entry_for(o, i, #[trigger] ctor_ext[i]))
    &&& resp.len() == n
    &&& (forall|i: int|
        0 <= i < n ==> #[trigger] resp[i] == (o.network_info[i].0, ctor_status(ctor_ext[i])))
}

/// What each error says about the input and about the work already applied:
/// the constructor records cover exactly the networks processed before the
/// failure, and stay applied — nothing is rolled back.
pub open spec fn error_evidence(o: NetworkOptionsV, e: SetupError, ctor_ext: Seq<CtorCallV>) -> bool {
    &&& (forall|j: int| 0 <= j < ctor_ext.len() ==> ctor_entry_for(o, j, #[trigger] ctor_ext[j]))
    &&& !(e is InvalidNamespacePath)
    &&& !(e is ConfigLoad)
    &&& !(e is NoFirewallBackend)
    &&& (e matches SetupError::UnknownDriver { driver } ==> ({
        let i = ctor_ext.len() as int;
        &&& i < o.network_info.len()
        &&& o.network_info[i].1.driver == driver@
        &&& spec_driver_kind(driver@) == DriverKind::Unsupported
    }))
    &&& (e matches SetupError::MissingPerNetworkOptions { network } ==> ({
        let i = ctor_ext.len() as int;
        &&& i < o.network_info.len()
        &&& o.network_info[i].0 == network@
        &&& spec_driver_kind(o.network_info[i].1.driver) != DriverKind::Unsupported
        &&& spec_lookup(o.networks, network@) is None
    }))
    &&& (e is NoContainerIp ==> ({
        let i = ctor_ext.len() - 1;
        &&& 0 <= i < o.network_info.len()
        &&& spec_driver_kind(o.network_info[i].1.driver) == DriverKind::Bridge
        &&& ports_requested(o)
        &&& (spec_lookup(o.networks, o.network_info[i].0) matches Some(per) && (per.static_ips
            is None || per.static_ips.unwrap().len() == 0))
    }))
    &&& (e is NoSubnet ==> ({
        let i = ctor_ext.len() - 1;
        &&& 0 <= i < o.network_info.len()
        &&& spec_driver_kind(o.network_info[i].1.driver) == DriverKind::Bridge
        &&& ports_requested(o)
        &&& (o.network_info[i].1.subnets is None || o.network_info[i].1.subnets.unwrap().len()
            == 0)
    }))
}

/// Turn the capability probe's outcome into the injected backend, or into an
/// ordinary recoverable error when no installed backend is supported.
pub fn get_supported_firewall_driver<F: FirewallDriver>(probe: Option<F>) -> (r: Result<
    F,
    SetupError,
>)
    ensures
        (probe matches Some(f) ==> r matches Ok(g) && g == f),
        probe is None ==> (r matches Err(e) && e is NoFirewallBackend),
{
    match probe {
        Some(f) => Ok(f),
        None => Err(SetupError::NoFirewallBackend),
    }
}

/// Find the per-network options stored under `name`.
#[verifier::loop_isolation(false)]
pub fn lookup_per_network<'a>(
    networks: &'a Vec<(String, PerNetworkOptions)>,
    name: &String,
) -> (r: Option<&'a PerNetworkOptions>)
    ensures
        ({
            let v = networks@.map_values(|p: (String, PerNetworkOptions)| (p.0@, p.1@));
            &&& (r matches Some(p) ==> spec_lookup(v, name@) == Some(p@))
            &&& (r is None ==> spec_lookup(v, name@) is None)
        }),
{
    let ghost v = networks@.map_values(|p: (String, PerNetworkOptions)| (p.0@, p.1@));
    proof {
        assert(v.skip(0) =~= v);
    }
    let mut i: usize = 0;
    while i < networks.len()
        invariant
            i <= v.len(),
            spec_lookup(v, name@) == spec_lookup(v.skip(i as int), name@),
        decreases networks.len() - i,
    {
        let hit = networks[i].0.eq(name);
        proof {
            assert(v.skip(i as int)[0] == v[i as int]);
            assert(v.skip(i as int).skip(1) =~= v.skip(i + 1));
        }
        if hit {
            return Some(&networks[i].1);
        }
        i = i + 1;
    }
    proof {
        assert(v.skip(v.len() as int) =~= Seq::<(Seq<char>, PerNetworkOptionsV)>::empty());
    }
    None
}

/// Build the localnet-forwarding key for a bound host interface.
pub fn localnet_key_of(iface: &str) -> (r: String)
    ensures
        r@ == localnet_key(iface@),
{
    let mut s = String::from_str("net.ipv4.conf.");
    s.append(iface);
    s.append(".route_localnet");
    s
}

/// A sequence is a prefix of itself.
pub proof fn lemma_prefix_refl<T>(s: Seq<T>)
    ensures
        s.is_prefix_of(s),
{
    assert(s.subrange(0, s.len() as int) =~= s);
}

/// A sequence is a prefix of anything it starts.
pub proof fn lemma_prefix_concat<T>(s: Seq<T>, t: Seq<T>)
    ensures
        s.is_prefix_of(s + t),
{
    assert((s + t).subrange(0, s.len() as int) =~= s);
}

/// The log extension one `ensure` call leaves behind is its trace.
pub proof fn lemma_trace_shape(pre: Seq<SysctlEventV>, post: Seq<SysctlEventV>, k: Seq<char>)
    requires
        post == pre.push(SysctlEventV::Read { key: k }) || post == pre.push(
            SysctlEventV::Read { key: k },
        ).push(SysctlEventV::Write { key: k, value: one_value() }),
    ensures
        is_ensure_trace(post.skip(pre.len() as int), k),
        post == pre + post.skip(pre.len() as int),
        pre.is_prefix_of(post),
{
    if post == pre.push(SysctlEventV::Read { key: k }) {
        assert(post.skip(pre.len() as int) =~= seq![SysctlEventV::Read { key: k }]);
    } else {
        assert(post.skip(pre.len() as int) =~= seq![
            SysctlEventV::Read { key: k },
            SysctlEventV::Write { key: k, value: one_value() },
        ]);
    }
    assert(post =~= pre + post.skip(pre.len() as int));
    assert(post.subrange(0, pre.len() as int) =~= pre);
}

/// One setup invocation for one container, bound to its target namespace
/// path.
pub struct Setup {
    pub network_namespace_path: String,
}

impl Setup {
    /// The setup command configures the given network namespace with the
    /// given configuration, creating any interfaces and firewall rules
    /// necessary.
    pub fn new(network_namespace_path: String) -> (s: Self)
        ensures
            s.network_namespace_path == network_namespace_path,
    {
        Self { network_namespace_path }
    }

    /// Run one invocation: reject a bad namespace path before any host
    /// mutation, wrap a config-load failure into a structured error with
    /// numeric code 1, ensure the global forwarding toggle exactly once, then
    /// process every network in insertion order — bridge networks through the
    /// constructor, the firewall baseline, and, when port mappings were
    /// requested, the localnet toggle and one port-forward installation fed
    /// with the first static address and the first subnet; macvlan networks
    /// through the constructor alone. The first failure aborts the remaining
    /// work; nothing already applied is rolled back.
    #[verifier::loop_isolation(false)]
    #[verifier::rlimit(100)]
    pub fn exec<S: SysctlApi, F: FirewallDriver, C: NetworkConstructor>(
        &self,
        ns_check: Result<(), String>,
        load: Result<NetworkOptions, String>,
        sysctl: &mut S,
        firewall: &mut F,
        constructor: &mut C,
    ) -> (r: Result<Vec<(String, StatusBlock)>, SetupError>)
        ensures
            old(sysctl).log().is_prefix_of(final(sysctl).log()),
            old(firewall).log().is_prefix_of(final(firewall).log()),
            old(constructor).log().is_prefix_of(final(constructor).log()),
            final(sysctl).obeys_table() == old(sysctl).obeys_table(),
            final(firewall).infallible() == old(firewall).infallible(),
            final(constructor).infallible() == old(constructor).infallible(),
            (r is Ok ==> final(sysctl).failed() == old(sysctl).failed() && final(firewall).failed() == old(firewall).failed() && final(constructor).failed() == old(constructor).failed()),
            (old(firewall).infallible() ==> final(firewall).failed() == old(firewall).failed()),
            (old(constructor).infallible() ==> final(constructor).failed() == old(constructor).failed()),
            (ns_check matches Err(reason) ==> r matches Err(e) && e == (SetupError::InvalidNamespacePath { reason }) && final(sysctl).log() == old(sysctl).log() && final(sysctl).mapping() == old(sysctl).mapping() && final(firewall).log() == old(firewall).log() && final(constructor).log() == old(constructor).log()),
            (ns_check is Ok ==> (load matches Err(message) ==> r matches Err(e) && e == (SetupError::ConfigLoad { message, errno: 1u32 }) && final(sysctl).log() == old(sysctl).log() && final(sysctl).mapping() == old(sysctl).mapping() && final(firewall).log() == old(firewall).log() && final(constructor).log() == old(constructor).log())),
            (ns_check is Ok ==> (load matches Ok(opts) ==> ({
                let o = opts@;
                let n = o.network_info.len() as int;
                let sys_ext = final(sysctl).log().skip(old(sysctl).log().len() as int);
                let ctor_ext = final(constructor).log().skip(old(constructor).log().len() as int);
                &&& reads_of(sys_ext, ipv4_forward_key()) == 1
                &&& writes_of(sys_ext, ipv4_forward_key()) <= 1
                &&& (r matches Ok(resp) ==> setup_succeeded(o, ctor_ext, resp_v(resp@))
                    && final(firewall).log() == old(firewall).log() + expected_fw_prefix(o, n)
                    && is_ensure_run(sys_ext, seq![ipv4_forward_key()] + expected_keys_prefix(
                    o,
                    n,
                )))
                &&& (r is Ok && old(sysctl).obeys_table() ==> final(sysctl).mapping().contains_key(ipv4_forward_key()) && final(sysctl).mapping()[ipv4_forward_key()] == one_value())
                &&& (r is Ok && old(sysctl).obeys_table() ==> forall|i: int|
                    0 <= i < n ==> #[trigger] localnet_ensured(o, i, final(sysctl).mapping()))
                &&& (options_valid(o) ==> r is Ok || (r matches Err(e) && (e is Sysctl
                    || e is Constructor || e is Firewall)))
                &&& (old(sysctl).obeys_table() && keys_available(o, old(sysctl).mapping())
                    ==> final(sysctl).failed() == old(sysctl).failed())
                &&& (options_valid(o) && old(sysctl).obeys_table() && keys_available(
                    o,
                    old(sysctl).mapping(),
                ) && old(firewall).infallible() && old(constructor).infallible() ==> r is Ok)
                &&& fw_ext_partial(o, final(firewall).log().skip(old(firewall).log().len() as int))
                &&& (exists|m: int|
                    0 <= m <= n && is_ensure_run(
                        sys_ext,
                        seq![ipv4_forward_key()] + #[trigger] expected_keys_prefix(o, m),
                    ))
                &&& (r matches Err(e) ==> ({
                    &&& error_evidence(o, e, ctor_ext)
                    &&& ((e is UnknownDriver || e is MissingPerNetworkOptions) ==> final(firewall).log() == old(firewall).log() + expected_fw_prefix(o, ctor_ext.len() as int))
                    &&& ((e is NoContainerIp || e is NoSubnet) ==> final(firewall).log() == (old(firewall).log() + expected_fw_prefix(o, ctor_ext.len() - 1)) + expected_fw_ops(o, ctor_ext.len() - 1).take(1))
                    &&& (e is Sysctl ==> final(sysctl).failed() > old(sysctl).failed())
                    &&& (e is Firewall ==> final(firewall).failed() > old(firewall).failed())
                    &&& (e is Constructor ==> final(constructor).failed() > old(
                        constructor,
                    ).failed())
                }))
            }))),
    {
        match ns_check {
            Ok(_) => {},
            Err(reason) => {
                proof {
                    lemma_prefix_refl(sysctl.log());
                    lemma_prefix_refl(firewall.log());
                    lemma_prefix_refl(constructor.log());
                }
                return Err(SetupError::InvalidNamespacePath { reason });
            },
        }
        let opts: NetworkOptions = match load {
            Ok(o) => o,
            Err(message) => {
                proof {
                    lemma_prefix_refl(sysctl.log());
                    lemma_prefix_refl(firewall.log());
                    lemma_prefix_refl(constructor.log());
                }
                return Err(SetupError::ConfigLoad { message, errno: 1 });
            },
        };
        let ghost o = opts@;
        let ghost sys0 = sysctl.log();
        let ghost sys0_map = sysctl.mapping();
        let ghost sys_obeys = sysctl.obeys_table();
        let ghost fw0 = firewall.log();
        let ghost ct0 = constructor.log();
        let ensured = ensure(sysctl, "net.ipv4.ip_forward", "1");
        proof {
            lemma_trace_shape(sys0, sysctl.log(), ipv4_forward_key());
            let t0 = sysctl.log().skip(sys0.len() as int);
            lemma_trace_counts(t0, ipv4_forward_key(), ipv4_forward_key());
            assert(is_ensure_run(Seq::<SysctlEventV>::empty(), Seq::<Seq<char>>::empty()));
            lemma_ensure_run_append(
                Seq::<SysctlEventV>::empty(),
                Seq::<Seq<char>>::empty(),
                t0,
                ipv4_forward_key(),
            );
            assert(Seq::<SysctlEventV>::empty() + t0 =~= t0);
            assert(Seq::<Seq<char>>::empty().push(ipv4_forward_key()) =~= seq![
                ipv4_forward_key(),
            ]);
            lemma_prefix_refl(firewall.log());
            lemma_prefix_refl(constructor.log());
            assert(constructor.log().skip(ct0.len() as int) =~= Seq::<CtorCallV>::empty());
        }
        match ensured {
            Ok(_) => {},
            Err(fault) => {
                proof {
                    if sys_obeys && keys_available(o, sys0_map) {
                        assert(false);
                    }
                    assert(firewall.log().skip(fw0.len() as int) =~= expected_fw_prefix(o, 0));
                    lemma_fw_partial_prefix(o, firewall.log().skip(fw0.len() as int), 0);
                    assert(seq![ipv4_forward_key()] + expected_keys_prefix(o, 0) =~= seq![
                        ipv4_forward_key(),
                    ]);
                    assert(is_ensure_run(
                        sysctl.log().skip(sys0.len() as int),
                        seq![ipv4_forward_key()] + expected_keys_prefix(o, 0),
                    ));
                }
                return Err(SetupError::Sysctl { fault });
            },
        }
        proof {
            assert(seq![ipv4_forward_key()] + expected_keys_prefix(o, 0) =~= seq![
                ipv4_forward_key(),
            ]);
            assert(fw0 + expected_fw_prefix(o, 0) =~= fw0);
            if sys_obeys {
                assert forall|k: Seq<char>| sys0_map.dom().contains(k) implies sysctl.mapping().dom().contains(k) by {
                    assert(sys0_map.contains_key(k));
                }
            }
        }
        let mut response: Vec<(String, StatusBlock)> = Vec::new();
        let n = opts.network_info.len();
        let mut idx: usize = 0;
        while idx < n
            invariant
                idx <= n,
                n == opts.network_info.len(),
                o == opts@,
                response@.len() == idx,
                constructor.log().len() == ct0.len() + idx,
                ct0.is_prefix_of(constructor.log()),
                forall|j: int|
                    0 <= j < idx ==> ctor_entry_for(
                        o,
                        j,
                        #[trigger] constructor.log()[ct0.len() + j],
                    ),
                forall|j: int|
                    0 <= j < idx ==> #[trigger] resp_v(response@)[j] == (
                        o.network_info[j].0,
                        ctor_status(constructor.log()[ct0.len() + j]),
                    ),
                forall|j: int| 0 <= j < idx ==> network_valid(o, j),
                firewall.log() == fw0 + expected_fw_prefix(o, idx as int),
                is_ensure_run(
                    sysctl.log().skip(sys0.len() as int),
                    seq![ipv4_forward_key()] + expected_keys_prefix(o, idx as int),
                ),
                reads_of(sysctl.log().skip(sys0.len() as int), ipv4_forward_key()) == 1,
                writes_of(sysctl.log().skip(sys0.len() as int), ipv4_forward_key()) <= 1,
                sysctl.log() == sys0 + sysctl.log().skip(sys0.len() as int),
                sysctl.obeys_table() == sys_obeys,
                firewall.infallible() == old(firewall).infallible(),
                constructor.infallible() == old(constructor).infallible(),
                sysctl.failed() == old(sysctl).failed(),
                firewall.failed() == old(firewall).failed(),
                constructor.failed() == old(constructor).failed(),
                sys_obeys ==> sysctl.mapping().contains_key(ipv4_forward_key())
                    && sysctl.mapping()[ipv4_forward_key()] == one_value(),
                sys_obeys ==> sys0_map.dom().subset_of(sysctl.mapping().dom()),
                sys_obeys ==> forall|j: int|
                    0 <= j < idx ==> #[trigger] localnet_ensured(o, j, sysctl.mapping()),
            decreases n - idx,
        {
            let ghost ks_iter = seq![ipv4_forward_key()] + expected_keys_prefix(o, idx as int);
            let pair = &opts.network_info[idx];
            proof {
                assert(o.network_info[idx as int] == (pair.0@, pair.1@));
            }
            let kind = driver_kind(&pair.1.driver);
            match kind {
                DriverKind::Unsupported => {
                    proof {
                        let ctor_ext = constructor.log().skip(ct0.len() as int);
                        assert(ctor_ext.len() == idx);
                        assert forall|j: int| 0 <= j < ctor_ext.len() implies ctor_entry_for(
                            o,
                            j,
                            ctor_ext[j],
                        ) by {
                            assert(ctor_ext[j] == constructor.log()[ct0.len() + j]);
                        }
                        assert(!network_valid(o, idx as int));
                        lemma_prefix_concat(sys0, sysctl.log().skip(sys0.len() as int));
                        assert(firewall.log().skip(fw0.len() as int) =~= expected_fw_prefix(
                            o,
                            idx as int,
                        ));
                        lemma_fw_partial_prefix(
                            o,
                            firewall.log().skip(fw0.len() as int),
                            idx as int,
                        );
                    }
                    return Err(SetupError::UnknownDriver { driver: pair.1.driver.clone() });
                },
                DriverKind::Bridge => {
                    let per = match lookup_per_network(&opts.networks, &pair.0) {
                        Some(p) => p,
                        None => {
                            proof {
                                let ctor_ext = constructor.log().skip(ct0.len() as int);
                                assert(ctor_ext.len() == idx);
                                assert forall|j: int|
                                    0 <= j < ctor_ext.len() implies ctor_entry_for(
                                    o,
                                    j,
                                    ctor_ext[j],
                                ) by {
                                    assert(ctor_ext[j] == constructor.log()[ct0.len() + j]);
                                }
                                assert(!network_valid(o, idx as int));
                                lemma_prefix_concat(sys0, sysctl.log().skip(sys0.len() as int));
                                assert(firewall.log().skip(fw0.len() as int) =~= expected_fw_prefix(
                                    o,
                                    idx as int,
                                ));
                                lemma_fw_partial_prefix(
                                    o,
                                    firewall.log().skip(fw0.len() as int),
                                    idx as int,
                                );
                            }
                            return Err(
                                SetupError::MissingPerNetworkOptions { network: pair.0.clone() },
                            );
                        },
                    };
                    let ghost ct_pre = constructor.log();
                    let status_block = match constructor.configure_bridge(
                        per,
                        &pair.1,
                        &self.network_namespace_path,
                    ) {
                        Ok(sb) => sb,
                        Err(fault) => {
                            proof {
                                let ctor_ext = constructor.log().skip(ct0.len() as int);
                                assert(ctor_ext.len() == idx);
                                assert forall|j: int|
                                    0 <= j < ctor_ext.len() implies ctor_entry_for(
                                    o,
                                    j,
                                    ctor_ext[j],
                                ) by {
                                    assert(ctor_ext[j] == constructor.log()[ct0.len() + j]);
                                }
                                lemma_prefix_concat(sys0, sysctl.log().skip(sys0.len() as int));
                                assert(!old(constructor).infallible());
                                assert(firewall.log().skip(fw0.len() as int) =~= expected_fw_prefix(
                                    o,
                                    idx as int,
                                ));
                                lemma_fw_partial_prefix(
                                    o,
                                    firewall.log().skip(fw0.len() as int),
                                    idx as int,
                                );
                            }
                            return Err(SetupError::Constructor { fault });
                        },
                    };
                    let ghost resp_pre = response@;
                    response.push((pair.0.clone(), status_block));
                    proof {
                        assert(resp_v(response@) =~= resp_v(resp_pre).push(
                            (pair.0@, status_block@),
                        ));
                        assert(constructor.log() == ct_pre.push(
                            CtorCallV::Bridge {
                                network: pair.1@,
                                per: per@,
                                status: status_block@,
                            },
                        ));
                        assert(ct0.is_prefix_of(constructor.log())) by {
                            assert(constructor.log().subrange(0, ct0.len() as int) =~= ct_pre.subrange(
                                0,
                                ct0.len() as int,
                            ));
                        }
                    }
                    let id_network_hash = create_network_hash(pair.0.as_str());
                    let fw_base = firewall.setup_network(pair.1.copied(), id_network_hash.clone());
                    proof {
                        lemma_prefix_concat(fw0, firewall.log().skip(fw0.len() as int));
                        assert(firewall.log() =~= fw0 + firewall.log().skip(fw0.len() as int));
                    }
                    match fw_base {
                        Ok(_) => {},
                        Err(fault) => {
                            proof {
                                let ctor_ext = constructor.log().skip(ct0.len() as int);
                                assert(ctor_ext.len() == idx + 1);
                                assert forall|j: int|
                                    0 <= j < ctor_ext.len() implies ctor_entry_for(
                                    o,
                                    j,
                                    ctor_ext[j],
                                ) by {
                                    assert(ctor_ext[j] == constructor.log()[ct0.len() + j]);
                                    if j < idx {
                                    } else {
                                        assert(constructor.log()[ct0.len() + j] == constructor.log().last());
                                    }
                                }
                                lemma_prefix_concat(sys0, sysctl.log().skip(sys0.len() as int));
                                assert(!old(firewall).infallible());
                            }
                            proof {
                                assert(firewall.log().skip(fw0.len() as int) =~= expected_fw_prefix(o, idx as int).push(
                                    FwCallV::SetupNetwork { network: pair.1@, handle: spec_network_hash(pair.0@) },
                                ));
                                lemma_fw_after_baseline(o, firewall.log().skip(fw0.len() as int), idx as int);
                                        assert(firewall.log() =~= (fw0 + expected_fw_prefix(o, idx as int)) + expected_fw_ops(o, idx as int).take(1));
                            }
                            return Err(SetupError::Firewall { fault });
                        },
                    }
                    match &opts.port_mappings {
                        None => {
                            proof {
                                assert(expected_fw_ops(o, idx as int) =~= seq![
                                    FwCallV::SetupNetwork {
                                        network: pair.1@,
                                        handle: spec_network_hash(pair.0@),
                                    },
                                ]);
                                assert(firewall.log() =~= fw0 + expected_fw_prefix(
                                    o,
                                    idx + 1,
                                ));
                                assert(expected_sysctl_keys(o, idx as int) =~= Seq::<
                                    Seq<char>,
                                >::empty());
                                assert(seq![ipv4_forward_key()] + expected_keys_prefix(
                                    o,
                                    idx + 1,
                                ) =~= ks_iter);
                                assert(network_valid(o, idx as int));
                            }
                        },
                        Some(pm) => {
                            if pm.len() == 0 {
                                proof {
                                    assert(!ports_requested(o));
                                    assert(expected_fw_ops(o, idx as int) =~= seq![
                                        FwCallV::SetupNetwork {
                                            network: pair.1@,
                                            handle: spec_network_hash(pair.0@),
                                        },
                                    ]);
                                    assert(firewall.log() =~= fw0 + expected_fw_prefix(
                                        o,
                                        idx + 1,
                                    ));
                                    assert(expected_sysctl_keys(o, idx as int) =~= Seq::<
                                        Seq<char>,
                                    >::empty());
                                    assert(seq![ipv4_forward_key()] + expected_keys_prefix(
                                        o,
                                        idx + 1,
                                    ) =~= ks_iter);
                                    assert(network_valid(o, idx as int));
                                }
                            } else {
                            proof {
                                assert(ports_requested(o));
                            }
                            match &pair.1.network_interface {
                                None => {},
                                Some(iface) => {
                                    let localnet = localnet_key_of(iface.as_str());
                                    let ghost sys_pre = sysctl.log();
                                    let ghost m_pre = sysctl.mapping();
                                    let localnet_result = ensure(sysctl, localnet.as_str(), "1");
                                    proof {
                                        lemma_trace_shape(
                                            sys_pre,
                                            sysctl.log(),
                                            localnet_key(iface@),
                                        );
                                        let t = sysctl.log().skip(sys_pre.len() as int);
                                        let prev_ext = sys_pre.skip(sys0.len() as int);
                                        let new_ext = sysctl.log().skip(sys0.len() as int);
                                        assert(new_ext =~= prev_ext + t);
                                        lemma_ensure_run_append(
                                            prev_ext,
                                            ks_iter,
                                            t,
                                            localnet_key(iface@),
                                        );
                                        lemma_counts_append(prev_ext, t, ipv4_forward_key());
                                        lemma_localnet_key_ne_forward(iface@);
                                        lemma_trace_counts(
                                            t,
                                            localnet_key(iface@),
                                            ipv4_forward_key(),
                                        );
                                        assert(sysctl.log() =~= sys0 + new_ext);
                                        lemma_prefix_concat(sys0, new_ext);
                                        assert(expected_sysctl_keys(o, idx as int) =~= seq![
                                            localnet_key(iface@),
                                        ]);
                                        assert(ks_iter.push(localnet_key(iface@)) =~= seq![
                                            ipv4_forward_key(),
                                        ] + expected_keys_prefix(o, idx + 1));
                                        assert(is_ensure_run(
                                            new_ext,
                                            seq![ipv4_forward_key()] + expected_keys_prefix(
                                                o,
                                                idx + 1,
                                            ),
                                        ));
                                        if sys_obeys {
                                            assert forall|j: int|
                                                0 <= j < idx implies localnet_ensured(
                                                o,
                                                j,
                                                sysctl.mapping(),
                                            ) by {
                                                assert(localnet_ensured(o, j, m_pre));
                                            }
                                        }
                                    }
                                    match localnet_result {
                                        Ok(_) => {},
                                        Err(fault) => {
                                            proof {
                                                let ctor_ext = constructor.log().skip(
                                                    ct0.len() as int,
                                                );
                                                assert forall|j: int|
                                                    0 <= j < ctor_ext.len() implies ctor_entry_for(
                                                    o,
                                                    j,
                                                    ctor_ext[j],
                                                ) by {
                                                    assert(ctor_ext[j] == constructor.log()[ct0.len()
                                                        + j]);
                                                    if j == idx {
                                                        assert(constructor.log()[ct0.len() + j]
                                                            == constructor.log().last());
                                                    }
                                                }
                                                if sys_obeys && keys_available(o, sys0_map) {
                                                    assert(localnet_available(
                                                        o,
                                                        idx as int,
                                                        sys0_map,
                                                    ));
                                                    assert(sys0_map.contains_key(
                                                        localnet_key(iface@),
                                                    ));
                                                    assert(sys0_map.dom().contains(
                                                        localnet_key(iface@),
                                                    ));
                                                    assert(m_pre.dom().contains(
                                                        localnet_key(iface@),
                                                    ));
                                                    assert(m_pre.contains_key(
                                                        localnet_key(iface@),
                                                    ));
                                                    assert(false);
                                                }
                                            }
                                            proof {
                                                assert(firewall.log().skip(fw0.len() as int) =~= expected_fw_prefix(o, idx as int).push(
                                                    FwCallV::SetupNetwork { network: pair.1@, handle: spec_network_hash(pair.0@) },
                                                ));
                                                lemma_fw_after_baseline(o, firewall.log().skip(fw0.len() as int), idx as int);
                                        assert(firewall.log() =~= (fw0 + expected_fw_prefix(o, idx as int)) + expected_fw_ops(o, idx as int).take(1));
                                            }
                                            return Err(SetupError::Sysctl { fault });
                                        },
                                    }
                                },
                            }
                            let ips = match &per.static_ips {
                                Some(ips) => ips,
                                None => {
                                    proof {
                                        let ctor_ext = constructor.log().skip(ct0.len() as int);
                                        assert(ctor_ext.len() == idx + 1);
                                        assert forall|j: int|
                                            0 <= j < ctor_ext.len() implies ctor_entry_for(
                                            o,
                                            j,
                                            ctor_ext[j],
                                        ) by {
                                            assert(ctor_ext[j] == constructor.log()[ct0.len() + j]);
                                            if j == idx {
                                                assert(constructor.log()[ct0.len() + j]
                                                    == constructor.log().last());
                                            }
                                        }
                                        assert(!network_valid(o, idx as int));
                                        lemma_prefix_concat(
                                            sys0,
                                            sysctl.log().skip(sys0.len() as int),
                                        );
                                    }
                                    proof {
                                        assert(firewall.log().skip(fw0.len() as int) =~= expected_fw_prefix(o, idx as int).push(
                                            FwCallV::SetupNetwork { network: pair.1@, handle: spec_network_hash(pair.0@) },
                                        ));
                                        lemma_fw_after_baseline(o, firewall.log().skip(fw0.len() as int), idx as int);
                                        assert(firewall.log() =~= (fw0 + expected_fw_prefix(o, idx as int)) + expected_fw_ops(o, idx as int).take(1));
                                    }
                                    return Err(SetupError::NoContainerIp);
                                },
                            };
                            if ips.len() == 0 {
                                proof {
                                    let ctor_ext = constructor.log().skip(ct0.len() as int);
                                    assert(ctor_ext.len() == idx + 1);
                                    assert forall|j: int|
                                        0 <= j < ctor_ext.len() implies ctor_entry_for(
                                        o,
                                        j,
                                        ctor_ext[j],
                                    ) by {
                                        assert(ctor_ext[j] == constructor.log()[ct0.len() + j]);
                                        if j == idx {
                                            assert(constructor.log()[ct0.len() + j]
                                                == constructor.log().last());
                                        }
                                    }
                                    assert(!network_valid(o, idx as int));
                                    lemma_prefix_concat(sys0, sysctl.log().skip(sys0.len() as int));
                                }
                                proof {
                                    assert(firewall.log().skip(fw0.len() as int) =~= expected_fw_prefix(o, idx as int).push(
                                        FwCallV::SetupNetwork { network: pair.1@, handle: spec_network_hash(pair.0@) },
                                    ));
                                    lemma_fw_after_baseline(o, firewall.log().skip(fw0.len() as int), idx as int);
                                        assert(firewall.log() =~= (fw0 + expected_fw_prefix(o, idx as int)) + expected_fw_ops(o, idx as int).take(1));
                                }
                                return Err(SetupError::NoContainerIp);
                            }
                            let subnets = match &pair.1.subnets {
                                Some(s) => s,
                                None => {
                                    proof {
                                        let ctor_ext = constructor.log().skip(ct0.len() as int);
                                        assert(ctor_ext.len() == idx + 1);
                                        assert forall|j: int|
                                            0 <= j < ctor_ext.len() implies ctor_entry_for(
                                            o,
                                            j,
                                            ctor_ext[j],
                                        ) by {
                                            assert(ctor_ext[j] == constructor.log()[ct0.len() + j]);
                                            if j == idx {
                                                assert(constructor.log()[ct0.len() + j]
                                                    == constructor.log().last());
                                            }
                                        }
                                        assert(!network_valid(o, idx as int));
                                        lemma_prefix_concat(
                                            sys0,
                                            sysctl.log().skip(sys0.len() as int),
                                        );
                                    }
                                    proof {
                                        assert(firewall.log().skip(fw0.len() as int) =~= expected_fw_prefix(o, idx as int).push(
                                            FwCallV::SetupNetwork { network: pair.1@, handle: spec_network_hash(pair.0@) },
                                        ));
                                        lemma_fw_after_baseline(o, firewall.log().skip(fw0.len() as int), idx as int);
                                        assert(firewall.log() =~= (fw0 + expected_fw_prefix(o, idx as int)) + expected_fw_ops(o, idx as int).take(1));
                                    }
                                    return Err(SetupError::NoSubnet);
                                },
                            };
                            if subnets.len() == 0 {
                                proof {
                                    let ctor_ext = constructor.log().skip(ct0.len() as int);
                                    assert(ctor_ext.len() == idx + 1);
                                    assert forall|j: int|
                                        0 <= j < ctor_ext.len() implies ctor_entry_for(
                                        o,
                                        j,
                                        ctor_ext[j],
                                    ) by {
                                        assert(ctor_ext[j] == constructor.log()[ct0.len() + j]);
                                        if j == idx {
                                            assert(constructor.log()[ct0.len() + j]
                                                == constructor.log().last());
                                        }
                                    }
                                    assert(!network_valid(o, idx as int));
                                    lemma_prefix_concat(sys0, sysctl.log().skip(sys0.len() as int));
                                }
                                proof {
                                    assert(firewall.log().skip(fw0.len() as int) =~= expected_fw_prefix(o, idx as int).push(
                                        FwCallV::SetupNetwork { network: pair.1@, handle: spec_network_hash(pair.0@) },
                                    ));
                                    lemma_fw_after_baseline(o, firewall.log().skip(fw0.len() as int), idx as int);
                                        assert(firewall.log() =~= (fw0 + expected_fw_prefix(o, idx as int)) + expected_fw_ops(o, idx as int).take(1));
                                }
                                return Err(SetupError::NoSubnet);
                            }
                            let fw_ports = firewall.setup_port_forward(
                                opts.container_id.clone(),
                                copy_port_mappings(pm),
                                ips[0].clone(),
                                subnets[0].subnet.clone(),
                                pair.0.clone(),
                                id_network_hash,
                            );
                            proof {
                                lemma_prefix_concat(fw0, firewall.log().skip(fw0.len() as int));
                                assert(firewall.log() =~= fw0 + firewall.log().skip(
                                    fw0.len() as int,
                                ));
                            }
                            match fw_ports {
                                Ok(_) => {},
                                Err(fault) => {
                                    proof {
                                        let ctor_ext = constructor.log().skip(ct0.len() as int);
                                        assert forall|j: int|
                                            0 <= j < ctor_ext.len() implies ctor_entry_for(
                                            o,
                                            j,
                                            ctor_ext[j],
                                        ) by {
                                            assert(ctor_ext[j] == constructor.log()[ct0.len() + j]);
                                            if j == idx {
                                                assert(constructor.log()[ct0.len() + j]
                                                    == constructor.log().last());
                                            }
                                        }
                                        assert(!old(firewall).infallible());
                                    }
                                    proof {
                                    assert(expected_fw_ops(o, idx as int).take(2) =~= expected_fw_ops(o, idx as int));
                                    assert(firewall.log().skip(fw0.len() as int) =~= expected_fw_prefix(o, idx as int)
                                    + expected_fw_ops(o, idx as int).take(2));
                                    lemma_fw_partial_take(o, firewall.log().skip(fw0.len() as int), idx as int, 2);
                                    }
                                    return Err(SetupError::Firewall { fault });
                                },
                            }
                            proof {
                                assert(view_string_seq(ips@)[0] == ips@[0]@);
                                assert(firewall.log() =~= (fw0 + expected_fw_prefix(
                                    o,
                                    idx as int,
                                )) + expected_fw_ops(o, idx as int));
                                assert(firewall.log() =~= fw0 + expected_fw_prefix(o, idx + 1));
                                match &pair.1.network_interface {
                                    Some(iface) => {
                                        assert(expected_sysctl_keys(o, idx as int) =~= seq![
                                            localnet_key(iface@),
                                        ]);
                                        assert(ks_iter.push(localnet_key(iface@)) =~= seq![
                                            ipv4_forward_key(),
                                        ] + expected_keys_prefix(o, idx + 1));
                                    },
                                    None => {
                                        assert(expected_sysctl_keys(o, idx as int) =~= Seq::<
                                            Seq<char>,
                                        >::empty());
                                        assert(seq![ipv4_forward_key()] + expected_keys_prefix(
                                            o,
                                            idx + 1,
                                        ) =~= ks_iter);
                                    },
                                }
                                assert(network_valid(o, idx as int));
                            }
                            }
                        },
                    }
                },
                DriverKind::Macvlan => {
                    let per = match lookup_per_network(&opts.networks, &pair.0) {
                        Some(p) => p,
                        None => {
                            proof {
                                let ctor_ext = constructor.log().skip(ct0.len() as int);
                                assert(ctor_ext.len() == idx);
                                assert forall|j: int|
                                    0 <= j < ctor_ext.len() implies ctor_entry_for(
                                    o,
                                    j,
                                    ctor_ext[j],
                                ) by {
                                    assert(ctor_ext[j] == constructor.log()[ct0.len() + j]);
                                }
                                assert(!network_valid(o, idx as int));
                                lemma_prefix_concat(sys0, sysctl.log().skip(sys0.len() as int));
                                assert(firewall.log().skip(fw0.len() as int) =~= expected_fw_prefix(
                                    o,
                                    idx as int,
                                ));
                                lemma_fw_partial_prefix(
                                    o,
                                    firewall.log().skip(fw0.len() as int),
                                    idx as int,
                                );
                            }
                            return Err(
                                SetupError::MissingPerNetworkOptions { network: pair.0.clone() },
                            );
                        },
                    };
                    let ghost ct_pre = constructor.log();
                    let status_block = match constructor.configure_macvlan(
                        per,
                        &pair.1,
                        &self.network_namespace_path,
                    ) {
                        Ok(sb) => sb,
                        Err(fault) => {
                            proof {
                                let ctor_ext = constructor.log().skip(ct0.len() as int);
                                assert(ctor_ext.len() == idx);
                                assert forall|j: int|
                                    0 <= j < ctor_ext.len() implies ctor_entry_for(
                                    o,
                                    j,
                                    ctor_ext[j],
                                ) by {
                                    assert(ctor_ext[j] == constructor.log()[ct0.len() + j]);
                                }
                                lemma_prefix_concat(sys0, sysctl.log().skip(sys0.len() as int));
                                assert(!old(constructor).infallible());
                                assert(firewall.log().skip(fw0.len() as int) =~= expected_fw_prefix(
                                    o,
                                    idx as int,
                                ));
                                lemma_fw_partial_prefix(
                                    o,
                                    firewall.log().skip(fw0.len() as int),
                                    idx as int,
                                );
                            }
                            return Err(SetupError::Constructor { fault });
                        },
                    };
                    let ghost resp_pre = response@;
                    response.push((pair.0.clone(), status_block));
                    proof {
                        assert(resp_v(response@) =~= resp_v(resp_pre).push(
                            (pair.0@, status_block@),
                        ));
                        assert(constructor.log() == ct_pre.push(
                            CtorCallV::Macvlan {
                                network: pair.1@,
                                per: per@,
                                status: status_block@,
                            },
                        ));
                        assert(ct0.is_prefix_of(constructor.log())) by {
                            assert(constructor.log().subrange(0, ct0.len() as int) =~= ct_pre.subrange(
                                0,
                                ct0.len() as int,
                            ));
                        }
                        assert(expected_fw_ops(o, idx as int) =~= Seq::<FwCallV>::empty());
                        assert(fw0 + expected_fw_prefix(o, idx + 1) =~= fw0 + expected_fw_prefix(
                            o,
                            idx as int,
                        ));
                        assert(expected_sysctl_keys(o, idx as int) =~= Seq::<Seq<char>>::empty());
                        assert(seq![ipv4_forward_key()] + expected_keys_prefix(o, idx + 1)
                            =~= ks_iter);
                        assert(network_valid(o, idx as int));
                    }
                },
            }
            idx = idx + 1;
        }
        proof {
            let ctor_ext = constructor.log().skip(ct0.len() as int);
            assert(ctor_ext.len() == n);
            assert forall|j: int| 0 <= j < ctor_ext.len() implies ctor_entry_for(
                o,
                j,
                ctor_ext[j],
            ) by {
                assert(ctor_ext[j] == constructor.log()[ct0.len() + j]);
            }
            assert forall|j: int| 0 <= j < n implies resp_v(response@)[j] == (
                o.network_info[j].0,
                ctor_status(ctor_ext[j]),
            ) by {
                assert(ctor_ext[j] == constructor.log()[ct0.len() + j]);
            }
            lemma_prefix_concat(sys0, sysctl.log().skip(sys0.len() as int));
            assert(firewall.log().skip(fw0.len() as int) =~= expected_fw_prefix(o, n as int));
            lemma_fw_partial_prefix(o, firewall.log().skip(fw0.len() as int), n as int);
        }
        Ok(response)
    }
}

} // verus!
