//! Verified core of a container-network setup tool: the setup orchestrator,
//! the firewall abstraction, deterministic rule naming, and idempotent
//! kernel-parameter management.
//!
//! The orchestrator attaches a container's network namespace to one or more
//! logical networks, applies kernel network parameters, and installs firewall
//! state, sequencing several independently fallible host-level collaborators
//! with no transactional guarantees: the first failure aborts the remaining
//! work, and nothing already applied is rolled back.
pub mod constructor;
pub mod firewall;
pub mod hash;
pub mod setup;
pub mod sysctl_host;
pub mod sysctl_mgr;
pub mod types;
