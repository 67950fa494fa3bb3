//! The kernel-backed parameter manager: the OS-integration collaborator that
//! realises [`SysctlApi`] against the kernel's own sysctl table.
//!
//! The bodies below call into the `sysctl` crate and are trusted, not
//! verified. This manager claims only its operation history and failure
//! count: `obeys_table()` is false, so the trait's table clauses say nothing
//! of it. The kernel's table could not honestly be modelled as a private map
//! — it is shared with other processes, keys such as `kernel.random.uuid`
//! are volatile, a key written with slashes aliases the dotted form of the
//! same parameter, and a write the kernel accepted may be reported as failed
//! when the read-back of a write-only key fails.
use crate::sysctl_mgr::SysctlApi;
use crate::sysctl_mgr::SysctlEventV;
use crate::sysctl_mgr::SysctlFault;
use sysctl::Sysctl;
use vstd::prelude::*;

verus! {

/// A manager for the kernel the process runs on.
pub struct KernelSysctl {
    hist: Ghost<Seq<SysctlEventV>>,
    failures: Ghost<nat>,
}

impl KernelSysctl {
    /// A fresh manager; its history starts empty.
    pub fn new() -> (s: KernelSysctl)
        ensures
            s.log() == Seq::<SysctlEventV>::empty(),
            s.failed() == 0,
    {
        KernelSysctl { hist: Ghost(Seq::empty()), failures: Ghost(0) }
    }
}

impl KernelSysctl {
    /// Relies on `sysctl::Ctl::new`, which fails with `NotFound` when the
    /// dotted key names no kernel parameter, and `sysctl::Sysctl::value_string`,
    /// which returns the parameter's current value. Nothing is claimed of the
    /// value that came back, only that the read was issued and whether it
    /// failed.
    #[verifier::external_body]
    fn read_kernel(&mut self, key: &str) -> (r: Result<String, SysctlFault>)
        ensures
            final(self).log() == old(self).log().push(SysctlEventV::Read { key: key@ }),
            final(self).failed() == old(self).failed() + (if r is Ok {
                0nat
            } else {
                1nat
            }),
    {
        match sysctl::Ctl::new(key).and_then(|ctl| ctl.value_string()) {
            Ok(value) => Ok(value),
            Err(e) => Err(SysctlFault { message: format!("{}", e) }),
        }
    }

    /// Relies on `sysctl::Ctl::new` and `sysctl::Sysctl::set_value_string`,
    /// which writes the given string under the dotted key and then reads the
    /// parameter back, returning that read-back — which may differ from the
    /// input. Nothing is claimed of the returned value or of the kernel's
    /// state, only that the write was issued and whether the crate reported
    /// it failed.
    #[verifier::external_body]
    fn write_kernel(&mut self, key: &str, value: &str) -> (r: Result<String, SysctlFault>)
        ensures
            final(self).log() == old(self).log().push(
                SysctlEventV::Write { key: key@, value: value@ },
            ),
            final(self).failed() == old(self).failed() + (if r is Ok {
                0nat
            } else {
                1nat
            }),
    {
        match sysctl::Ctl::new(key).and_then(|ctl| ctl.set_value_string(value)) {
            Ok(stored) => Ok(stored),
            Err(e) => Err(SysctlFault { message: format!("{}", e) }),
        }
    }
}

impl SysctlApi for KernelSysctl {
    closed spec fn mapping(&self) -> Map<Seq<char>, Seq<char>> {
        Map::empty()
    }

    closed spec fn obeys_table(&self) -> bool {
        false
    }

    closed spec fn log(&self) -> Seq<SysctlEventV> {
        self.hist@
    }

    closed spec fn failed(&self) -> nat {
        self.failures@
    }

    fn get(&mut self, key: &str) -> (r: Result<String, SysctlFault>) {
        self.read_kernel(key)
    }

    fn set(&mut self, key: &str, value: &str) -> (r: Result<String, SysctlFault>) {
        self.write_kernel(key, value)
    }
}

} // verus!
