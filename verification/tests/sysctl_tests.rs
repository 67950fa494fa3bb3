use netsetup::sysctl_host::KernelSysctl;
use netsetup::sysctl_mgr::ensure;
use netsetup::sysctl_mgr::MemSysctl;
use netsetup::sysctl_mgr::SysctlApi;
use netsetup::sysctl_mgr::SysctlEvent;

fn entry(k: &str, v: &str) -> (String, String) {
    (k.to_string(), v.to_string())
}

fn write_count(mgr: &MemSysctl) -> usize {
    mgr.events
        .iter()
        .filter(|e| matches!(e, SysctlEvent::Write { .. }))
        .count()
}

#[test]
fn ensure_writes_nothing_when_value_already_matches() {
    let mut mgr = MemSysctl::new(vec![entry("net.ipv4.ip_forward", "1")]);
    assert!(ensure(&mut mgr, "net.ipv4.ip_forward", "1").is_ok());
    assert_eq!(write_count(&mgr), 0);
    assert_eq!(mgr.get("net.ipv4.ip_forward").unwrap(), "1");
}

#[test]
fn ensure_writes_exactly_once_when_value_differs() {
    let mut mgr = MemSysctl::new(vec![entry("net.ipv4.ip_forward", "0")]);
    assert!(ensure(&mut mgr, "net.ipv4.ip_forward", "1").is_ok());
    assert_eq!(write_count(&mgr), 1);
    assert_eq!(mgr.get("net.ipv4.ip_forward").unwrap(), "1");
}

#[test]
fn ensure_leaves_value_equal_and_stays_idempotent() {
    let mut mgr = MemSysctl::new(vec![entry("net.ipv4.ip_forward", "0")]);
    assert!(ensure(&mut mgr, "net.ipv4.ip_forward", "1").is_ok());
    assert!(ensure(&mut mgr, "net.ipv4.ip_forward", "1").is_ok());
    assert!(ensure(&mut mgr, "net.ipv4.ip_forward", "1").is_ok());
    assert_eq!(write_count(&mgr), 1);
    assert_eq!(mgr.get("net.ipv4.ip_forward").unwrap(), "1");
}

#[test]
fn ensure_fails_without_writing_when_key_is_missing() {
    let mut mgr = MemSysctl::new(vec![entry("net.ipv4.ip_forward", "1")]);
    assert!(ensure(&mut mgr, "net.ipv6.conf.all.forwarding", "1").is_err());
    assert_eq!(write_count(&mgr), 0);
}

#[test]
fn mem_table_get_reads_stored_values() {
    let mut mgr = MemSysctl::new(vec![entry("a.b", "x"), entry("c.d", "y")]);
    assert_eq!(mgr.get("a.b").unwrap(), "x");
    assert_eq!(mgr.get("c.d").unwrap(), "y");
    assert!(mgr.get("e.f").is_err());
}

#[test]
fn kernel_manager_rejects_missing_key() {
    let mut mgr = KernelSysctl::new();
    assert!(mgr.get("this.key.does.not.exist").is_err());
}

#[test]
fn kernel_manager_reads_a_real_key() {
    let mut mgr = KernelSysctl::new();
    assert_eq!(mgr.get("kernel.ostype").unwrap(), "Linux");
}

#[test]
fn mem_table_set_returns_the_stored_value() {
    let mut mgr = MemSysctl::new(vec![entry("a.b", "x")]);
    assert_eq!(mgr.set("a.b", "y").unwrap(), "y");
    assert_eq!(mgr.get("a.b").unwrap(), "y");
}
