use netsetup::hash::create_network_hash;
use netsetup::hash::MAX_HASH_SIZE;

#[test]
fn hash_has_fixed_length() {
    assert_eq!(create_network_hash("podman").len(), MAX_HASH_SIZE);
    assert_eq!(create_network_hash("a").len(), MAX_HASH_SIZE);
    assert_eq!(create_network_hash("").len(), MAX_HASH_SIZE);
    assert_eq!(
        create_network_hash("a-rather-long-network-name-that-exceeds-the-bound").len(),
        MAX_HASH_SIZE
    );
}

#[test]
fn hash_is_stable_across_calls() {
    assert_eq!(create_network_hash("podman"), create_network_hash("podman"));
    assert_eq!(create_network_hash("net1"), create_network_hash("net1"));
}

#[test]
fn hash_exact_values() {
    assert_eq!(create_network_hash("podman"), "82103e11a5d41");
    assert_eq!(create_network_hash("net1"), "babb130aab92f");
    assert_eq!(create_network_hash("net2"), "e5db130aaba2f");
}

#[test]
fn hash_distinguishes_these_names() {
    assert_ne!(create_network_hash("net1"), create_network_hash("net2"));
}

#[test]
fn hash_uses_legal_characters() {
    for c in create_network_hash("some network").chars() {
        assert!(c.is_ascii_hexdigit());
        assert!(!c.is_ascii_uppercase());
    }
}
