use syscallmind::common::{fnv_hash, zero_pubkey, zero_tx_id, SafetyClass, SyscallClass};

#[test]
fn fnv_hash_is_deterministic() {
    let h1 = fnv_hash(b"hello");
    let h2 = fnv_hash(b"hello");
    assert_eq!(h1, h2);
}

#[test]
fn fnv_hash_differs_for_different_inputs() {
    assert_ne!(fnv_hash(b"hello"), fnv_hash(b"world"));
}

#[test]
fn syscall_class_display() {
    assert_eq!(SyscallClass::Crypto.to_string(), "Crypto");
    assert_eq!(SafetyClass::ReadOnly.to_string(), "ReadOnly");
}

#[test]
fn fnv_hash_known_values() {
    assert_eq!(fnv_hash(b""), 0xcbf29ce484222325);
    assert_eq!(fnv_hash(b"a"), 0xaf63dc4c8601ec8c);
    assert_eq!(fnv_hash(b"foobar"), 0x85944171f73967e8);
}

#[test]
fn zero_ids_are_all_zero() {
    assert_eq!(zero_pubkey(), [0u8; 32]);
    assert_eq!(zero_tx_id(), [0u8; 32]);
}

#[test]
fn class_names() {
    assert_eq!(SyscallClass::CPI.to_string(), "CPI");
    assert_eq!(SyscallClass::Unknown.name(), "Unknown");
    assert_eq!(SafetyClass::OrderSensitive.to_string(), "OrderSensitive");
    assert!(SafetyClass::Idempotent.is_eligible());
    assert!(!SafetyClass::StateChanging.is_eligible());
}
