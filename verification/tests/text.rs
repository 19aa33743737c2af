use pluggable_device::text::{is_nul_terminated, same_text};

#[test]
fn names_must_end_with_a_nul() {
    assert!(is_nul_terminated("Relu\0"));
    assert!(is_nul_terminated("\0"));
    assert!(!is_nul_terminated("Relu"));
    assert!(!is_nul_terminated(""));
    assert!(!is_nul_terminated("Re\0lu"));
}

#[test]
fn same_text_compares_bytes() {
    assert!(same_text("T\0", "T\0"));
    assert!(same_text("", ""));
    assert!(!same_text("T\0", "T"));
    assert!(!same_text("T\0", "U\0"));
    assert!(!same_text("data_format\0", "data_formaT\0"));
}
