use pluggable_device::lifecycle::KernelInstance;

#[test]
fn an_instance_is_live_when_its_state_was_built() {
    let instance = KernelInstance::create(Some(5u8));
    assert_eq!(instance, KernelInstance::Live(5));
    assert!(instance.is_live());
    assert_eq!(instance.compute(), Some(&5));
}

#[test]
fn an_instance_without_state_is_never_run() {
    let mut instance: KernelInstance<u8> = KernelInstance::create(None);
    assert_eq!(instance, KernelInstance::Failed);
    assert!(!instance.is_live());
    assert_eq!(instance.compute(), None);
    assert_eq!(instance.delete(), None);
    assert_eq!(instance, KernelInstance::Failed);
}

#[test]
fn an_instance_gives_its_state_back_once() {
    let mut instance = KernelInstance::create(Some("state".to_owned()));
    assert_eq!(instance.compute(), Some(&"state".to_owned()));
    assert_eq!(instance.compute(), Some(&"state".to_owned()));
    assert_eq!(instance.delete(), Some("state".to_owned()));
    assert_eq!(instance, KernelInstance::Deleted);
    assert!(!instance.is_live());
    assert_eq!(instance.compute(), None);
    assert_eq!(instance.delete(), None);
    assert_eq!(instance, KernelInstance::Deleted);
}
