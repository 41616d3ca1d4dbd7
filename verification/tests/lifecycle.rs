use sp_mvm::mvm::VmLifecycle;

#[test]
fn get_or_create_initializes_once_and_keeps_state() {
    let mut l = VmLifecycle::new();
    assert!(l.try_get_or_create_move_vm().is_ok());
    // Bind some state to the instance's storage.
    l.vm_mut().storage.set(vec![1], vec![42]);
    // A second call returns the same instance: the storage binding survives,
    // nothing is reconstructed.
    assert!(l.try_get_or_create_move_vm().is_ok());
    assert_eq!(l.vm_ref().storage.get(&vec![1]), Some(&vec![42]));
    // And a third, for good measure.
    assert!(l.try_get_or_create_move_vm().is_ok());
    assert_eq!(l.vm_ref().storage.get(&vec![1]), Some(&vec![42]));
}

#[test]
fn finalize_twice_never_errors_and_never_duplicates_storage() {
    let mut l = VmLifecycle::new();
    assert!(l.try_get_or_create_move_vm().is_ok());
    l.vm_mut().storage.set(vec![3], vec![7, 7]);
    l.vm_mut().publish_cache.push(vec![9, 9]);
    l.on_finalize();
    assert_eq!(l.vm_ref().storage.get(&vec![3]), Some(&vec![7, 7]));
    assert!(l.vm_ref().publish_cache.is_empty());
    l.on_finalize();
    assert_eq!(l.vm_ref().storage.get(&vec![3]), Some(&vec![7, 7]));
    assert!(l.vm_ref().publish_cache.is_empty());
}

#[test]
fn finalize_on_a_fresh_process_constructs_the_instance() {
    let mut l = VmLifecycle::new();
    l.on_finalize();
    assert!(l.vm_ref().storage.get(&vec![0]).is_none());
    assert!(l.vm_ref().publish_cache.is_empty());
}
