use dcx::status::mount_state_label;

#[test]
fn label_running_when_mounted_with_container() {
    assert_eq!(mount_state_label(true, true), "running");
}

#[test]
fn label_orphaned_when_mounted_no_container() {
    assert_eq!(mount_state_label(true, false), "orphaned");
}

#[test]
fn label_stale_when_not_mounted() {
    assert_eq!(mount_state_label(false, false), "stale mount");
}

#[test]
fn label_stale_ignores_container_flag() {
    // When not mounted, the has_container flag is irrelevant — always "stale mount".
    assert_eq!(mount_state_label(false, true), "stale mount");
}
