use dcx::clean::{categorize_mount_state, confirm_prompt, scan_one};

#[test]
fn confirm_prompt_shows_count() {
    let entries = vec![
        (
            "/home/user/project-a".to_string(),
            "dcx-project-a-a1b2c3d4".to_string(),
            "abc123".to_string(),
        ),
        (
            "/home/user/project-b".to_string(),
            "dcx-project-b-e5f6g7h8".to_string(),
            "def456".to_string(),
        ),
    ];
    let out = confirm_prompt(&entries);
    assert!(out.contains("2 active containers"), "got: {out}");
}

#[test]
fn confirm_prompt_singular_for_one_entry() {
    let entries = vec![(
        "/home/user/project-a".to_string(),
        "dcx-project-a-a1b2c3d4".to_string(),
        "abc123".to_string(),
    )];
    let out = confirm_prompt(&entries);
    assert!(out.contains("1 active container"), "got: {out}");
    assert!(
        !out.contains("1 active containers"),
        "must not pluralize for 1: got: {out}"
    );
}

#[test]
fn confirm_prompt_lists_each_entry() {
    let entries = vec![(
        "/home/user/project-a".to_string(),
        "dcx-project-a-a1b2c3d4".to_string(),
        "abc123".to_string(),
    )];
    let out = confirm_prompt(&entries);
    assert!(out.contains("/home/user/project-a"), "got: {out}");
    assert!(out.contains("dcx-project-a-a1b2c3d4"), "got: {out}");
    assert!(out.contains("abc123"), "got: {out}");
}

#[test]
fn categorize_mount_state_nonexistent_path_is_empty_dir() {
    // Neither in mount table nor on filesystem.
    let state = categorize_mount_state(false, false, false);
    assert_eq!(state, "empty dir");
}

#[test]
fn categorize_mount_state_existing_unmounted_dir_is_empty_dir() {
    // Directory exists on filesystem but is not in the mount table.
    assert_eq!(categorize_mount_state(false, true, false), "empty dir");
    assert_eq!(categorize_mount_state(false, true, true), "empty dir");
}

#[test]
fn scan_one_no_base_image_tag_without_purge() {
    // Without purge, scan_one should not check for base image tags.
    let fake_mount = "/tmp/dcx-nonexistent-00000000";
    let plan = scan_one(fake_mount, false, false, None, None, true, vec![], false);
    assert!(
        !plan.has_base_image_tag,
        "without purge, has_base_image_tag should be false"
    );
}

#[test]
fn scan_one_nonexistent_mount_is_empty_dir() {
    let fake_mount = "/tmp/dcx-nonexistent-00000000";
    let plan = scan_one(fake_mount, false, false, None, None, false, vec![], false);
    assert_eq!(plan.state, "empty dir");
    assert!(!plan.is_mounted);
    assert!(plan.container_id.is_none());
}
