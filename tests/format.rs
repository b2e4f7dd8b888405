use dcx::format::{
    format_clean_summary, format_doctor_report, format_dry_run, format_status_table, CleanEntry,
    DoctorCheck, DryRunPlan, StatusRow,
};

#[test]
fn status_table_empty_rows() {
    assert_eq!(format_status_table(&[]), "No active workspaces.");
}

#[test]
fn status_table_header_present() {
    let rows = vec![StatusRow {
        workspace: Some("/home/user/project-a".to_string()),
        mount: "dcx-project-a-a1b2c3d4".to_string(),
        container: Some("abc123".to_string()),
        state: "running".to_string(),
    }];
    let out = format_status_table(&rows);
    assert!(out.contains("WORKSPACE"), "missing WORKSPACE header");
    assert!(out.contains("MOUNT"), "missing MOUNT header");
    assert!(out.contains("CONTAINER"), "missing CONTAINER header");
    assert!(out.contains("STATE"), "missing STATE header");
}

#[test]
fn status_table_row_data_present() {
    let rows = vec![StatusRow {
        workspace: Some("/home/user/project-a".to_string()),
        mount: "dcx-project-a-a1b2c3d4".to_string(),
        container: Some("abc123".to_string()),
        state: "running".to_string(),
    }];
    let out = format_status_table(&rows);
    assert!(out.contains("/home/user/project-a"));
    assert!(out.contains("dcx-project-a-a1b2c3d4"));
    assert!(out.contains("abc123"));
    assert!(out.contains("running"));
}

#[test]
fn status_table_columns_are_aligned() {
    let rows = vec![StatusRow {
        workspace: Some("/home/user/project-a".to_string()),
        mount: "dcx-project-a-a1b2c3d4".to_string(),
        container: Some("abc123".to_string()),
        state: "running".to_string(),
    }];
    let out = format_status_table(&rows);
    let mut lines = out.lines();
    let header = lines.next().unwrap();
    let data = lines.next().unwrap();
    let mount_col = header.find("MOUNT").unwrap();
    let mount_data_col = data.find("dcx-").unwrap();
    assert_eq!(
        mount_col, mount_data_col,
        "MOUNT column misaligned:\nheader: {header}\ndata:   {data}"
    );
}

#[test]
fn status_table_unknown_workspace_shown() {
    let rows = vec![StatusRow {
        workspace: None,
        mount: "dcx-project-c-i9j0k1l2".to_string(),
        container: None,
        state: "stale mount".to_string(),
    }];
    let out = format_status_table(&rows);
    assert!(out.contains("(unknown)"));
    assert!(out.contains("(none)"));
    assert!(out.contains("stale mount"));
}

#[test]
fn doctor_report_starts_with_checking_prerequisites() {
    let out = format_doctor_report(&[]);
    assert!(out.starts_with("Checking prerequisites..."));
    assert!(!out.contains("All checks passed."));
}

#[test]
fn doctor_report_all_passed_message() {
    let checks = vec![DoctorCheck {
        name: "bindfs installed".to_string(),
        passed: true,
        detail: Some("v1.17.2".to_string()),
    }];
    let out = format_doctor_report(&checks);
    assert!(out.contains("All checks passed."), "got: {out}");
    assert!(out.contains("✓ bindfs installed (v1.17.2)"), "got: {out}");
}

#[test]
fn doctor_report_passed_check_without_detail() {
    // A passed check with detail: None must not render empty parentheses.
    let checks = vec![DoctorCheck {
        name: "bindfs installed".to_string(),
        passed: true,
        detail: None,
    }];
    let out = format_doctor_report(&checks);
    assert!(out.contains("✓ bindfs installed"), "got: {out}");
    assert!(
        !out.contains("()"),
        "must not render empty parens, got: {out}"
    );
}

#[test]
fn doctor_report_failed_check_shows_cross_and_fix() {
    let checks = vec![DoctorCheck {
        name: "bindfs not installed".to_string(),
        passed: false,
        detail: Some("sudo apt install bindfs".to_string()),
    }];
    let out = format_doctor_report(&checks);
    assert!(!out.contains("All checks passed."), "got: {out}");
    assert!(out.contains("✗ bindfs not installed"), "got: {out}");
    assert!(out.contains("Fix: sudo apt install bindfs"), "got: {out}");
}

#[test]
fn doctor_report_mixed_checks() {
    let checks = vec![
        DoctorCheck {
            name: "bindfs installed".to_string(),
            passed: true,
            detail: None,
        },
        DoctorCheck {
            name: "devcontainer not installed".to_string(),
            passed: false,
            detail: Some("npm install -g @devcontainers/cli".to_string()),
        },
    ];
    let out = format_doctor_report(&checks);
    assert!(!out.contains("All checks passed."));
    assert!(out.contains("✓ bindfs installed"));
    assert!(out.contains("✗ devcontainer not installed"));
}

#[test]
fn clean_summary_no_active_left() {
    let entries = vec![CleanEntry {
        workspace: Some("/home/user/project-b".to_string()),
        mount: "dcx-project-b-e5f6g7h8".to_string(),
        was: "orphaned".to_string(),
        action: "unmounted".to_string(),
    }];
    let out = format_clean_summary(&entries, 0);
    assert!(out.starts_with("Cleaned 1 mounts:"), "got: {out}");
    assert!(out.contains("/home/user/project-b"));
    assert!(out.contains("dcx-project-b-e5f6g7h8"));
    assert!(out.contains("was: orphaned"));
    assert!(out.contains("unmounted"));
}

#[test]
fn clean_summary_with_active_left() {
    let entries = vec![CleanEntry {
        workspace: None,
        mount: "dcx-project-c-i9j0k1l2".to_string(),
        was: "stale".to_string(),
        action: "unmounted".to_string(),
    }];
    let out = format_clean_summary(&entries, 2);
    assert!(
        out.starts_with("Cleaned 1 mounts (2 active mounts left untouched):"),
        "got: {out}"
    );
    assert!(out.contains("dcx-project-c-i9j0k1l2"));
}

#[test]
fn clean_summary_no_workspace_shows_mount_only() {
    let entries = vec![CleanEntry {
        workspace: None,
        mount: "dcx-old-thing-m3n4o5p6".to_string(),
        was: "empty dir".to_string(),
        action: "removed".to_string(),
    }];
    let out = format_clean_summary(&entries, 0);
    assert!(out.contains("dcx-old-thing-m3n4o5p6"));
    assert!(out.contains("was: empty dir"));
    assert!(out.contains("removed"));
    // The workspace→mount arrow must NOT appear (no workspace to display).
    assert!(!out.contains("None"));
    assert!(!out.contains("→  dcx-old-thing"));
}

#[test]
fn dry_run_empty_plans_shows_nothing_to_clean() {
    let out = format_dry_run(&[]);
    assert_eq!(out, "Nothing to clean.");
}

#[test]
fn dry_run_single_running_container_shows_actions() {
    let plans = vec![DryRunPlan {
        mount_name: "dcx-myproject-a1b2c3d4".to_string(),
        state: "running".to_string(),
        container_id: Some("abc123def456".to_string()),
        runtime_image_id: Some("sha256:xyz".to_string()),
        has_base_image_tag: false,
        volumes: vec![],
        is_mounted: true,
    }];
    let out = format_dry_run(&plans);
    assert!(out.contains("Would clean:"), "got: {out}");
    assert!(out.contains("dcx-myproject-a1b2c3d4"), "got: {out}");
    assert!(out.contains("(running)"), "got: {out}");
    assert!(
        out.contains("Stop and remove container abc123def456"),
        "got: {out}"
    );
    assert!(
        out.contains("Remove runtime image sha256:xyz"),
        "got: {out}"
    );
    assert!(out.contains("Unmount bindfs"), "got: {out}");
    assert!(out.contains("Remove mount directory"), "got: {out}");
}

#[test]
fn dry_run_with_purge_shows_build_image_and_volumes() {
    let plans = vec![DryRunPlan {
        mount_name: "dcx-myproject-a1b2c3d4".to_string(),
        state: "running".to_string(),
        container_id: Some("abc123".to_string()),
        runtime_image_id: Some("sha256:xyz".to_string()),
        has_base_image_tag: true,
        volumes: vec!["dcx-shellhistory-abc123".to_string()],
        is_mounted: true,
    }];
    let out = format_dry_run(&plans);
    assert!(out.contains("[purge]"), "missing [purge] marker");
    assert!(
        out.contains("Remove base image tag dcx-base:dcx-myproject-a1b2c3d4"),
        "got: {out}"
    );
    assert!(
        out.contains("Remove volume dcx-shellhistory-abc123"),
        "got: {out}"
    );
}

#[test]
fn dry_run_orphaned_mount_shows_minimal_actions() {
    let plans = vec![DryRunPlan {
        mount_name: "dcx-old-e5f6g7h8".to_string(),
        state: "orphaned".to_string(),
        container_id: None,
        runtime_image_id: None,
        has_base_image_tag: false,
        volumes: vec![],
        is_mounted: true,
    }];
    let out = format_dry_run(&plans);
    assert!(out.contains("dcx-old-e5f6g7h8"), "got: {out}");
    assert!(out.contains("(orphaned)"), "got: {out}");
    assert!(
        !out.contains("Stop and remove container"),
        "should not stop container"
    );
    assert!(out.contains("Unmount bindfs"), "got: {out}");
}

#[test]
fn dry_run_multiple_plans() {
    let plans = vec![
        DryRunPlan {
            mount_name: "dcx-project-a-a1b2c3d4".to_string(),
            state: "running".to_string(),
            container_id: Some("abc123".to_string()),
            runtime_image_id: None,
            has_base_image_tag: false,
            volumes: vec![],
            is_mounted: true,
        },
        DryRunPlan {
            mount_name: "dcx-project-b-e5f6g7h8".to_string(),
            state: "orphaned".to_string(),
            container_id: None,
            runtime_image_id: None,
            has_base_image_tag: false,
            volumes: vec![],
            is_mounted: false,
        },
    ];
    let out = format_dry_run(&plans);
    assert!(out.contains("dcx-project-a-a1b2c3d4"), "got: {out}");
    assert!(out.contains("dcx-project-b-e5f6g7h8"), "got: {out}");
    assert!(out.contains("(running)"), "got: {out}");
    assert!(out.contains("(orphaned)"), "got: {out}");
}
