use dcx::exec::{
    build_exec_args, generate_merged_override_config, generate_override_config, json_escape,
    mount_not_found_error, no_mount_error, stale_mount_error,
};

#[test]
fn no_mount_error_message() {
    let ws = "/home/user/myproject";
    let msg = no_mount_error(ws);
    assert!(msg.contains("No mount found"), "got: {msg}");
    assert!(msg.contains("/home/user/myproject"), "got: {msg}");
    assert!(msg.contains("dcx up"), "got: {msg}");
}

#[test]
fn stale_mount_error_message() {
    let msg = stale_mount_error();
    assert!(msg.contains("stale"), "got: {msg}");
    assert!(msg.contains("dcx up"), "got: {msg}");
    assert!(msg.contains("remount"), "got: {msg}");
}

#[test]
fn exec_args_includes_container_id() {
    let ws = "/home/user/myproject";
    let args = build_exec_args("abc123", ws, None, None, &[]);
    let ci = args.iter().position(|a| a == "--container-id").unwrap();
    assert_eq!(args[ci + 1], "abc123");
}

#[test]
fn exec_args_includes_workspace_folder() {
    let ws = "/home/user/myproject";
    let args = build_exec_args("abc123", ws, None, None, &[]);
    let wi = args.iter().position(|a| a == "--workspace-folder").unwrap();
    assert_eq!(args[wi + 1], "/home/user/myproject");
}

#[test]
fn exec_args_appends_command_after_separator() {
    let ws = "/home/user/myproject";
    let cmd = vec!["bash".to_string(), "-c".to_string(), "echo hi".to_string()];
    let args = build_exec_args("abc123", ws, None, None, &cmd);
    let sep = args.iter().position(|a| a == "--").unwrap();
    assert_eq!(args[sep + 1], "bash");
    assert_eq!(args[sep + 2], "-c");
    assert_eq!(args[sep + 3], "echo hi");
}

#[test]
fn exec_args_no_separator_when_command_empty() {
    let ws = "/home/user/myproject";
    let args = build_exec_args("abc123", ws, None, None, &[]);
    assert!(!args.contains(&"--".to_string()));
}

#[test]
fn exec_args_includes_config_when_provided() {
    let ws = "/home/user/myproject";
    let cfg = "/home/user/project/.devcontainer/devcontainer.json";
    let args = build_exec_args("abc123", ws, Some(cfg), None, &[]);
    let ci = args.iter().position(|a| a == "--config").unwrap();
    assert_eq!(args[ci + 1], cfg);
}

#[test]
fn exec_args_no_config_flag_when_absent() {
    let ws = "/home/user/myproject";
    let args = build_exec_args("abc123", ws, None, None, &[]);
    assert!(!args.contains(&"--config".to_string()));
}

#[test]
fn exec_args_includes_override_config_when_provided() {
    let ws = "/home/user/myproject";
    let oc = "/tmp/dcx-override-12345.json";
    let args = build_exec_args("abc123", ws, None, Some(oc), &[]);
    let oci = args.iter().position(|a| a == "--override-config").unwrap();
    assert_eq!(args[oci + 1], oc);
}

#[test]
fn exec_args_no_override_config_flag_when_absent() {
    let ws = "/home/user/myproject";
    let args = build_exec_args("abc123", ws, None, None, &[]);
    assert!(!args.contains(&"--override-config".to_string()));
}

#[test]
fn mount_not_found_error_stale_when_dir_exists() {
    // If the relay directory still exists but the mount is gone, it's a stale state
    let ws = "/home/user/myproject";
    let msg = mount_not_found_error(ws, true);
    assert!(msg.contains("stale"), "got: {msg}");
}

#[test]
fn mount_not_found_error_no_mount_when_dir_absent() {
    // If the relay directory never existed, no mount was ever set up
    let ws = "/home/user/myproject";
    let msg = mount_not_found_error(ws, false);
    assert!(msg.contains("No mount found"), "got: {msg}");
}

#[test]
fn json_escape_handles_backslash() {
    let result = json_escape("path\\with\\backslash");
    assert_eq!(result, "path\\\\with\\\\backslash");
}

#[test]
fn json_escape_handles_quotes() {
    let result = json_escape("name\"with\"quotes");
    assert_eq!(result, "name\\\"with\\\"quotes");
}

#[test]
fn json_escape_handles_newline() {
    let result = json_escape("line1\nline2");
    assert_eq!(result, "line1\\nline2");
}

#[test]
fn json_escape_handles_carriage_return() {
    let result = json_escape("text\rmore");
    assert_eq!(result, "text\\rmore");
}

#[test]
fn json_escape_handles_tab() {
    let result = json_escape("tab\there");
    assert_eq!(result, "tab\\there");
}

#[test]
fn json_escape_handles_mixed_special_chars() {
    let result = json_escape("path\\with\"special\nchars\t&");
    assert_eq!(result, "path\\\\with\\\"special\\nchars\\t&");
}

#[test]
fn json_escape_leaves_normal_chars_unchanged() {
    let result = json_escape("/home/user/.cache");
    assert_eq!(result, "/home/user/.cache");
}

#[test]
fn generate_override_config_creates_valid_json() {
    let relay = "/home/user/.colima-mounts/dcx-proj-abc123";
    let ws = "/home/user/myproject";
    let result = generate_override_config(relay, ws);

    assert!(result.contains("\"workspaceMount\""));
    assert!(result.contains("\"workspaceFolder\""));
    assert!(result.contains("source=/home/user/.colima-mounts/dcx-proj-abc123"));
    assert!(result.contains("target=/home/user/myproject"));
}

#[test]
fn generate_override_config_has_correct_format() {
    let relay = "/tmp/relay";
    let ws = "/tmp/workspace";
    let result = generate_override_config(relay, ws);

    assert!(result.starts_with('{'));
    assert!(result.ends_with("}\n"));
    assert!(result.contains("\"workspaceMount\": \"source=/tmp/relay,target=/tmp/workspace,type=bind,consistency=delegated\""));
    assert!(result.contains("\"workspaceFolder\": \"/tmp/workspace\""));
}

#[test]
fn generate_override_config_escapes_special_chars() {
    let relay = "/path\\with\\backslash";
    let ws = "/path\"with\"quotes";
    let result = generate_override_config(relay, ws);

    assert!(result.contains("\\\\"));
    assert!(result.contains("\\\""));
}

#[test]
fn merged_override_config_fallback_on_empty_base() {
    let relay = "/tmp/relay";
    let ws = "/tmp/workspace";
    let result = generate_merged_override_config("", relay, ws);

    // Should fall back to standalone 2-field form
    assert!(result.contains("\"workspaceMount\""));
    assert!(result.contains("\"workspaceFolder\""));
    assert!(result.starts_with('{'));
    assert!(result.ends_with("}\n"));
}

#[test]
fn merged_override_config_fallback_on_no_closing_brace() {
    let relay = "/tmp/relay";
    let ws = "/tmp/workspace";
    let result = generate_merged_override_config("{\"image\":\"ubuntu\"", relay, ws);

    // No closing brace found, should fall back
    assert!(result.contains("\"workspaceMount\""));
    assert!(result.contains("\"workspaceFolder\""));
}

#[test]
fn merged_override_config_merges_into_base() {
    let relay = "/tmp/relay";
    let ws = "/tmp/workspace";
    let base = r#"{"image":"ubuntu:22.04","customizations":{}}"#;
    let result = generate_merged_override_config(base, relay, ws);

    // Original fields must be preserved
    assert!(result.contains("\"image\":\"ubuntu:22.04\""));
    assert!(result.contains("\"customizations\""));

    // New fields must be injected
    assert!(result.contains("\"workspaceMount\""));
    assert!(result.contains("\"workspaceFolder\""));
}

#[test]
fn merged_override_config_adds_comma_when_needed() {
    let relay = "/tmp/relay";
    let ws = "/tmp/workspace";
    let base = r#"{"image":"ubuntu"}"#;
    let result = generate_merged_override_config(base, relay, ws);

    // There should be a comma after "image" field before the workspace fields
    assert!(result.contains("\"image\":\"ubuntu\","));
}

#[test]
fn merged_override_config_no_comma_when_base_empty_object() {
    let relay = "/tmp/relay";
    let ws = "/tmp/workspace";
    let base = r#"{}"#;
    let result = generate_merged_override_config(base, relay, ws);

    // Should not add comma for empty object
    assert!(result.contains("\"workspaceMount\""));
    assert!(result.contains("\"workspaceFolder\""));
}

#[test]
fn merged_override_config_strips_jsonc_comments() {
    let relay = "/tmp/relay";
    let ws = "/tmp/workspace";
    let base = r#"
{
  // This is a comment
  "image": "ubuntu"
  /* block comment */
}
    "#;
    let result = generate_merged_override_config(base, relay, ws);

    // Comments should be stripped
    assert!(!result.contains("This is a comment"));
    assert!(!result.contains("block comment"));

    // Original fields should be preserved
    assert!(result.contains("\"image\""));

    // New fields should be present
    assert!(result.contains("\"workspaceMount\""));
}

#[test]
fn merged_override_config_escapes_paths_with_special_chars() {
    let relay = "/path\\with\\backslash";
    let ws = "/path\"with\"quotes";
    let base = r#"{"image":"ubuntu"}"#;
    let result = generate_merged_override_config(base, relay, ws);

    assert!(result.contains("\\\\"));
    assert!(result.contains("\\\""));
}

#[test]
fn merged_override_config_preserves_nested_braces() {
    let relay = "/tmp/relay";
    let ws = "/tmp/workspace";
    let base = r#"{"customizations":{"vscode":{"settings":{"a":1}}}}"#;
    let result = generate_merged_override_config(base, relay, ws);

    // All nested structure should be preserved
    assert!(result.contains("\"customizations\""));
    assert!(result.contains("\"vscode\""));
    assert!(result.contains("\"settings\""));
    assert!(result.contains("\"a\":1"));

    // Must end with single closing brace (not corrupted)
    let trimmed = result.trim();
    assert!(trimmed.ends_with('}'));
}

