use khm::api::{bulk_default_message, host_action_default_message};
use khm::api::{
    all_keys_url, api_url, bulk_url, check_html_response, check_response_status,
    client_authorization, client_keys_url, connection_success_message, count_key_lines,
    found_keys_message, host_url, hostname_header, keys_url, khm_test_result, local_hostname,
    manual_sync_result, parse_api_response, parse_basic_auth, require_fields, scan_dns_url,
    server_error_text, version_from_body, HostAction,
};
use khm::connection::{parse_found_count, parse_keys_count, ConnectionStatus, ConnectionTab, SyncStatus};

#[test]
fn builds_flow_endpoints_without_doubled_slashes() {
    assert_eq!(keys_url("https://khm.example.com//", "work"), "https://khm.example.com/work/keys");
    assert_eq!(
        all_keys_url("https://khm.example.com", "work"),
        "https://khm.example.com/work/keys?include_deprecated=true"
    );
    assert_eq!(bulk_url("http://h/", "f", false), "http://h/f/bulk-deprecate");
    assert_eq!(bulk_url("http://h", "f", true), "http://h/f/bulk-restore");
    assert_eq!(scan_dns_url("http://h/", "f"), "http://h/f/scan-dns");
    assert_eq!(api_url("http://h/", true), "http://h/api/flows");
    assert_eq!(api_url("http://h", false), "http://h/api/version");
    assert_eq!(client_keys_url("http://h/work"), "http://h/work/keys");
}

#[test]
fn percent_encodes_the_host_name_in_key_endpoints() {
    assert_eq!(
        host_url("http://h", "f", "web 1/a", HostAction::Deprecate),
        "http://h/f/keys/web%201%2Fa"
    );
    assert_eq!(
        host_url("http://h", "f", "a.b-c_d~e", HostAction::Restore),
        "http://h/f/keys/a.b-c_d~e/restore"
    );
    assert_eq!(host_url("http://h", "f", "é", HostAction::Delete), "http://h/f/keys/%C3%A9/delete");
}

#[test]
fn splits_basic_auth_credentials() {
    assert_eq!(parse_basic_auth(""), Ok(None));
    assert_eq!(
        parse_basic_auth("user:pa:ss"),
        Ok(Some(("user".to_string(), "pa:ss".to_string())))
    );
    if let Ok(Some((u, p))) = parse_basic_auth("admin:s3:cr:et") {
        assert!(!u.contains(':'));
        assert_eq!(format!("{}:{}", u, p), "admin:s3:cr:et");
    } else {
        panic!("credentials expected");
    }
    assert_eq!(
        parse_basic_auth("nocolon"),
        Err("Basic auth format should be 'username:password'".to_string())
    );
}

#[test]
fn encodes_the_authorization_header() {
    assert_eq!(client_authorization("user:pass"), Some("Basic dXNlcjpwYXNz".to_string()));
    assert_eq!(client_authorization("a:"), Some("Basic YTo=".to_string()));
    assert_eq!(client_authorization(""), None);
    assert_eq!(client_authorization("nocolon"), None);
}

#[test]
fn keeps_a_usable_host_name_for_the_header() {
    assert_eq!(hostname_header("laptop"), "laptop");
    assert_eq!(hostname_header("bad\nname"), "unknown-host");
    assert!(!local_hostname().is_empty());
}

#[test]
fn judges_response_statuses() {
    assert_eq!(check_response_status(200), Ok(()));
    assert_eq!(check_response_status(204), Ok(()));
    assert_eq!(
        check_response_status(401),
        Err("Authentication required. Please provide valid basic auth credentials.".to_string())
    );
    assert_eq!(
        check_response_status(302),
        Err("Server redirects to login page. Authentication may be required.".to_string())
    );
    assert_eq!(check_response_status(404), Err("Server returned error: 404 Not Found".to_string()));
    assert_eq!(server_error_text(500), "Server returned error: 500 Internal Server Error");
    assert_eq!(server_error_text(599), "Server returned error: 599 Unknown");
}

#[test]
fn refuses_html_where_json_is_expected() {
    let msg = "Server returned HTML page instead of JSON. This usually means authentication is required or the endpoint is incorrect.";
    assert_eq!(check_html_response("  <!DOCTYPE html><html>"), Err(msg.to_string()));
    assert_eq!(check_html_response("<html><body>"), Err(msg.to_string()));
    assert_eq!(check_html_response("[]"), Ok(()));
}

#[test]
fn reads_messages_and_versions_from_json() {
    assert_eq!(parse_api_response(r#"{"message":"done"}"#, "fallback"), Ok("done".to_string()));
    assert_eq!(parse_api_response("not json", "fallback"), Ok("fallback".to_string()));
    assert_eq!(version_from_body(r#"{"version":"0.6.2"}"#), Ok("0.6.2".to_string()));
    assert_eq!(version_from_body("{}"), Ok("unknown".to_string()));
    let e = version_from_body("oops").unwrap_err();
    assert!(e.starts_with("Failed to parse version: "));
}

#[test]
fn formats_result_messages() {
    assert_eq!(found_keys_message(3, "work"), "Found 3 SSH keys from flow 'work'");
    assert_eq!(
        connection_success_message(0, "home"),
        "Connection successful! Found 0 SSH keys from flow 'home'"
    );
    assert_eq!(manual_sync_result(Ok(12)), Ok("Sync completed successfully with 12 keys".to_string()));
    assert_eq!(manual_sync_result(Err("io".to_string())), Err("io".to_string()));
    assert_eq!(require_fields("", Some("f"), "need both"), Err("need both".to_string()));
    assert_eq!(require_fields("h", Some(""), "need both"), Err("need both".to_string()));
    assert_eq!(require_fields("h", None, "need both"), Ok(()));
}

#[test]
fn judges_a_settings_connection_test() {
    assert_eq!(khm_test_result("  \n", "w"), Err("Server returned empty response".to_string()));
    assert_eq!(khm_test_result("[]", "w"), Err("No SSH keys found in response".to_string()));
    assert_eq!(
        khm_test_result(r#"[{"server":"a"},{"server":"b"}]"#, "w"),
        Ok("Connection successful! Found 2 SSH keys in flow 'w'".to_string())
    );
    assert_eq!(
        khm_test_result("# comment\nhost ssh-rsa AAAA\n\nother ssh-ed25519 AAAA\n", "w"),
        Ok("Connection successful! Found 2 SSH keys in flow 'w'".to_string())
    );
    assert_eq!(
        khm_test_result("# only a comment", "w"),
        Err("Invalid response format - not JSON array or SSH keys text".to_string())
    );
    assert_eq!(count_key_lines("a\n  \n#x\nb\r\n"), 2);
}

#[test]
fn reads_the_count_of_a_connection_test() {
    assert_eq!(parse_found_count("Found 42 SSH keys from flow 'x'"), 42);
    assert_eq!(parse_found_count("Connection successful! Found 7 SSH keys in flow 'x'"), 7);
    assert_eq!(parse_found_count("Found many SSH keys"), 0);
    assert_eq!(parse_found_count("nothing here"), 0);
}

#[test]
fn reads_the_count_of_a_sync() {
    assert_eq!(parse_keys_count("known_hosts updated with 15 keys"), 15);
    assert_eq!(parse_keys_count("Retrieved 8 keys from server"), 8);
    assert_eq!(parse_keys_count("Sync completed successfully with 21 keys"), 21);
    assert_eq!(parse_keys_count("updated with lots of things"), 0);
    assert_eq!(parse_keys_count("no count"), 0);
}

#[test]
fn counts_shown_are_the_counts_reported() {
    for n in [0usize, 1, 9, 10, 123456] {
        assert_eq!(parse_found_count(&found_keys_message(n, "any flow")), n);
        let m = manual_sync_result(Ok(n)).unwrap();
        assert_eq!(parse_keys_count(&m), n);
    }
}

#[test]
fn a_connection_test_updates_the_tab() {
    let mut tab = ConnectionTab::new();
    assert!(tab.begin_test());
    assert!(!tab.begin_test());
    let log = tab.finish_test(Ok("Found 5 SSH keys from flow 'w'".to_string()), "w");
    assert_eq!(log, "✅ Connection test successful: Found 5 SSH keys from flow 'w'");
    assert!(!tab.is_testing_connection);
    match &tab.connection_status {
        ConnectionStatus::Connected { keys_count, flow } => {
            assert_eq!(*keys_count, 5);
            assert_eq!(flow, "w");
        }
        other => panic!("unexpected status {:?}", other),
    }
    assert!(tab.begin_test());
    let log = tab.finish_test(Err("timeout".to_string()), "w");
    assert_eq!(log, "❌ Connection test failed: timeout");
    assert!(matches!(tab.connection_status, ConnectionStatus::Error(ref e) if e == "timeout"));
}

#[test]
fn a_sync_updates_the_tab() {
    let mut tab = ConnectionTab::new();
    assert!(tab.begin_sync());
    assert!(!tab.begin_sync());
    let log = tab.finish_sync(Ok("Sync completed successfully with 4 keys".to_string()));
    assert_eq!(log, "✅ Sync completed: Sync completed successfully with 4 keys");
    assert!(matches!(tab.sync_status, SyncStatus::Success { keys_count: 4 }));
    assert!(tab.begin_sync());
    let log = tab.finish_sync(Err("denied".to_string()));
    assert_eq!(log, "❌ Sync failed: denied");
    assert!(!tab.is_syncing);
}

#[test]
fn the_start_up_test_runs_once() {
    let mut tab = ConnectionTab::new();
    assert!(!tab.take_auto_test());
    tab.should_auto_test = true;
    assert!(tab.take_auto_test());
    assert!(!tab.should_auto_test);
    assert!(!tab.take_auto_test());
}

#[test]
fn default_messages_when_the_server_says_nothing() {
    assert_eq!(
        host_action_default_message(HostAction::Deprecate, "a"),
        "Successfully deprecated key for server 'a'"
    );
    assert_eq!(host_action_default_message(HostAction::Restore, "b"), "Successfully restored key for server 'b'");
    assert_eq!(host_action_default_message(HostAction::Delete, "c"), "Successfully deleted key for server 'c'");
    assert_eq!(bulk_default_message(false), "Successfully deprecated servers");
    assert_eq!(bulk_default_message(true), "Successfully restored servers");
}

#[test]
fn reports_unknown_host_when_the_system_has_no_name() {
    assert_eq!(khm::api::hostname_or_unknown(Some("box".to_string())), "box");
    assert_eq!(khm::api::hostname_or_unknown(None), "unknown-host");
}
