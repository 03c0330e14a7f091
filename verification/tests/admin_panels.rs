use khm::admin::{
    filter_key_list, filter_keys_by_switches, get_key_preview, get_key_type, key_statistics, AdminOperation, AdminRequest,
    AdminState, BulkAction, KeyAction, ServerFlags, StatusFilter,
};
use khm::keys::SshKey;
use khm::settings::KhmSettings;
use khm::web::{dns_result, DnsLookupOutcome, KeyOperation};
use khm::web_admin::{
    get_key_preview as web_key_preview, AdminOperation as WebOperation, AdminSettings,
    ConnectionAction, ConnectionStatus, WebAdminApp,
};

fn key(server: &str, public_key: &str, deprecated: bool) -> SshKey {
    SshKey { server: server.to_string(), public_key: public_key.to_string(), deprecated }
}

fn sample() -> Vec<SshKey> {
    vec![
        key("Web01.example.com", "ssh-rsa AAAAweb", false),
        key("db01.example.com", "ssh-ed25519 AAAAdb", true),
        key("web01.example.com", "ssh-ed25519 AAAAnew", false),
        key("mail.example.org", "ssh-rsa AAAAMAILKEY", true),
    ]
}

#[test]
fn flags_read_back_what_was_set() {
    let mut f = ServerFlags::new();
    assert!(!f.is_set("a"));
    assert!(!f.any());
    f.set("a", true);
    f.set("b", true);
    f.set("a", true);
    assert!(f.is_set("a") && f.is_set("b"));
    assert_eq!(f.count(), 2);
    f.set("a", false);
    assert!(!f.is_set("a"));
    assert!(f.is_set("b"));
    assert_eq!(f.names(), vec!["b".to_string()]);
    f.set("c", false);
    assert_eq!(f.count(), 1);
    f.clear();
    assert_eq!(f.count(), 0);
    assert!(!f.any());
}

#[test]
fn filters_keys_by_status_and_search() {
    let keys = sample();
    assert_eq!(filter_key_list(&keys, StatusFilter::All, "").len(), 4);
    let retired = filter_key_list(&keys, StatusFilter::DeprecatedOnly, "");
    assert_eq!(retired, vec![keys[1].clone(), keys[3].clone()]);
    let active = filter_key_list(&keys, StatusFilter::ActiveOnly, "");
    assert_eq!(active, vec![keys[0].clone(), keys[2].clone()]);
    let web = filter_key_list(&keys, StatusFilter::All, "WEB01");
    assert_eq!(web, vec![keys[0].clone(), keys[2].clone()]);
    let by_key = filter_key_list(&keys, StatusFilter::All, "mailkey");
    assert_eq!(by_key, vec![keys[3].clone()]);
    let both = filter_key_list(&keys, StatusFilter::DeprecatedOnly, "example.com");
    assert_eq!(both, vec![keys[1].clone()]);
    assert!(filter_key_list(&keys, StatusFilter::All, "zzz").is_empty());
    let again = filter_key_list(&both, StatusFilter::DeprecatedOnly, "example.com");
    assert_eq!(again, both);
    let web_again = filter_key_list(&web, StatusFilter::All, "WEB01");
    assert_eq!(web_again, web);
}

#[test]
fn counts_keys_and_servers() {
    let keys = sample();
    let s = key_statistics(&keys);
    assert_eq!((s.total_keys, s.active_keys, s.deprecated_keys, s.unique_servers), (4, 2, 2, 4));
    let dup = vec![key("a", "k1", false), key("a", "k2", true), key("b", "k3", false)];
    let s = key_statistics(&dup);
    assert_eq!((s.total_keys, s.active_keys, s.deprecated_keys, s.unique_servers), (3, 2, 1, 2));
    assert_eq!(s.active_keys + s.deprecated_keys, s.total_keys);
    let s = key_statistics(&Vec::new());
    assert_eq!((s.total_keys, s.unique_servers), (0, 0));
}

#[test]
fn describes_keys_for_display() {
    assert_eq!(get_key_type("ecdsa-sha2-nistp521 AAAA"), "ECDSA");
    assert_eq!(get_key_preview("ssh-rsa AAAAB3NzaC1yc2EAAAADAQAB"), "AAAAB3NzaC1y...");
    assert_eq!(web_key_preview("ssh-rsa AAAAB3NzaC1yc2EAAAADAQAB"), "AAAAB3NzaC1yc2EA...");
    assert_eq!(web_key_preview("ssh-rsa AAAAB3NzaC1yc2EA"), "AAAAB3NzaC1yc2EA");
    assert_eq!(get_key_preview("ssh-rsa ééééééééééééé"), "éééééééééééé...");
    assert_eq!(web_key_preview("ssh-rsa éééééééééééééééééé"), "éééééééééééééééé...");
}

fn configured() -> KhmSettings {
    KhmSettings {
        host: "http://h".to_string(),
        flow: "work".to_string(),
        known_hosts: "~/.ssh/known_hosts".to_string(),
        basic_auth: String::new(),
        in_place: true,
        auto_sync_interval_minutes: 60,
    }
}

#[test]
fn the_desktop_panel_loads_and_filters_keys() {
    let mut st = AdminState::default();
    assert!(!st.begin_loading(&KhmSettings::default()));
    assert_eq!(st.current_operation, AdminOperation::Idle);
    assert!(st.begin_loading(&configured()));
    assert_eq!(st.current_operation, AdminOperation::LoadingKeys);
    st.show_deprecated_only = true;
    st.handle_keys_loaded(Ok(sample()));
    assert_eq!(st.current_operation, AdminOperation::Idle);
    assert!(st.last_load_time.is_some());
    assert_eq!(st.keys.len(), 4);
    assert_eq!(st.filtered_keys.len(), 2);
    st.search_term = "mail".to_string();
    st.filter_keys();
    assert_eq!(st.filtered_keys, vec![sample()[3].clone()]);
    st.begin_loading(&configured());
    st.handle_keys_loaded(Err("offline".to_string()));
    assert_eq!(st.current_operation, AdminOperation::Idle);
    assert_eq!(st.keys.len(), 4);
    let s = st.get_statistics();
    assert_eq!(s.total_keys, 4);
}

#[test]
fn the_desktop_panel_plans_key_requests() {
    let mut st = AdminState::default();
    assert!(st.plan_key_action(KeyAction::NoAction).is_none());
    match st.plan_key_action(KeyAction::DeprecateServer("a".to_string())) {
        Some((AdminRequest::Deprecate(s), m)) => {
            assert_eq!(s, "a");
            assert_eq!(m, "Deprecating key for server: a");
        }
        other => panic!("unexpected plan {:?}", other),
    }
    assert_eq!(st.current_operation, AdminOperation::DeprecatingKey);
    match st.plan_key_action(KeyAction::RestoreKey("b".to_string())) {
        Some((AdminRequest::Restore(s), m)) => assert_eq!((s.as_str(), m.as_str()), ("b", "Restoring key for server: b")),
        other => panic!("unexpected plan {:?}", other),
    }
    match st.plan_key_action(KeyAction::DeleteKey("c".to_string())) {
        Some((AdminRequest::Delete(s), m)) => assert_eq!((s.as_str(), m.as_str()), ("c", "Deleting key for server: c")),
        other => panic!("unexpected plan {:?}", other),
    }
    assert_eq!(st.current_operation, AdminOperation::DeletingKey);
    let (m, reload) = st.finish_request(Ok("done".to_string()));
    assert_eq!((m.as_str(), reload), ("✅ done", true));
    assert_eq!(st.current_operation, AdminOperation::Idle);
    let (m, reload) = st.finish_request(Err("nope".to_string()));
    assert_eq!((m.as_str(), reload), ("❌ Operation failed: nope", false));
}

#[test]
fn the_desktop_panel_plans_bulk_requests() {
    let mut st = AdminState::default();
    assert!(st.plan_bulk_action(BulkAction::DeprecateSelected).is_none());
    st.selected_servers.set("a", true);
    st.selected_servers.set("b", true);
    match st.plan_bulk_action(BulkAction::RestoreSelected) {
        Some((AdminRequest::BulkRestore(v), m)) => {
            let mut v = v;
            v.sort();
            assert_eq!(v, vec!["a".to_string(), "b".to_string()]);
            assert_eq!(m, "Restoring 2 servers...");
        }
        other => panic!("unexpected plan {:?}", other),
    }
    assert_eq!(st.current_operation, AdminOperation::BulkRestoring);
    match st.plan_bulk_action(BulkAction::DeprecateSelected) {
        Some((AdminRequest::BulkDeprecate(v), m)) => {
            assert_eq!(v.len(), 2);
            assert_eq!(m, "Deprecating 2 servers...");
        }
        other => panic!("unexpected plan {:?}", other),
    }
    assert!(st.plan_bulk_action(BulkAction::ClearSelection).is_none());
    assert!(st.plan_bulk_action(BulkAction::NoAction).is_none());
    st.clear_selection();
    assert!(st.get_selected_servers().is_empty());
}

#[test]
fn web_panel_defaults() {
    let s = AdminSettings::default();
    assert_eq!(s.refresh_interval, 30);
    assert!(!s.auto_refresh && s.server_url.is_empty());
    let app = WebAdminApp::default();
    assert_eq!(app.settings.server_url, "http://localhost:8080");
    assert_eq!(app.last_operation, "Application started");
    assert!(app.connection_status == ConnectionStatus::Disconnected);
    assert_eq!(app.admin_state.current_operation, "Ready");
    assert_ne!(ConnectionAction::NoAction, ConnectionAction::LoadKeys);
}

#[test]
fn connection_states_compare_by_kind() {
    assert!(ConnectionStatus::Error("a".to_string()) == ConnectionStatus::Error("b".to_string()));
    assert!(ConnectionStatus::Connected != ConnectionStatus::Connecting);
    assert!(ConnectionStatus::Disconnected != ConnectionStatus::Error("x".to_string()));
}

#[test]
fn the_web_panel_shows_progress() {
    let mut app = WebAdminApp::default();
    app.begin_test_connection();
    assert!(matches!(app.connection_status, ConnectionStatus::Connecting));
    assert_eq!(app.last_operation, "Testing connection...");
    app.begin_load_flows();
    assert_eq!(app.last_operation, "Loading flows...");
    app.begin_load_keys();
    assert_eq!(app.admin_state.current_operation, "Loading keys...");
    app.begin_load_version();
    assert_eq!(app.last_operation, "Loading server version...");
    app.begin_scan_dns();
    assert_eq!(app.last_operation, "Scanning DNS resolution...");
    app.begin_key_operation(KeyOperation::Restore, "srv");
    assert_eq!(app.last_operation, "Restoring key for srv...");
    assert!(app.begin_bulk(false).is_none());
    assert_eq!(app.last_operation, "Restoring key for srv...");
    app.admin_state.selected_servers.set("x", true);
    let v = app.begin_bulk(false).unwrap();
    assert_eq!(v, vec!["x".to_string()]);
    assert_eq!(app.last_operation, "Bulk deprecating 1 servers...");
    app.begin_bulk(true);
    assert_eq!(app.last_operation, "Bulk restoring 1 servers...");
}

#[test]
fn the_web_panel_applies_results() {
    let mut app = WebAdminApp::default();
    assert!(!app.handle_operation_result(WebOperation::LoadFlows(Ok(vec!["work".to_string(), "home".to_string()]))));
    assert_eq!(app.settings.selected_flow, "work");
    assert_eq!(app.last_operation, "Loaded 2 flows");
    app.handle_operation_result(WebOperation::LoadFlows(Ok(vec!["other".to_string()])));
    assert_eq!(app.settings.selected_flow, "work");
    app.handle_operation_result(WebOperation::LoadFlows(Err("down".to_string())));
    assert!(matches!(app.connection_status, ConnectionStatus::Error(ref e) if e == "down"));
    assert_eq!(app.last_operation, "Failed to load flows: down");

    app.admin_state.show_deprecated_only = true;
    assert!(!app.handle_operation_result(WebOperation::LoadKeys(Ok(sample()))));
    assert!(matches!(app.connection_status, ConnectionStatus::Connected));
    assert_eq!(app.last_operation, "Loaded 4 keys");
    assert_eq!(app.admin_state.filtered_keys.len(), 2);
    app.handle_operation_result(WebOperation::LoadKeys(Err("401".to_string())));
    assert_eq!(app.last_operation, "Failed to load keys: 401");

    app.handle_operation_result(WebOperation::TestConnection(Ok("fine".to_string())));
    assert_eq!(app.last_operation, "fine");
    app.handle_operation_result(WebOperation::TestConnection(Err("bad".to_string())));
    assert_eq!(app.last_operation, "Connection failed: bad");

    assert!(app.handle_operation_result(WebOperation::DeprecateKey("s".to_string(), Ok("ok".to_string()))));
    assert_eq!(app.last_operation, "ok");
    assert!(!app.handle_operation_result(WebOperation::DeprecateKey("s".to_string(), Err("e".to_string()))));
    assert_eq!(app.last_operation, "Failed to deprecate key for s: e");
    assert!(!app.handle_operation_result(WebOperation::RestoreKey("s".to_string(), Err("e".to_string()))));
    assert_eq!(app.last_operation, "Failed to restore key for s: e");
    assert!(!app.handle_operation_result(WebOperation::DeleteKey("s".to_string(), Err("e".to_string()))));
    assert_eq!(app.last_operation, "Failed to delete key for s: e");

    app.admin_state.selected_servers.set("s", true);
    assert!(!app.handle_operation_result(WebOperation::BulkRestore(Err("e".to_string()))));
    assert_eq!(app.last_operation, "Bulk operation failed: e");
    assert_eq!(app.admin_state.selected_servers.count(), 1);
    assert!(app.handle_operation_result(WebOperation::BulkDeprecate(Ok("all done".to_string()))));
    assert_eq!(app.admin_state.selected_servers.count(), 0);

    let results = vec![
        dns_result("a".to_string(), DnsLookupOutcome::Resolved),
        dns_result("b".to_string(), DnsLookupOutcome::TimedOut),
        dns_result("c".to_string(), DnsLookupOutcome::Resolved),
    ];
    app.handle_operation_result(WebOperation::ScanDns(Ok(results)));
    assert_eq!(app.last_operation, "DNS scan completed: 2/3 servers resolved");
    app.handle_operation_result(WebOperation::ScanDns(Err("x".to_string())));
    assert_eq!(app.last_operation, "DNS scan failed: x");

    app.handle_operation_result(WebOperation::LoadVersion(Ok("1.0".to_string())));
    assert_eq!(app.server_version.as_deref(), Some("1.0"));
    assert_eq!(app.last_operation, "Server version: 1.0");
    app.handle_operation_result(WebOperation::LoadVersion(Err("no".to_string())));
    assert_eq!(app.server_version.as_deref(), Some("1.0"));
    assert_eq!(app.last_operation, "Failed to get server version: no");
}

#[test]
fn browser_switches_pick_the_status() {
    let keys = vec![
        key("alpha", "ssh-rsa AAAA1", false),
        key("beta", "ssh-rsa AAAA2", true),
        key("Alphabet", "ssh-ed25519 AAAA3", true),
    ];
    let all = filter_keys_by_switches(&keys, false, false, "");
    assert_eq!(all.len(), 3);
    let retired = filter_keys_by_switches(&keys, true, true, "");
    assert_eq!(retired.iter().map(|k| k.server.as_str()).collect::<Vec<_>>(), vec!["beta", "Alphabet"]);
    let active = filter_keys_by_switches(&keys, false, true, "");
    assert_eq!(active.iter().map(|k| k.server.as_str()).collect::<Vec<_>>(), vec!["alpha"]);
    let searched = filter_keys_by_switches(&keys, true, false, "ALPHA");
    assert_eq!(searched.iter().map(|k| k.server.as_str()).collect::<Vec<_>>(), vec!["Alphabet"]);
}

#[test]
fn a_refused_load_leaves_the_panel_alone() {
    let mut st = AdminState::default();
    st.search_term = "web".to_string();
    st.show_deprecated_only = true;
    st.keys = sample();
    assert!(!st.begin_loading(&KhmSettings::default()));
    assert_eq!(st.search_term, "web");
    assert!(st.show_deprecated_only);
    assert_eq!(st.keys.len(), 4);
    assert!(st.last_load_time.is_none());
    assert_eq!(st.current_operation, AdminOperation::Idle);
}
