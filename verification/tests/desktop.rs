use khm::activity::{add_log_entry, add_log_entry_at, recent_activity_text};
use khm::args::{cli_mode, client_args_for, desktop_mode, program_mode, Args, CliArgs, DesktopArgs, RunMode};
use khm::settings::{
    complete_loaded_settings, default_known_hosts_path, expand_path, expand_path_with, join_path,
    save_settings_validated, synced_key_count, KhmSettings,
};
use khm::tray::{
    icon_rgba, auto_sync_menu_label, create_tooltip, flow_menu_label, host_menu_label,
    seconds_until_next_sync, update_sync_status, SyncStatus,
};

fn configured() -> KhmSettings {
    KhmSettings {
        host: "https://khm.example.com".to_string(),
        flow: "work".to_string(),
        known_hosts: "~/.ssh/known_hosts".to_string(),
        basic_auth: "u:p".to_string(),
        in_place: true,
        auto_sync_interval_minutes: 15,
    }
}

#[test]
fn default_settings() {
    let s = KhmSettings::default();
    assert_eq!(s.host, "");
    assert_eq!(s.flow, "");
    assert_eq!(s.known_hosts, "~/.ssh/known_hosts");
    assert_eq!(s.basic_auth, "");
    assert!(s.in_place);
    assert_eq!(s.auto_sync_interval_minutes, 60);
    assert_eq!(default_known_hosts_path(), "~/.ssh/known_hosts");
}

#[test]
fn loading_fills_in_the_known_hosts_path() {
    let mut stored = configured();
    stored.known_hosts = String::new();
    let s = complete_loaded_settings(Some(stored));
    assert_eq!(s.known_hosts, "~/.ssh/known_hosts");
    assert_eq!(s.host, "https://khm.example.com");
    assert_eq!(s.auto_sync_interval_minutes, 15);
    let mut stored = configured();
    stored.known_hosts = "/etc/ssh/ssh_known_hosts".to_string();
    assert_eq!(complete_loaded_settings(Some(stored)).known_hosts, "/etc/ssh/ssh_known_hosts");
    let s = complete_loaded_settings(None);
    assert_eq!(s.known_hosts, "~/.ssh/known_hosts");
    assert_eq!(s.auto_sync_interval_minutes, 60);
}

#[test]
fn auto_sync_needs_a_target_and_in_place_updates() {
    let mut s = configured();
    assert!(s.is_configured());
    assert!(s.is_auto_sync_enabled());
    s.in_place = false;
    assert!(!s.is_auto_sync_enabled());
    s.in_place = true;
    s.flow.clear();
    assert!(!s.is_configured());
    assert!(!s.is_auto_sync_enabled());
}

#[test]
fn takes_only_positive_whole_intervals() {
    let mut s = configured();
    s.apply_interval_text("30");
    assert_eq!(s.auto_sync_interval_minutes, 30);
    s.apply_interval_text("0");
    assert_eq!(s.auto_sync_interval_minutes, 30);
    s.apply_interval_text("-5");
    assert_eq!(s.auto_sync_interval_minutes, 30);
    s.apply_interval_text("ten");
    assert_eq!(s.auto_sync_interval_minutes, 30);
    s.apply_interval_text("+45");
    assert_eq!(s.auto_sync_interval_minutes, 45);
    s.apply_interval_text("99999999999");
    assert_eq!(s.auto_sync_interval_minutes, 45);
}

#[test]
fn saving_requires_a_host_and_a_flow() {
    let mut calls = 0;
    let mut s = configured();
    s.host.clear();
    let r = save_settings_validated(&s, |_| {
        calls += 1;
        Ok(())
    });
    assert_eq!(r, Err("Host URL and Flow Name are required".to_string()));
    assert_eq!(calls, 0);
    let s = configured();
    assert_eq!(save_settings_validated(&s, |_| Ok(())), Ok(()));
    let r = save_settings_validated(&s, |_| Err("disk full".to_string()));
    assert_eq!(r, Err("Failed to save settings: disk full".to_string()));
}

#[test]
fn joins_paths_as_unix_does() {
    assert_eq!(join_path("/home/u", ".ssh/known_hosts"), "/home/u/.ssh/known_hosts");
    assert_eq!(join_path("/home/u/", "x"), "/home/u/x");
    assert_eq!(join_path("/home/u", "/etc/hosts"), "/etc/hosts");
    assert_eq!(join_path("", "x"), "x");
}

#[test]
fn expands_a_leading_tilde() {
    assert_eq!(expand_path_with("~/.ssh/known_hosts", Some("/home/u")), "/home/u/.ssh/known_hosts");
    assert_eq!(expand_path_with("~/.ssh/known_hosts", None), "~/.ssh/known_hosts");
    assert_eq!(expand_path_with("/abs/path", Some("/home/u")), "/abs/path");
    assert_eq!(expand_path_with("~user/x", Some("/home/u")), "~user/x");
    assert_eq!(expand_path("/etc/ssh/known_hosts"), "/etc/ssh/known_hosts");
    let e = expand_path("~/x");
    assert!(e == "~/x" || e.ends_with("/x"));
    assert!(!e.starts_with("~/") || e == "~/x");
}

#[test]
fn sync_options_come_from_the_settings() {
    let s = configured();
    let a = client_args_for(&s);
    assert!(!a.server && !a.daemon && !a.settings_ui);
    assert!(a.in_place);
    assert_eq!(a.host.as_deref(), Some("https://khm.example.com"));
    assert_eq!(a.flow.as_deref(), Some("work"));
    assert_eq!(a.basic_auth, "u:p");
    assert_eq!(a.flows, vec!["default".to_string()]);
    assert_eq!((a.ip.as_str(), a.port), ("127.0.0.1", 8080));
    assert_eq!((a.db_host.as_str(), a.db_name.as_str()), ("127.0.0.1", "khm"));
    assert!(a.db_user.is_none() && a.db_password.is_none());
    assert!(!a.known_hosts.starts_with("~/") || a.known_hosts == "~/.ssh/known_hosts");
}

fn cli(server: bool, host: Option<&str>, flow: Option<&str>) -> CliArgs {
    CliArgs {
        server,
        in_place: false,
        flows: vec!["default".to_string()],
        ip: "127.0.0.1".to_string(),
        port: 8080,
        db_host: "127.0.0.1".to_string(),
        db_name: "khm".to_string(),
        db_user: None,
        db_password: None,
        host: host.map(|h| h.to_string()),
        flow: flow.map(|f| f.to_string()),
        known_hosts: "~/.ssh/known_hosts".to_string(),
        basic_auth: String::new(),
    }
}

#[test]
fn command_line_options_carry_over() {
    let a: Args = cli(true, Some("h"), None).into();
    assert!(a.server && !a.daemon && !a.settings_ui);
    assert_eq!(a.host.as_deref(), Some("h"));
    assert_eq!(a.known_hosts, "~/.ssh/known_hosts");
    let d = DesktopArgs { daemon: true, settings_ui: false }.into_args();
    assert!(d.daemon && !d.settings_ui && !d.server && !d.in_place);
    assert!(d.host.is_none() && d.flow.is_none());
    assert_eq!(d.flows, vec!["default".to_string()]);
}

#[test]
fn chooses_what_a_run_does() {
    let server: Args = cli(true, None, None).into();
    let client: Args = cli(false, Some("h"), Some("f")).into();
    let neither: Args = cli(false, Some("h"), None).into();
    assert_eq!(cli_mode(&server), Some(RunMode::Server));
    assert_eq!(cli_mode(&client), Some(RunMode::Client));
    assert_eq!(cli_mode(&neither), None);
    assert_eq!(program_mode(true, true, &neither), Some(RunMode::SettingsWindow));
    assert_eq!(program_mode(false, true, &neither), Some(RunMode::Gui));
    assert_eq!(program_mode(false, false, &server), Some(RunMode::Server));
    assert_eq!(program_mode(false, false, &neither), None);
    let d = DesktopArgs { daemon: false, settings_ui: true }.into_args();
    assert_eq!(desktop_mode(&d), RunMode::SettingsWindow);
    let d = DesktopArgs { daemon: false, settings_ui: false }.into_args();
    assert_eq!(desktop_mode(&d), RunMode::Gui);
}

#[test]
fn stamps_log_entries_with_the_time_of_day() {
    let mut log = Vec::new();
    add_log_entry_at(&mut log, 3_600 * 25 + 62, 7, "hello".to_string());
    assert_eq!(log, vec!["01:01:02.007 hello".to_string()]);
    add_log_entry(&mut log, "now".to_string());
    assert_eq!(log.len(), 2);
    let last = &log[1];
    assert_eq!(last.len(), "HH:MM:SS.mmm now".len());
    assert_eq!(&last[2..3], ":");
    assert_eq!(&last[8..9], ".");
    assert!(last.ends_with(" now"));
}

#[test]
fn the_log_keeps_the_latest_twenty_entries() {
    let mut log = Vec::new();
    for i in 0..25u64 {
        add_log_entry_at(&mut log, i, 0, format!("m{}", i));
        assert!(log.len() <= 20);
    }
    assert_eq!(log.len(), 20);
    assert_eq!(log[0], "00:00:05.000 m5");
    assert_eq!(log[19], "00:00:24.000 m24");
}

#[test]
fn shows_the_latest_five_entries() {
    assert_eq!(recent_activity_text(&Vec::new()), "No recent activity");
    let log: Vec<String> = (1..=3).map(|i| format!("e{}", i)).collect();
    assert_eq!(recent_activity_text(&log), "e1\ne2\ne3");
    let log: Vec<String> = (1..=7).map(|i| format!("e{}", i)).collect();
    assert_eq!(recent_activity_text(&log), "e3\ne4\ne5\ne6\ne7");
}

#[test]
fn counts_down_to_the_next_sync() {
    assert_eq!(seconds_until_next_sync(15, 0), 900);
    assert_eq!(seconds_until_next_sync(15, 100), 800);
    assert_eq!(seconds_until_next_sync(15, 900), 0);
    assert_eq!(seconds_until_next_sync(15, 5000), 0);
    let s = configured();
    let mut st = SyncStatus::default();
    update_sync_status(&s, &mut st);
    assert_eq!(st.next_sync_in_seconds, None);
    st.record_sync(12);
    assert_eq!(st.last_sync_keys, Some(12));
    update_sync_status(&s, &mut st);
    let n = st.next_sync_in_seconds.unwrap();
    assert!(n <= 900 && n >= 890);
    let mut off = configured();
    off.in_place = false;
    let mut st2 = SyncStatus { last_sync_time: None, last_sync_keys: None, next_sync_in_seconds: Some(5) };
    update_sync_status(&off, &mut st2);
    assert_eq!(st2.next_sync_in_seconds, Some(5));
}

#[test]
fn writes_the_tray_tooltip() {
    let s = configured();
    let st = SyncStatus::default();
    assert_eq!(
        create_tooltip(&s, &st),
        "KHM - SSH Key Manager\nHost: https://khm.example.com\nFlow: work\nLast sync: Never"
    );
    let st = SyncStatus { last_sync_time: None, last_sync_keys: Some(9), next_sync_in_seconds: Some(125) };
    assert_eq!(
        create_tooltip(&s, &st),
        "KHM - SSH Key Manager\nHost: https://khm.example.com\nFlow: work\nLast sync: 9 keys\nNext sync: 2m 5s"
    );
    let st = SyncStatus { last_sync_time: None, last_sync_keys: Some(0), next_sync_in_seconds: Some(60) };
    assert!(create_tooltip(&s, &st).ends_with("\nLast sync: 0 keys\nNext sync: 60s"));
}

#[test]
fn labels_the_tray_menu() {
    let s = configured();
    assert_eq!(host_menu_label(&s), "Host: https://khm.example.com");
    assert_eq!(flow_menu_label(&s), "Flow: work");
    assert_eq!(auto_sync_menu_label(&s), "Auto sync: On (15min)");
    let d = KhmSettings::default();
    assert_eq!(host_menu_label(&d), "Host: Not configured");
    assert_eq!(flow_menu_label(&d), "Flow: Not configured");
    assert_eq!(auto_sync_menu_label(&d), "Auto sync: Off (60min)");
}

#[test]
fn draws_a_blue_icon_with_a_white_border() {
    let icon = icon_rgba();
    assert_eq!(icon.len(), 32 * 32 * 4);
    let pixel = |x: usize, y: usize| &icon[(y * 32 + x) * 4..(y * 32 + x) * 4 + 4];
    assert_eq!(pixel(0, 0), &[255, 255, 255, 255]);
    assert_eq!(pixel(1, 15), &[255, 255, 255, 255]);
    assert_eq!(pixel(31, 31), &[255, 255, 255, 255]);
    assert_eq!(pixel(15, 30), &[255, 255, 255, 255]);
    assert_eq!(pixel(2, 2), &[64, 128, 255, 255]);
    assert_eq!(pixel(29, 29), &[64, 128, 255, 255]);
}

#[test]
fn a_sync_reports_the_keys_of_the_rewritten_file() {
    assert_eq!(synced_key_count(true, 3, 8), 8);
    assert_eq!(synced_key_count(false, 3, 8), 3);
}
