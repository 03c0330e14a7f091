use khm::db::{schema_after_column_check, schema_after_table_check, tables_check_query, SchemaStep};
use khm::db::{KeyPurge, PurgeAction, PurgeStage};
use khm::web::wasm_content_type;
use khm::db::{
    finish_key_batch, flow_link_insert, flow_link_lookup, key_insert_request, key_lookup_request,
    deletion_count, empty_insert_stats, flow_insert_query, flow_lookup_query, group_rows_into_flows,
    insert_stats, is_connection_error, key_insert_query, key_lookup_query, key_params,
    match_inserted, new_flow_key_ids, orphaned_key_ids, partition_keys, stats_key_ids, FlowKeyRow,
    InsertedKeyRow, StoredKeyRow,
};
use khm::keys::{Flow, SshKey};
use khm::server::{
    active_keys, add_keys_after_associate, add_keys_after_store, add_keys_begin, add_keys_finish,
    client_hostname, connection_string, ensure_allowed_flows, find_flow, include_deprecated_flag,
    select_flow_keys, AddKeysReply, AddKeysStep, FlowRequestError,
};
use khm::web::{
    bulk_failure, bulk_message, content_type_for, content_type_for_extension, count_retired,
    dns_result, flow_names, flow_summaries, hosts_to_scan, key_operation_failure,
    key_operation_reply, refresh_failure, unique_hostnames, unresolved_count, DnsLookupOutcome,
    KeyOperation,
};

const RSA: &str = "ssh-rsa AAAAB3NzaC1yc2EAAAADAQABAAABAQC7";
const ED: &str = "ssh-ed25519 AAAAC3NzaC1lZDI1NTE5AAAAIOMq";

fn key(server: &str, public_key: &str, deprecated: bool) -> SshKey {
    SshKey { server: server.to_string(), public_key: public_key.to_string(), deprecated }
}

fn names(v: &[&str]) -> Vec<String> {
    v.iter().map(|s| s.to_string()).collect()
}

fn flow(name: &str, servers: Vec<SshKey>) -> Flow {
    Flow { name: name.to_string(), servers }
}

#[test]
fn writes_batch_statements() {
    assert_eq!(
        key_lookup_query(2),
        "SELECT host, key, key_id, deprecated FROM public.keys WHERE (host = $1 AND key = $2) OR (host = $3 AND key = $4)"
    );
    assert_eq!(
        key_insert_query(2),
        "INSERT INTO public.keys (host, key, updated) VALUES ($1, $2, NOW()), ($3, $4, NOW()) RETURNING key_id, host, key"
    );
    assert_eq!(
        flow_lookup_query(3),
        "SELECT key_id FROM public.flows WHERE name = $1 AND key_id IN ($2, $3, $4)"
    );
    assert_eq!(
        flow_insert_query(2),
        "INSERT INTO public.flows (name, key_id) VALUES ($1, $2), ($1, $3) ON CONFLICT (name, key_id) DO NOTHING"
    );
}

#[test]
fn binds_host_and_key_of_each_key() {
    let keys = vec![key("a", "k1", false), key("b", "k2", false)];
    assert_eq!(key_params(&keys), names(&["a", "k1", "b", "k2"]));
}

#[test]
fn divides_a_batch_into_new_unchanged_and_retired_keys() {
    let keys = vec![key("a", "k1", false), key("b", "k2", false), key("c", "k3", false)];
    let rows = vec![
        StoredKeyRow { host: "a".to_string(), key: "k1".to_string(), key_id: 10, deprecated: false },
        StoredKeyRow { host: "b".to_string(), key: "k2".to_string(), key_id: 11, deprecated: true },
    ];
    let p = partition_keys(&keys, &rows);
    assert_eq!(p.to_insert, vec![key("c", "k3", false)]);
    assert_eq!(p.unchanged, vec![(key("a", "k1", false), 10)]);
    assert_eq!(p.ignored_deprecated, 1);
    assert_eq!(p.to_insert.len() + p.unchanged.len() + p.ignored_deprecated, keys.len());
}

#[test]
fn pairs_inserted_rows_with_their_keys() {
    let keys = vec![key("a", "k1", false), key("b", "k2", false)];
    let rows = vec![
        InsertedKeyRow { key_id: 7, host: "b".to_string(), key: "k2".to_string() },
        InsertedKeyRow { key_id: 8, host: "zz".to_string(), key: "k9".to_string() },
        InsertedKeyRow { key_id: 9, host: "a".to_string(), key: "k1".to_string() },
    ];
    let m = match_inserted(&keys, &rows);
    assert_eq!(m, vec![(key("b", "k2", false), 7), (key("a", "k1", false), 9)]);
}

#[test]
fn batch_statistics_list_unchanged_keys_first() {
    let stats = insert_stats(
        3,
        vec![(key("a", "k1", false), 1)],
        vec![(key("b", "k2", false), 2), (key("c", "k3", false), 3)],
    );
    assert_eq!(stats.total, 3);
    assert_eq!(stats.inserted, 2);
    assert_eq!(stats.unchanged, 1);
    assert_eq!(stats_key_ids(&stats), vec![1, 2, 3]);
    let empty = empty_insert_stats();
    assert_eq!(empty.total, 0);
    assert!(stats_key_ids(&empty).is_empty());
}

#[test]
fn keeps_only_ids_not_yet_in_the_flow() {
    assert_eq!(new_flow_key_ids(&vec![1, 2, 3, 4], &vec![2, 4]), vec![1, 3]);
    assert_eq!(orphaned_key_ids(&vec![5, 6, 7], &vec![0, 2, 0]), vec![5, 7]);
    assert_eq!(deletion_count(3, 1), 3);
    assert_eq!(deletion_count(0, 2), 2);
}

#[test]
fn groups_joined_rows_into_flows() {
    let row = |h: &str, k: &str, d: bool, f: &str| FlowKeyRow {
        host: h.to_string(),
        key: k.to_string(),
        deprecated: d,
        flow: f.to_string(),
    };
    let rows = vec![row("a", "k1", false, "work"), row("b", "k2", true, "home"), row("c", "k3", false, "work")];
    let flows = group_rows_into_flows(&rows);
    assert_eq!(flows.len(), 2);
    assert_eq!(flows[0].name, "work");
    assert_eq!(flows[0].servers, vec![key("a", "k1", false), key("c", "k3", false)]);
    assert_eq!(flows[1].name, "home");
    assert_eq!(flows[1].servers, vec![key("b", "k2", true)]);
    let total: usize = flows.iter().map(|f| f.servers.len()).sum();
    assert_eq!(total, rows.len());
    assert_ne!(flows[0].name, flows[1].name);
}

#[test]
fn recognises_lost_connections() {
    assert!(is_connection_error("connection closed by peer", true));
    assert!(is_connection_error("Connection refused (os error 111)", true));
    assert!(is_connection_error("anything", false));
    assert!(!is_connection_error("duplicate key value", true));
}

#[test]
fn answers_key_requests_for_managed_flows_only() {
    let flows = vec![flow("work", vec![key("a", RSA, false), key("b", ED, true)])];
    let allowed = names(&["work", "home"]);
    let visible = select_flow_keys(&flows, &allowed, "work", false).unwrap();
    assert_eq!(visible, vec![key("a", RSA, false)]);
    let all = select_flow_keys(&flows, &allowed, "work", true).unwrap();
    assert_eq!(all.len(), 2);
    assert_eq!(select_flow_keys(&flows, &allowed, "other", false).unwrap_err(), FlowRequestError::NotAllowed);
    assert_eq!(select_flow_keys(&flows, &allowed, "home", false).unwrap_err(), FlowRequestError::NotFound);
    assert_eq!(FlowRequestError::NotAllowed.message(), "Flow ID not allowed");
    assert_eq!(FlowRequestError::NotFound.message(), "Flow ID not found");
    assert_eq!(find_flow(&flows, "work"), Some(0));
    assert_eq!(active_keys(&flows[0].servers), vec![key("a", RSA, false)]);
}

#[test]
fn reads_request_details() {
    assert!(include_deprecated_flag(Some("true")));
    assert!(!include_deprecated_flag(Some("TRUE")));
    assert!(!include_deprecated_flag(None));
    assert_eq!(client_hostname(Some("box")), "box");
    assert_eq!(client_hostname(None), "unknown-client");
}

#[test]
fn a_key_submission_runs_its_steps() {
    let allowed = names(&["work"]);
    let keys = vec![key("a", RSA, false)];
    assert!(matches!(
        add_keys_begin(&allowed, "nope", &keys),
        AddKeysStep::Reply(AddKeysReply::Forbidden)
    ));
    let bad = vec![key("a", RSA, false), key("b", "garbage", false)];
    match add_keys_begin(&allowed, "work", &bad) {
        AddKeysStep::Reply(r) => {
            assert_eq!(r.status(), 400);
            assert_eq!(r.message(), "Invalid SSH key format for server: b");
        }
        other => panic!("unexpected step {:?}", other),
    }
    match add_keys_begin(&allowed, "work", &keys) {
        AddKeysStep::StoreKeys(v) => assert_eq!(v, keys),
        other => panic!("unexpected step {:?}", other),
    }
    let stats = insert_stats(1, Vec::new(), vec![(key("a", RSA, false), 5)]);
    match add_keys_after_store(&Ok(stats)) {
        AddKeysStep::AssociateKeys(ids) => assert_eq!(ids, vec![5]),
        other => panic!("unexpected step {:?}", other),
    }
    assert!(matches!(add_keys_after_store(&Ok(empty_insert_stats())), AddKeysStep::ReloadFlows));
    match add_keys_after_store(&Err("db down".to_string())) {
        AddKeysStep::Reply(r) => {
            assert_eq!(r.status(), 500);
            assert_eq!(r.message(), "Failed to batch insert keys into database");
        }
        other => panic!("unexpected step {:?}", other),
    }
    assert!(matches!(add_keys_after_associate(&Ok(1)), AddKeysStep::ReloadFlows));
    assert!(matches!(
        add_keys_after_associate(&Err("x".to_string())),
        AddKeysStep::Reply(AddKeysReply::AssociateFailed)
    ));
    let stats = insert_stats(1, Vec::new(), vec![(key("a", RSA, false), 5)]);
    let reloaded = Ok(vec![flow("work", vec![key("a", RSA, false)])]);
    match add_keys_finish(&reloaded, "work", &stats) {
        AddKeysReply::Accepted { keys: k, total, inserted, unchanged } => {
            assert_eq!(k, keys);
            assert_eq!((total, inserted, unchanged), (1, 1, 0));
        }
        other => panic!("unexpected reply {:?}", other),
    }
    let r = add_keys_finish(&Ok(Vec::new()), "work", &stats);
    assert_eq!(r.status(), 404);
    assert_eq!(r.message(), "Flow ID not found");
    let r = add_keys_finish(&Err("x".to_string()), "work", &stats);
    assert_eq!(r.message(), "Failed to refresh flows from database");
}

#[test]
fn every_allowed_flow_exists_after_start_up() {
    let stored = vec![flow("home", vec![key("a", RSA, false)])];
    let flows = ensure_allowed_flows(stored, &names(&["work", "home", "work"]));
    let got: Vec<&str> = flows.iter().map(|f| f.name.as_str()).collect();
    assert_eq!(got, vec!["home", "work"]);
    assert_eq!(flows[0].servers.len(), 1);
    assert!(flows[1].servers.is_empty());
}

#[test]
fn writes_the_database_connection_string() {
    assert_eq!(
        connection_string("db.local", "admin", "pw", "khm"),
        "host=db.local user=admin password=pw dbname=khm"
    );
}

#[test]
fn reports_dns_lookups() {
    let r = dns_result("a".to_string(), DnsLookupOutcome::Resolved);
    assert!(r.resolved && r.error.is_none());
    let r = dns_result("b".to_string(), DnsLookupOutcome::TimedOut);
    assert_eq!(r.error.as_deref(), Some("DNS lookup timeout (5s)"));
    let r = dns_result("c".to_string(), DnsLookupOutcome::NoPermit);
    assert_eq!(r.error.as_deref(), Some("Failed to acquire semaphore"));
    let r = dns_result("d".to_string(), DnsLookupOutcome::Failed("nx".to_string()));
    assert!(!r.resolved);
    assert_eq!(r.error.as_deref(), Some("nx"));
    let all = vec![
        dns_result("a".to_string(), DnsLookupOutcome::Resolved),
        dns_result("b".to_string(), DnsLookupOutcome::TimedOut),
    ];
    assert_eq!(unresolved_count(&all), 1);
}

#[test]
fn scans_each_host_of_a_flow_once() {
    let flows = vec![flow("work", vec![key("a", RSA, false), key("b", ED, false), key("a", ED, true)])];
    let allowed = names(&["work", "home"]);
    assert_eq!(hosts_to_scan(&flows, &allowed, "work").unwrap(), names(&["a", "b"]));
    assert_eq!(hosts_to_scan(&flows, &allowed, "x").unwrap_err(), FlowRequestError::NotAllowed);
    assert_eq!(hosts_to_scan(&flows, &allowed, "home").unwrap_err(), FlowRequestError::NotFound);
    assert_eq!(unique_hostnames(&flows[0].servers), names(&["a", "b"]));
}

#[test]
fn answers_key_operations() {
    let r = key_operation_reply(KeyOperation::Deprecate, "a", 2);
    assert_eq!((r.status, r.text.as_str(), r.count), (200, "Successfully deprecated 2 key(s) for server 'a'", 2));
    let r = key_operation_reply(KeyOperation::Restore, "a", 0);
    assert_eq!((r.status, r.text.as_str()), (404, "No deprecated keys found for server 'a'"));
    let r = key_operation_reply(KeyOperation::Delete, "a", 0);
    assert_eq!(r.text, "No keys found for server 'a'");
    let r = key_operation_failure(KeyOperation::Delete, "boom");
    assert_eq!((r.status, r.text.as_str()), (500, "Failed to delete key: boom"));
    assert_eq!(refresh_failure("x").text, "Failed to refresh flows: x");
    assert_eq!(bulk_message(false, 3, 2), "Successfully deprecated 3 key(s) for 2 server(s)");
    assert_eq!(bulk_message(true, 1, 1), "Successfully restored 1 key(s) for 1 server(s)");
    assert_eq!(bulk_failure(true, "e"), "Failed to bulk restore keys: e");
}

#[test]
fn summarises_flows() {
    let flows = vec![flow("work", vec![key("a", RSA, false), key("b", ED, true)]), flow("home", Vec::new())];
    let s = flow_summaries(&flows);
    assert_eq!((s[0].name.as_str(), s[0].servers_count, s[0].active_keys, s[0].deprecated_keys), ("work", 2, 1, 1));
    assert_eq!(s[1].servers_count, 0);
    assert_eq!(flow_names(&flows), names(&["work", "home"]));
    assert_eq!(count_retired(&flows[0].servers), 1);
}

#[test]
fn chooses_content_types_by_extension() {
    assert_eq!(content_type_for("static/index.html"), "text/html; charset=utf-8");
    assert_eq!(content_type_for("app.js"), "application/javascript; charset=utf-8");
    assert_eq!(content_type_for("a/b/photo.jpeg"), "image/jpeg");
    assert_eq!(content_type_for("logo.svg"), "image/svg+xml");
    assert_eq!(content_type_for("README"), "application/octet-stream");
    assert_eq!(content_type_for(".hidden"), "application/octet-stream");
    assert_eq!(content_type_for_extension(Some("css")), "text/css; charset=utf-8");
    assert_eq!(content_type_for_extension(None), "application/octet-stream");
}

#[test]
fn a_batch_runs_lookup_insertion_and_statistics() {
    assert!(key_lookup_request(&Vec::new()).is_none());
    let keys = vec![key("a", "k1", false), key("b", "k2", false)];
    let (sql, params) = key_lookup_request(&keys).unwrap();
    assert_eq!(sql, key_lookup_query(2));
    assert_eq!(params, names(&["a", "k1", "b", "k2"]));
    let rows = vec![StoredKeyRow { host: "a".to_string(), key: "k1".to_string(), key_id: 1, deprecated: false }];
    let p = partition_keys(&keys, &rows);
    let (sql, params) = key_insert_request(&p).unwrap();
    assert_eq!(sql, "INSERT INTO public.keys (host, key, updated) VALUES ($1, $2, NOW()) RETURNING key_id, host, key");
    assert_eq!(params, names(&["b", "k2"]));
    let inserted = vec![InsertedKeyRow { key_id: 2, host: "b".to_string(), key: "k2".to_string() }];
    let stats = finish_key_batch(2, p, &inserted);
    assert_eq!((stats.total, stats.inserted, stats.unchanged), (2, 1, 1));
    assert_eq!(stats.key_id_map, vec![(key("a", "k1", false), 1), (key("b", "k2", false), 2)]);
    let all_known = partition_keys(&vec![key("a", "k1", false)], &rows);
    assert!(key_insert_request(&all_known).is_none());
}

#[test]
fn a_flow_association_skips_known_ids() {
    assert!(flow_link_lookup(&Vec::new()).is_none());
    assert_eq!(flow_link_lookup(&vec![4, 5]).unwrap(), "SELECT key_id FROM public.flows WHERE name = $1 AND key_id IN ($2, $3)");
    let (sql, fresh) = flow_link_insert(&vec![4, 5, 6], &vec![5]).unwrap();
    assert_eq!(fresh, vec![4, 6]);
    assert_eq!(sql, "INSERT INTO public.flows (name, key_id) VALUES ($1, $2), ($1, $3) ON CONFLICT (name, key_id) DO NOTHING");
    assert!(flow_link_insert(&vec![4], &vec![4]).is_none());
}

#[test]
fn serves_browser_build_files_with_their_types() {
    assert_eq!(wasm_content_type("khm_wasm.js"), "application/javascript; charset=utf-8");
    assert_eq!(wasm_content_type("khm_wasm_bg.wasm"), "application/wasm");
    assert_eq!(wasm_content_type("notes.txt"), "application/octet-stream");
    assert_eq!(wasm_content_type("js"), "application/octet-stream");
}

#[test]
fn prepares_the_store_in_steps() {
    assert!(tables_check_query().starts_with("SELECT EXISTS (SELECT FROM information_schema.tables"));
    match schema_after_table_check(false) {
        SchemaStep::Execute(v) => {
            assert_eq!(v.len(), 3);
            assert!(v[0].starts_with("CREATE TABLE IF NOT EXISTS public.keys"));
            assert!(v[1].starts_with("CREATE TABLE IF NOT EXISTS public.flows"));
            assert_eq!(v[2], "CREATE INDEX IF NOT EXISTS idx_flows_name ON public.flows(name)");
        }
        other => panic!("unexpected step {:?}", other),
    }
    match schema_after_table_check(true) {
        SchemaStep::CheckColumn(q) => assert!(q.contains("column_name = 'deprecated'")),
        other => panic!("unexpected step {:?}", other),
    }
    match schema_after_column_check(false) {
        SchemaStep::Execute(v) => {
            assert_eq!(v, vec!["ALTER TABLE public.keys ADD COLUMN deprecated BOOLEAN NOT NULL DEFAULT FALSE".to_string()])
        }
        other => panic!("unexpected step {:?}", other),
    }
    assert!(matches!(schema_after_column_check(true), SchemaStep::Ready));
}

#[test]
fn purge_without_keys_answers_zero() {
    let p = KeyPurge::new(vec![]);
    assert_eq!(p.stage, PurgeStage::Finished);
    assert_eq!(p.next_action(), PurgeAction::Done(0));
}

#[test]
fn purge_unlinks_counts_and_deletes_orphans() {
    let mut p = KeyPurge::new(vec![5, 6, 7]);
    assert_eq!(p.next_action(), PurgeAction::Unlink(5));
    assert!(p.record_rows(1));
    assert_eq!(p.next_action(), PurgeAction::Unlink(6));
    assert!(p.record_rows(1));
    assert_eq!(p.next_action(), PurgeAction::Unlink(7));
    assert!(p.record_rows(1));
    assert_eq!(p.next_action(), PurgeAction::CountReferences(5));
    p.record_references(0);
    assert_eq!(p.next_action(), PurgeAction::CountReferences(6));
    p.record_references(2);
    assert_eq!(p.next_action(), PurgeAction::CountReferences(7));
    p.record_references(0);
    assert_eq!(p.next_action(), PurgeAction::DeleteKey(5));
    assert!(p.record_rows(1));
    assert_eq!(p.next_action(), PurgeAction::DeleteKey(7));
    assert!(p.record_rows(1));
    assert_eq!(p.next_action(), PurgeAction::Done(3));
}

#[test]
fn purge_with_shared_keys_deletes_none() {
    let mut p = KeyPurge::new(vec![9]);
    assert!(p.record_rows(1));
    p.record_references(1);
    assert_eq!(p.stage, PurgeStage::Finished);
    assert_eq!(p.next_action(), PurgeAction::Done(1));
}

#[test]
fn purge_refuses_overflowing_count() {
    let mut p = KeyPurge::new(vec![1, 2]);
    assert!(p.record_rows(u64::MAX));
    assert!(!p.record_rows(1));
    assert_eq!(p.position, 1);
    assert_eq!(p.unlinked, u64::MAX);
}
