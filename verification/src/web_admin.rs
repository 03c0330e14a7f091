//! The web administration panel: its settings, its connection state, the state of
//! its key list, what it shows while a request runs, and how the result of each
//! request updates it.
use vstd::prelude::*;
use vstd::std_specs::cmp::PartialEqSpecImpl;
use crate::admin::{
    filter_key_list, filtered_spec, key_statistics, statistics_spec, AdminStatistics, ServerFlags,
    StatusFilter,
};
use crate::keys::{key_preview, keys_view, preview_spec, strings_view, SshKey};
use crate::text::{append_str, decimal, owned, push_decimal};
use crate::web::{unresolved_count, unresolved_spec, DnsResolutionResult, KeyOperation};

verus! {

/// The connection settings of the web panel.
#[derive(Debug)]
pub struct AdminSettings {
    pub server_url: String,
    pub basic_auth: String,
    pub selected_flow: String,
    pub auto_refresh: bool,
    pub refresh_interval: u32,
}

impl Default for AdminSettings {
    /// No server, no credentials, no flow, no automatic refresh, a thirty-second
    /// refresh interval.
    fn default() -> (r: Self)
        ensures
            r.server_url@.len() == 0,
            r.basic_auth@.len() == 0,
            r.selected_flow@.len() == 0,
            !r.auto_refresh,
            r.refresh_interval == 30,
    {
        AdminSettings {
            server_url: String::new(),
            basic_auth: String::new(),
            selected_flow: String::new(),
            auto_refresh: false,
            refresh_interval: 30,
        }
    }
}

/// The state of the connection to the server.
#[derive(Debug, Clone)]
pub enum ConnectionStatus {
    Disconnected,
    Connecting,
    Connected,
    Error(String),
}

/// Two states are of the same kind (errors compare equal whatever their text).
pub open spec fn same_status_kind(a: ConnectionStatus, b: ConnectionStatus) -> bool {
    match (a, b) {
        (ConnectionStatus::Disconnected, ConnectionStatus::Disconnected) => true,
        (ConnectionStatus::Connecting, ConnectionStatus::Connecting) => true,
        (ConnectionStatus::Connected, ConnectionStatus::Connected) => true,
        (ConnectionStatus::Error(_), ConnectionStatus::Error(_)) => true,
        _ => false,
    }
}

impl PartialEq for ConnectionStatus {
    fn eq(&self, other: &Self) -> (r: bool) {
        match (self, other) {
            (ConnectionStatus::Disconnected, ConnectionStatus::Disconnected) => true,
            (ConnectionStatus::Connecting, ConnectionStatus::Connecting) => true,
            (ConnectionStatus::Connected, ConnectionStatus::Connected) => true,
            (ConnectionStatus::Error(_), ConnectionStatus::Error(_)) => true,
            _ => false,
        }
    }
}

impl PartialEqSpecImpl for ConnectionStatus {
    open spec fn obeys_eq_spec() -> bool {
        true
    }

    open spec fn eq_spec(&self, other: &Self) -> bool {
        same_status_kind(*self, *other)
    }
}

/// The state of the web panel's key list.
#[derive(Debug)]
pub struct AdminState {
    pub keys: Vec<SshKey>,
    pub filtered_keys: Vec<SshKey>,
    pub search_term: String,
    pub show_deprecated_only: bool,
    pub selected_servers: ServerFlags,
    pub expanded_servers: ServerFlags,
    pub current_operation: String,
}

impl Default for AdminState {
    /// No keys, no search, nothing selected, `Ready`.
    fn default() -> (r: Self)
        ensures
            r.keys@.len() == 0,
            r.filtered_keys@.len() == 0,
            r.search_term@.len() == 0,
            !r.show_deprecated_only,
            r.selected_servers@ == Set::<Seq<char>>::empty(),
            r.expanded_servers@ == Set::<Seq<char>>::empty(),
            r.current_operation@ == "Ready"@,
    {
        AdminState {
            keys: Vec::new(),
            filtered_keys: Vec::new(),
            search_term: String::new(),
            show_deprecated_only: false,
            selected_servers: ServerFlags::new(),
            expanded_servers: ServerFlags::new(),
            current_operation: owned("Ready"),
        }
    }
}

/// The status filter of the panel's switch.
pub open spec fn switch_filter(show_deprecated_only: bool) -> StatusFilter {
    if show_deprecated_only {
        StatusFilter::DeprecatedOnly
    } else {
        StatusFilter::All
    }
}

impl AdminState {
    /// Recomputes the listed keys from the loaded keys, the switch and the search.
    pub fn filter_keys(&mut self)
        ensures
            keys_view(final(self).filtered_keys@) == filtered_spec(
                keys_view(old(self).keys@),
                switch_filter(old(self).show_deprecated_only),
                old(self).search_term@,
            ),
            final(self).keys == old(self).keys,
            final(self).search_term == old(self).search_term,
            final(self).show_deprecated_only == old(self).show_deprecated_only,
            final(self).selected_servers == old(self).selected_servers,
            final(self).expanded_servers == old(self).expanded_servers,
            final(self).current_operation == old(self).current_operation,
    {
        let filter = if self.show_deprecated_only {
            StatusFilter::DeprecatedOnly
        } else {
            StatusFilter::All
        };
        self.filtered_keys = filter_key_list(&self.keys, filter, self.search_term.as_str());
    }

    /// The selected servers, each once.
    pub fn get_selected_servers(&self) -> (r: Vec<String>)
        ensures
            strings_view(r@).no_duplicates(),
            strings_view(r@).to_set() == self.selected_servers@,
    {
        self.selected_servers.names()
    }

    /// Clears the selection.
    pub fn clear_selection(&mut self)
        ensures
            final(self).selected_servers@ == Set::<Seq<char>>::empty(),
            final(self).keys == old(self).keys,
            final(self).filtered_keys == old(self).filtered_keys,
            final(self).expanded_servers == old(self).expanded_servers,
            final(self).current_operation == old(self).current_operation,
            final(self).search_term == old(self).search_term,
            final(self).show_deprecated_only == old(self).show_deprecated_only,
    {
        self.selected_servers.clear();
    }

    /// The statistics of the loaded keys.
    pub fn get_statistics(&self) -> (r: AdminStatistics)
        ensures
            statistics_spec(keys_view(self.keys@), r),
    {
        key_statistics(&self.keys)
    }
}

/// The short form of a public key shown in the web panel: the first sixteen
/// characters of its key part.
pub fn get_key_preview(public_key: &str) -> (r: String)
    ensures
        r@ == preview_spec(public_key@, 16),
{
    key_preview(public_key, 16)
}

/// The result of a request of the web panel.
#[derive(Debug)]
pub enum AdminOperation {
    LoadKeys(Result<Vec<SshKey>, String>),
    LoadFlows(Result<Vec<String>, String>),
    DeprecateKey(String, Result<String, String>),
    RestoreKey(String, Result<String, String>),
    DeleteKey(String, Result<String, String>),
    BulkDeprecate(Result<String, String>),
    BulkRestore(Result<String, String>),
    TestConnection(Result<String, String>),
    ScanDns(Result<Vec<DnsResolutionResult>, String>),
    LoadVersion(Result<String, String>),
}

/// What the connection panel asked for.
#[derive(Debug, Clone, Copy, PartialEq, Eq, Structural)]
pub enum ConnectionAction {
    NoAction,
    LoadFlows,
    TestConnection,
    LoadKeys,
    LoadVersion,
}

/// The state of the web panel.
#[derive(Debug)]
pub struct WebAdminApp {
    pub settings: AdminSettings,
    pub admin_state: AdminState,
    pub flows: Vec<String>,
    pub connection_status: ConnectionStatus,
    pub last_operation: String,
    pub server_version: Option<String>,
}

impl Default for WebAdminApp {
    /// Pointed at `http://localhost:8080`, disconnected, `Application started`.
    fn default() -> (r: Self)
        ensures
            r.settings.server_url@ == "http://localhost:8080"@,
            r.settings.selected_flow@.len() == 0,
            r.flows@.len() == 0,
            r.connection_status is Disconnected,
            r.last_operation@ == "Application started"@,
            r.server_version is None,
    {
        let mut settings = AdminSettings::default();
        settings.server_url = owned("http://localhost:8080");
        WebAdminApp {
            settings,
            admin_state: AdminState::default(),
            flows: Vec::new(),
            connection_status: ConnectionStatus::Disconnected,
            last_operation: owned("Application started"),
            server_version: None,
        }
    }
}

/// `<head><server><tail>`.
fn framed(head: &str, server: &str, tail: &str) -> (r: String)
    ensures
        r@ == head@ + server@ + tail@,
{
    let mut r = owned(head);
    append_str(&mut r, server);
    append_str(&mut r, tail);
    r
}

/// `<head><text>`.
fn prefixed(head: &str, text: &str) -> (r: String)
    ensures
        r@ == head@ + text@,
{
    let mut r = owned(head);
    append_str(&mut r, text);
    r
}

/// `<head><n><tail>`.
fn counted(head: &str, n: usize, tail: &str) -> (r: String)
    ensures
        r@ == head@ + decimal(n as nat) + tail@,
{
    let mut r = owned(head);
    push_decimal(&mut r, n as u64);
    append_str(&mut r, tail);
    r
}

/// What the status line shows when a single-key operation failed.
pub open spec fn key_failure_spec(op: KeyOperation, server: Seq<char>, error: Seq<char>) -> Seq<
    char,
> {
    let head = match op {
        KeyOperation::Deprecate => "Failed to deprecate key for "@,
        KeyOperation::Restore => "Failed to restore key for "@,
        KeyOperation::Delete => "Failed to delete key for "@,
    };
    head + server + ": "@ + error
}

/// What the status line shows while a single-key operation runs.
pub open spec fn key_progress_spec(op: KeyOperation, server: Seq<char>) -> Seq<char> {
    let head = match op {
        KeyOperation::Deprecate => "Deprecating key for "@,
        KeyOperation::Restore => "Restoring key for "@,
        KeyOperation::Delete => "Deleting key for "@,
    };
    head + server + "..."@
}

/// The servers that resolved.
pub open spec fn resolved_spec(results: Seq<DnsResolutionResult>) -> nat {
    (results.len() - unresolved_spec(results)) as nat
}

/// At most every host fails to resolve.
proof fn lemma_unresolved_bounded(results: Seq<DnsResolutionResult>)
    ensures
        unresolved_spec(results) <= results.len(),
    decreases results.len(),
{
    if results.len() > 0 {
        lemma_unresolved_bounded(results.drop_last());
    }
}

/// The result is a list of flows (which replaces the panel's flows and may choose one).
pub open spec fn updates_flows(op: AdminOperation) -> bool {
    op matches AdminOperation::LoadFlows(Ok(_))
}

/// The result is the server's version.
pub open spec fn updates_version(op: AdminOperation) -> bool {
    op matches AdminOperation::LoadVersion(Ok(_))
}

/// The result is a list of keys (which replaces the panel's keys).
pub open spec fn updates_keys(op: AdminOperation) -> bool {
    op matches AdminOperation::LoadKeys(Ok(_))
}

/// The result is a successful change to all selected servers (which clears the
/// selection).
pub open spec fn clears_selection(op: AdminOperation) -> bool {
    op matches AdminOperation::BulkDeprecate(Ok(_)) || op matches AdminOperation::BulkRestore(Ok(_))
}

/// The result bears on the connection: failed flow or key loads, loaded keys, and
/// connection tests.
pub open spec fn updates_status(op: AdminOperation) -> bool {
    match op {
        AdminOperation::LoadFlows(Err(_)) => true,
        AdminOperation::LoadKeys(_) => true,
        AdminOperation::TestConnection(_) => true,
        _ => false,
    }
}

impl WebAdminApp {
    /// Shows that the flows are being loaded.
    pub fn begin_load_flows(&mut self)
        ensures
            final(self).last_operation@ == "Loading flows..."@,
            final(self).connection_status == old(self).connection_status,
    {
        self.last_operation = owned("Loading flows...");
    }

    /// Shows that the connection is being tested.
    pub fn begin_test_connection(&mut self)
        ensures
            final(self).connection_status is Connecting,
            final(self).last_operation@ == "Testing connection..."@,
    {
        self.connection_status = ConnectionStatus::Connecting;
        self.last_operation = owned("Testing connection...");
    }

    /// Shows that the keys are being loaded.
    pub fn begin_load_keys(&mut self)
        ensures
            final(self).admin_state.current_operation@ == "Loading keys..."@,
            final(self).last_operation@ == "Loading keys..."@,
            final(self).connection_status == old(self).connection_status,
    {
        self.admin_state.current_operation = owned("Loading keys...");
        self.last_operation = owned("Loading keys...");
    }

    /// Shows that the server's version is being asked for.
    pub fn begin_load_version(&mut self)
        ensures
            final(self).last_operation@ == "Loading server version..."@,
            final(self).connection_status == old(self).connection_status,
    {
        self.last_operation = owned("Loading server version...");
    }

    /// Shows that a DNS scan runs.
    pub fn begin_scan_dns(&mut self)
        ensures
            final(self).last_operation@ == "Scanning DNS resolution..."@,
            final(self).connection_status == old(self).connection_status,
    {
        self.last_operation = owned("Scanning DNS resolution...");
    }

    /// Shows that an operation on one server's key runs.
    pub fn begin_key_operation(&mut self, op: KeyOperation, server: &str)
        ensures
            final(self).last_operation@ == key_progress_spec(op, server@),
            final(self).connection_status == old(self).connection_status,
    {
        self.last_operation = match op {
            KeyOperation::Deprecate => framed("Deprecating key for ", server, "..."),
            KeyOperation::Restore => framed("Restoring key for ", server, "..."),
            KeyOperation::Delete => framed("Deleting key for ", server, "..."),
        };
    }

    /// Starts an operation on all selected servers: with none selected nothing happens
    /// and `None` is given; otherwise the status line says how many servers are
    /// concerned and the selected servers are given.
    pub fn begin_bulk(&mut self, restore: bool) -> (r: Option<Vec<String>>)
        ensures
            old(self).admin_state.selected_servers@.len() == 0 ==> r is None && final(self).last_operation
                == old(self).last_operation,
            old(self).admin_state.selected_servers@.len() > 0 ==> (r matches Some(v)
                && strings_view(v@).no_duplicates() && strings_view(v@).to_set() == old(
                self,
            ).admin_state.selected_servers@ && final(self).last_operation@ == (if restore {
                "Bulk restoring "@
            } else {
                "Bulk deprecating "@
            }) + decimal(v@.len()) + " servers..."@),
            final(self).admin_state.selected_servers == old(self).admin_state.selected_servers,
            final(self).connection_status == old(self).connection_status,
    {
        let servers = self.admin_state.get_selected_servers();
        proof {
            strings_view(servers@).unique_seq_to_set();
        }
        if servers.len() == 0 {
            return None;
        }
        self.last_operation = if restore {
            counted("Bulk restoring ", servers.len(), " servers...")
        } else {
            counted("Bulk deprecating ", servers.len(), " servers...")
        };
        Some(servers)
    }

    /// Applies the result of a request. Gives whether the keys are to be reloaded
    /// quietly (after a successful change to keys).
    pub fn handle_operation_result(&mut self, operation: AdminOperation) -> (reload: bool)
        ensures
            final(self).settings.server_url == old(self).settings.server_url,
            final(self).settings.basic_auth == old(self).settings.basic_auth,
            final(self).settings.auto_refresh == old(self).settings.auto_refresh,
            final(self).settings.refresh_interval == old(self).settings.refresh_interval,
            !updates_flows(operation) ==> final(self).flows == old(self).flows
                && final(self).settings.selected_flow == old(self).settings.selected_flow,
            !updates_version(operation) ==> final(self).server_version == old(self).server_version,
            !updates_status(operation) ==> final(self).connection_status == old(
                self,
            ).connection_status,
            !updates_keys(operation) && !clears_selection(operation) ==> final(self).admin_state
                == old(self).admin_state,
            updates_keys(operation) || clears_selection(operation) ==> {
                &&& final(self).admin_state.search_term == old(self).admin_state.search_term
                &&& final(self).admin_state.show_deprecated_only
                    == old(self).admin_state.show_deprecated_only
                &&& final(self).admin_state.expanded_servers
                    == old(self).admin_state.expanded_servers
                &&& final(self).admin_state.current_operation
                    == old(self).admin_state.current_operation
            },
            updates_keys(operation) ==> final(self).admin_state.selected_servers == old(
                self,
            ).admin_state.selected_servers,
            clears_selection(operation) ==> final(self).admin_state.keys == old(
                self,
            ).admin_state.keys && final(self).admin_state.filtered_keys == old(
                self,
            ).admin_state.filtered_keys,
            match operation {
                AdminOperation::LoadFlows(Ok(flows)) => {
                    &&& !reload
                    &&& final(self).flows == flows
                    &&& final(self).settings.selected_flow@ == if flows@.len() > 0
                        && old(self).settings.selected_flow@.len() == 0 {
                        flows@[0]@
                    } else {
                        old(self).settings.selected_flow@
                    }
                    &&& final(self).last_operation@ == "Loaded "@ + decimal(flows@.len())
                        + " flows"@
                    &&& final(self).connection_status == old(self).connection_status
                },
                AdminOperation::LoadFlows(Err(e)) => {
                    &&& !reload
                    &&& final(self).flows == old(self).flows
                    &&& final(self).connection_status matches ConnectionStatus::Error(t) && t@
                        == e@
                    &&& final(self).last_operation@ == "Failed to load flows: "@ + e@
                },
                AdminOperation::LoadKeys(Ok(keys)) => {
                    &&& !reload
                    &&& final(self).admin_state.keys == keys
                    &&& keys_view(final(self).admin_state.filtered_keys@) == filtered_spec(
                        keys_view(keys@),
                        switch_filter(old(self).admin_state.show_deprecated_only),
                        old(self).admin_state.search_term@,
                    )
                    &&& final(self).connection_status is Connected
                    &&& final(self).last_operation@ == "Loaded "@ + decimal(keys@.len())
                        + " keys"@
                },
                AdminOperation::LoadKeys(Err(e)) => {
                    &&& !reload
                    &&& final(self).admin_state.keys == old(self).admin_state.keys
                    &&& final(self).connection_status matches ConnectionStatus::Error(t) && t@
                        == e@
                    &&& final(self).last_operation@ == "Failed to load keys: "@ + e@
                },
                AdminOperation::TestConnection(Ok(m)) => {
                    &&& !reload
                    &&& final(self).connection_status is Connected
                    &&& final(self).last_operation@ == m@
                },
                AdminOperation::TestConnection(Err(e)) => {
                    &&& !reload
                    &&& final(self).connection_status matches ConnectionStatus::Error(t) && t@
                        == e@
                    &&& final(self).last_operation@ == "Connection failed: "@ + e@
                },
                AdminOperation::DeprecateKey(server, result) => {
                    &&& reload == result is Ok
                    &&& final(self).connection_status == old(self).connection_status
                    &&& final(self).last_operation@ == match result {
                        Ok(m) => m@,
                        Err(e) => key_failure_spec(KeyOperation::Deprecate, server@, e@),
                    }
                },
                AdminOperation::RestoreKey(server, result) => {
                    &&& reload == result is Ok
                    &&& final(self).connection_status == old(self).connection_status
                    &&& final(self).last_operation@ == match result {
                        Ok(m) => m@,
                        Err(e) => key_failure_spec(KeyOperation::Restore, server@, e@),
                    }
                },
                AdminOperation::DeleteKey(server, result) => {
                    &&& reload == result is Ok
                    &&& final(self).connection_status == old(self).connection_status
                    &&& final(self).last_operation@ == match result {
                        Ok(m) => m@,
                        Err(e) => key_failure_spec(KeyOperation::Delete, server@, e@),
                    }
                },
                AdminOperation::BulkDeprecate(result) | AdminOperation::BulkRestore(result) => {
                    &&& reload == result is Ok
                    &&& final(self).connection_status == old(self).connection_status
                    &&& result is Ok ==> final(self).admin_state.selected_servers@ == Set::<
                        Seq<char>,
                    >::empty()
                    &&& result is Err ==> final(self).admin_state.selected_servers
                        == old(self).admin_state.selected_servers
                    &&& final(self).last_operation@ == match result {
                        Ok(m) => m@,
                        Err(e) => "Bulk operation failed: "@ + e@,
                    }
                },
                AdminOperation::ScanDns(result) => {
                    &&& !reload
                    &&& final(self).connection_status == old(self).connection_status
                    &&& final(self).last_operation@ == match result {
                        Ok(results) => "DNS scan completed: "@ + decimal(resolved_spec(results@))
                            + "/"@ + decimal(results@.len()) + " servers resolved"@,
                        Err(e) => "DNS scan failed: "@ + e@,
                    }
                },
                AdminOperation::LoadVersion(result) => {
                    &&& !reload
                    &&& final(self).connection_status == old(self).connection_status
                    &&& match result {
                        Ok(v) => final(self).server_version matches Some(s) && s@ == v@
                            && final(self).last_operation@ == "Server version: "@ + v@,
                        Err(e) => final(self).server_version == old(self).server_version
                            && final(self).last_operation@ == "Failed to get server version: "@
                            + e@,
                    }
                },
            },
    {
        match operation {
            AdminOperation::LoadFlows(result) => {
                match result {
                    Ok(flows) => {
                        self.flows = flows;
                        if self.flows.len() > 0 && self.settings.selected_flow.as_str().is_empty() {
                            self.settings.selected_flow = self.flows[0].clone();
                        }
                        self.last_operation = counted("Loaded ", self.flows.len(), " flows");
                    },
                    Err(err) => {
                        self.last_operation = prefixed("Failed to load flows: ", err.as_str());
                        self.connection_status = ConnectionStatus::Error(err);
                    },
                }
                false
            },
            AdminOperation::LoadKeys(result) => {
                match result {
                    Ok(keys) => {
                        self.admin_state.keys = keys;
                        self.admin_state.filter_keys();
                        self.connection_status = ConnectionStatus::Connected;
                        self.last_operation = counted("Loaded ", self.admin_state.keys.len(), " keys");
                    },
                    Err(err) => {
                        self.last_operation = prefixed("Failed to load keys: ", err.as_str());
                        self.connection_status = ConnectionStatus::Error(err);
                    },
                }
                false
            },
            AdminOperation::TestConnection(result) => {
                match result {
                    Ok(msg) => {
                        self.connection_status = ConnectionStatus::Connected;
                        self.last_operation = msg;
                    },
                    Err(err) => {
                        self.last_operation = prefixed("Connection failed: ", err.as_str());
                        self.connection_status = ConnectionStatus::Error(err);
                    },
                }
                false
            },
            AdminOperation::DeprecateKey(server, result) => {
                match result {
                    Ok(msg) => {
                        self.last_operation = msg;
                        true
                    },
                    Err(err) => {
                        let mut m = framed("Failed to deprecate key for ", server.as_str(), ": ");
                        append_str(&mut m, err.as_str());
                        self.last_operation = m;
                        false
                    },
                }
            },
            AdminOperation::RestoreKey(server, result) => {
                match result {
                    Ok(msg) => {
                        self.last_operation = msg;
                        true
                    },
                    Err(err) => {
                        let mut m = framed("Failed to restore key for ", server.as_str(), ": ");
                        append_str(&mut m, err.as_str());
                        self.last_operation = m;
                        false
                    },
                }
            },
            AdminOperation::DeleteKey(server, result) => {
                match result {
                    Ok(msg) => {
                        self.last_operation = msg;
                        true
                    },
                    Err(err) => {
                        let mut m = framed("Failed to delete key for ", server.as_str(), ": ");
                        append_str(&mut m, err.as_str());
                        self.last_operation = m;
                        false
                    },
                }
            },
            AdminOperation::BulkDeprecate(result) | AdminOperation::BulkRestore(result) => {
                match result {
                    Ok(msg) => {
                        self.last_operation = msg;
                        self.admin_state.clear_selection();
                        true
                    },
                    Err(err) => {
                        self.last_operation = prefixed("Bulk operation failed: ", err.as_str());
                        false
                    },
                }
            },
            AdminOperation::ScanDns(result) => {
                match result {
                    Ok(results) => {
                        let failed = unresolved_count(&results);
                        proof {
                            lemma_unresolved_bounded(results@);
                        }
                        let resolved = results.len() - failed;
                        let mut m = counted("DNS scan completed: ", resolved, "/");
                        push_decimal(&mut m, results.len() as u64);
                        append_str(&mut m, " servers resolved");
                        self.last_operation = m;
                    },
                    Err(err) => {
                        self.last_operation = prefixed("DNS scan failed: ", err.as_str());
                    },
                }
                false
            },
            AdminOperation::LoadVersion(result) => {
                match result {
                    Ok(version) => {
                        self.last_operation = prefixed("Server version: ", version.as_str());
                        self.server_version = Some(version);
                    },
                    Err(err) => {
                        self.last_operation = prefixed("Failed to get server version: ", err.as_str());
                    },
                }
                false
            },
        }
    }
}

} // verus!
