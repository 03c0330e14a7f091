//! The decisions of the administration API: DNS scans of a flow's hosts, answers to
//! retiring, restoring and deleting keys, and the content types of static files.
use vstd::prelude::*;
use crate::keys::{flows_view, keys_view, Flow, FlowView, KeyView, SshKey};
use crate::server::{allowed_spec, find_flow, find_flow_spec, FlowRequestError};
use crate::text::{append_str, chars_eq, chars_of, contains_str, owned, push_decimal, decimal, slice_to_vec, str_eq};

verus! {

/// The outcome of resolving one host name.
#[derive(Clone, Debug)]
pub struct DnsResolutionResult {
    pub server: String,
    pub resolved: bool,
    pub error: Option<String>,
}

/// A request naming several hosts.
#[derive(Clone, Debug)]
pub struct BulkDeprecateRequest {
    pub servers: Vec<String>,
}

/// What happened when a host name was looked up.
#[derive(Clone, Debug)]
pub enum DnsLookupOutcome {
    /// The name resolved to at least one address.
    Resolved,
    /// The resolver reported an error, with its text.
    Failed(String),
    /// No answer within five seconds.
    TimedOut,
    /// No permit to run the lookup could be obtained.
    NoPermit,
}

/// The error text recorded for a lookup outcome.
pub open spec fn dns_error_spec(outcome: DnsLookupOutcome) -> Option<Seq<char>> {
    match outcome {
        DnsLookupOutcome::Resolved => None,
        DnsLookupOutcome::Failed(e) => Some(e@),
        DnsLookupOutcome::TimedOut => Some("DNS lookup timeout (5s)"@),
        DnsLookupOutcome::NoPermit => Some("Failed to acquire semaphore"@),
    }
}

/// The result reported for one host.
pub fn dns_result(server: String, outcome: DnsLookupOutcome) -> (r: DnsResolutionResult)
    ensures
        r.server@ == server@,
        r.resolved == (outcome is Resolved),
        match (r.error, dns_error_spec(outcome)) {
            (Some(e), Some(f)) => e@ == f,
            (None, None) => true,
            _ => false,
        },
{
    match outcome {
        DnsLookupOutcome::Resolved => DnsResolutionResult { server, resolved: true, error: None },
        DnsLookupOutcome::Failed(e) => DnsResolutionResult { server, resolved: false, error: Some(e) },
        DnsLookupOutcome::TimedOut => DnsResolutionResult {
            server,
            resolved: false,
            error: Some(owned("DNS lookup timeout (5s)")),
        },
        DnsLookupOutcome::NoPermit => DnsResolutionResult {
            server,
            resolved: false,
            error: Some(owned("Failed to acquire semaphore")),
        },
    }
}

/// The distinct host names of a list of keys, in order of first appearance.
pub open spec fn distinct_hosts(keys: Seq<KeyView>) -> Seq<Seq<char>>
    decreases keys.len(),
{
    if keys.len() == 0 {
        Seq::empty()
    } else {
        let prev = distinct_hosts(keys.drop_last());
        if prev.contains(keys.last().server) {
            prev
        } else {
            prev.push(keys.last().server)
        }
    }
}

/// The distinct host names of a list of keys.
pub fn unique_hostnames(keys: &Vec<SshKey>) -> (r: Vec<String>)
    ensures
        r@.map_values(|s: String| s@) == distinct_hosts(keys_view(keys@)),
{
    let mut r: Vec<String> = Vec::new();
    let mut i: usize = 0;
    while i < keys.len()
        invariant
            i <= keys.len(),
            r@.map_values(|s: String| s@) == distinct_hosts(keys_view(keys@).take(i as int)),
        decreases keys.len() - i,
    {
        let ghost t = keys_view(keys@).take(i as int + 1);
        assert(t.drop_last() =~= keys_view(keys@).take(i as int));
        assert(t.last() == keys@[i as int]@);
        let ghost names = r@.map_values(|s: String| s@);
        let seen = contains_str(&r, keys[i].server.as_str());
        assert(seen == names.contains(keys@[i as int]@.server)) by {
            if seen {
                let j = choose|j: int| 0 <= j < r@.len() && (#[trigger] r@[j])@ == keys@[i as int]@.server;
                assert(names[j] == keys@[i as int]@.server);
            }
            if names.contains(keys@[i as int]@.server) {
                let j = choose|j: int| 0 <= j < names.len() && names[j] == keys@[i as int]@.server;
                assert(r@[j]@ == names[j]);
            }
        }
        if !seen {
            let s = keys[i].server.clone();
            r.push(s);
            assert(r@.map_values(|s: String| s@) =~= names.push(keys@[i as int]@.server));
        }
        i = i + 1;
    }
    assert(keys_view(keys@).take(keys@.len() as int) =~= keys_view(keys@));
    r
}

/// Every host of the keys is listed once: the distinct host list has no repeats and
/// holds exactly the hosts of the keys.
pub proof fn lemma_distinct_hosts(keys: Seq<KeyView>)
    ensures
        distinct_hosts(keys).no_duplicates(),
        forall|h: Seq<char>|
            distinct_hosts(keys).contains(h) <==> exists|i: int|
                0 <= i < keys.len() && (#[trigger] keys[i]).server == h,
    decreases keys.len(),
{
    if keys.len() > 0 {
        let init = keys.drop_last();
        lemma_distinct_hosts(init);
        let prev = distinct_hosts(init);
        let last = keys.last();
        assert(last == keys[keys.len() - 1]);
        assert forall|h: Seq<char>| distinct_hosts(keys).contains(h) <==> exists|i: int|
            0 <= i < keys.len() && (#[trigger] keys[i]).server == h by {
            if distinct_hosts(keys).contains(h) {
                if prev.contains(h) {
                    let i = choose|i: int| 0 <= i < init.len() && (#[trigger] init[i]).server == h;
                    assert(keys[i] == init[i]);
                } else {
                    assert(h == last.server);
                }
            }
            if exists|i: int| 0 <= i < keys.len() && (#[trigger] keys[i]).server == h {
                let i = choose|i: int| 0 <= i < keys.len() && (#[trigger] keys[i]).server == h;
                if i < keys.len() - 1 {
                    assert(init[i] == keys[i]);
                    assert(prev.contains(h));
                    if !prev.contains(last.server) {
                        assert(prev.push(last.server)[prev.index_of(h)] == h);
                    }
                } else {
                    if !prev.contains(last.server) {
                        assert(prev.push(last.server)[prev.len() as int] == h);
                    }
                }
            }
        }
    }
}

/// The number of hosts that did not resolve.
pub open spec fn unresolved_spec(results: Seq<DnsResolutionResult>) -> nat
    decreases results.len(),
{
    if results.len() == 0 {
        0
    } else {
        unresolved_spec(results.drop_last()) + if results.last().resolved {
            0nat
        } else {
            1nat
        }
    }
}

/// Counts the hosts that did not resolve.
pub fn unresolved_count(results: &Vec<DnsResolutionResult>) -> (r: usize)
    ensures
        r == unresolved_spec(results@),
{
    let mut n: usize = 0;
    let mut i: usize = 0;
    while i < results.len()
        invariant
            i <= results.len(),
            n == unresolved_spec(results@.take(i as int)),
            n <= i,
        decreases results.len() - i,
    {
        assert(results@.take(i as int + 1).drop_last() =~= results@.take(i as int));
        if !results[i].resolved {
            n = n + 1;
        }
        i = i + 1;
    }
    assert(results@.take(results@.len() as int) =~= results@);
    n
}

/// The hosts to scan for a flow (`POST /{flow}/scan-dns`): refused when the flow is not
/// allowed or absent; otherwise its distinct host names.
pub fn hosts_to_scan(flows: &Vec<Flow>, allowed: &Vec<String>, flow_id: &str) -> (r: Result<
    Vec<String>,
    FlowRequestError,
>)
    ensures
        !allowed_spec(allowed@, flow_id@) ==> r == Err::<Vec<String>, _>(FlowRequestError::NotAllowed),
        allowed_spec(allowed@, flow_id@) ==> match find_flow_spec(flows_view(flows@), flow_id@) {
            None => r == Err::<Vec<String>, _>(FlowRequestError::NotFound),
            Some(i) => r matches Ok(v) && v@.map_values(|s: String| s@) == distinct_hosts(
                flows_view(flows@)[i].servers,
            ),
        },
{
    if !contains_str(allowed, flow_id) {
        return Err(FlowRequestError::NotAllowed);
    }
    match find_flow(flows, flow_id) {
        None => Err(FlowRequestError::NotFound),
        Some(i) => {
            assert(flows_view(flows@)[i as int] == flows@[i as int]@);
            Ok(unique_hostnames(&flows[i].servers))
        },
    }
}

// ---------------------------------------------------------------------------
// Answers to key operations
// ---------------------------------------------------------------------------

/// An operation on the keys of one host in a flow.
#[derive(Clone, Copy, Debug, PartialEq, Eq)]
pub enum KeyOperation {
    /// Retire the host's keys.
    Deprecate,
    /// Bring the host's retired keys back.
    Restore,
    /// Remove the host's keys from the flow, and from the store when no flow uses them.
    Delete,
}

/// An answer of the administration API: a status and a message.
#[derive(Clone, Debug)]
pub struct ApiReply {
    /// 200, 404 or 500.
    pub status: u16,
    /// For 200 the message; otherwise the error text.
    pub text: String,
    /// The number of keys the operation touched (0 on errors).
    pub count: u64,
}

/// The success message after an operation on a host's keys.
pub open spec fn op_success_spec(op: KeyOperation, count: nat, server: Seq<char>) -> Seq<char> {
    let verb = match op {
        KeyOperation::Deprecate => "Successfully deprecated "@,
        KeyOperation::Restore => "Successfully restored "@,
        KeyOperation::Delete => "Successfully deleted "@,
    };
    verb + decimal(count) + " key(s) for server '"@ + server + "'"@
}

/// The message when an operation found nothing to change.
pub open spec fn op_not_found_spec(op: KeyOperation, server: Seq<char>) -> Seq<char> {
    match op {
        KeyOperation::Restore => "No deprecated keys found for server '"@ + server + "'"@,
        _ => "No keys found for server '"@ + server + "'"@,
    }
}

/// How an operation on a host's keys is answered once the store reported how many
/// keys it changed: 200 with a message when some changed, 404 when none did.
pub fn key_operation_reply(op: KeyOperation, server: &str, count: u64) -> (r: ApiReply)
    ensures
        count > 0 ==> r.status == 200 && r.text@ == op_success_spec(op, count as nat, server@)
            && r.count == count,
        count == 0 ==> r.status == 404 && r.text@ == op_not_found_spec(op, server@) && r.count == 0,
{
    if count > 0 {
        let mut t = match op {
            KeyOperation::Deprecate => owned("Successfully deprecated "),
            KeyOperation::Restore => owned("Successfully restored "),
            KeyOperation::Delete => owned("Successfully deleted "),
        };
        push_decimal(&mut t, count);
        append_str(&mut t, " key(s) for server '");
        append_str(&mut t, server);
        append_str(&mut t, "'");
        ApiReply { status: 200, text: t, count }
    } else {
        let mut t = match op {
            KeyOperation::Restore => owned("No deprecated keys found for server '"),
            _ => owned("No keys found for server '"),
        };
        append_str(&mut t, server);
        append_str(&mut t, "'");
        ApiReply { status: 404, text: t, count: 0 }
    }
}

/// The error text when the store failed during an operation on a host's keys.
pub open spec fn op_failure_spec(op: KeyOperation, error: Seq<char>) -> Seq<char> {
    match op {
        KeyOperation::Deprecate => "Failed to deprecate key: "@ + error,
        KeyOperation::Restore => "Failed to restore key: "@ + error,
        KeyOperation::Delete => "Failed to delete key: "@ + error,
    }
}

/// The 500 answer when the store failed during an operation on a host's keys.
pub fn key_operation_failure(op: KeyOperation, error: &str) -> (r: ApiReply)
    ensures
        r.status == 500,
        r.text@ == op_failure_spec(op, error@),
        r.count == 0,
{
    let mut t = match op {
        KeyOperation::Deprecate => owned("Failed to deprecate key: "),
        KeyOperation::Restore => owned("Failed to restore key: "),
        KeyOperation::Delete => owned("Failed to delete key: "),
    };
    append_str(&mut t, error);
    ApiReply { status: 500, text: t, count: 0 }
}

/// The 500 answer when reloading the flows failed after an operation.
pub fn refresh_failure(error: &str) -> (r: ApiReply)
    ensures
        r.status == 500,
        r.text@ == "Failed to refresh flows: "@ + error@,
        r.count == 0,
{
    let mut t = owned("Failed to refresh flows: ");
    append_str(&mut t, error);
    ApiReply { status: 500, text: t, count: 0 }
}

/// The message after a bulk operation over several hosts.
pub open spec fn bulk_message_spec(restore: bool, count: nat, servers: nat) -> Seq<char> {
    (if restore {
        "Successfully restored "@
    } else {
        "Successfully deprecated "@
    }) + decimal(count) + " key(s) for "@ + decimal(servers) + " server(s)"@
}

/// The message after retiring (or restoring) the keys of several hosts.
pub fn bulk_message(restore: bool, count: u64, servers: usize) -> (r: String)
    ensures
        r@ == bulk_message_spec(restore, count as nat, servers as nat),
{
    let mut t = if restore {
        owned("Successfully restored ")
    } else {
        owned("Successfully deprecated ")
    };
    push_decimal(&mut t, count);
    append_str(&mut t, " key(s) for ");
    push_decimal(&mut t, servers as u64);
    append_str(&mut t, " server(s)");
    t
}

/// The error text when a bulk operation failed in the store.
pub fn bulk_failure(restore: bool, error: &str) -> (r: String)
    ensures
        r@ == (if restore {
            "Failed to bulk restore keys: "@
        } else {
            "Failed to bulk deprecate keys: "@
        }) + error@,
{
    let mut t = if restore {
        owned("Failed to bulk restore keys: ")
    } else {
        owned("Failed to bulk deprecate keys: ")
    };
    append_str(&mut t, error);
    t
}

// ---------------------------------------------------------------------------
// Flow summaries
// ---------------------------------------------------------------------------

/// The number of retired keys in a list.
pub open spec fn retired_spec(keys: Seq<KeyView>) -> nat
    decreases keys.len(),
{
    if keys.len() == 0 {
        0
    } else {
        retired_spec(keys.drop_last()) + if keys.last().deprecated {
            1nat
        } else {
            0nat
        }
    }
}

/// Counts the retired keys in a list.
pub fn count_retired(keys: &Vec<SshKey>) -> (r: usize)
    ensures
        r == retired_spec(keys_view(keys@)),
        r <= keys.len(),
{
    let mut n: usize = 0;
    let mut i: usize = 0;
    while i < keys.len()
        invariant
            i <= keys.len(),
            n == retired_spec(keys_view(keys@).take(i as int)),
            n <= i,
        decreases keys.len() - i,
    {
        let ghost t = keys_view(keys@).take(i as int + 1);
        assert(t.drop_last() =~= keys_view(keys@).take(i as int));
        assert(t.last() == keys@[i as int]@);
        if keys[i].deprecated {
            n = n + 1;
        }
        i = i + 1;
    }
    assert(keys_view(keys@).take(keys@.len() as int) =~= keys_view(keys@));
    n
}

/// A flow's name with its number of keys, active keys and retired keys.
#[derive(Clone, Debug)]
pub struct FlowSummary {
    pub name: String,
    pub servers_count: usize,
    pub active_keys: usize,
    pub deprecated_keys: usize,
}

/// The summary of each flow, in order (the web console's state endpoint).
pub fn flow_summaries(flows: &Vec<Flow>) -> (r: Vec<FlowSummary>)
    ensures
        r@.len() == flows@.len(),
        forall|i: int|
            0 <= i < r@.len() ==> (#[trigger] r@[i]).name@ == flows@[i]@.name && r@[i].servers_count
                == flows@[i]@.servers.len() && r@[i].deprecated_keys == retired_spec(
                flows@[i]@.servers,
            ) && r@[i].active_keys + r@[i].deprecated_keys == r@[i].servers_count,
{
    let mut r: Vec<FlowSummary> = Vec::new();
    let mut i: usize = 0;
    while i < flows.len()
        invariant
            i <= flows.len(),
            r@.len() == i,
            forall|k: int|
                0 <= k < i ==> (#[trigger] r@[k]).name@ == flows@[k]@.name && r@[k].servers_count
                    == flows@[k]@.servers.len() && r@[k].deprecated_keys == retired_spec(
                    flows@[k]@.servers,
                ) && r@[k].active_keys + r@[k].deprecated_keys == r@[k].servers_count,
        decreases flows.len() - i,
    {
        let f = &flows[i];
        let retired = count_retired(&f.servers);
        let total = f.servers.len();
        r.push(
            FlowSummary {
                name: f.name.clone(),
                servers_count: total,
                active_keys: total - retired,
                deprecated_keys: retired,
            },
        );
        i = i + 1;
    }
    r
}

/// The names of the flows, in order.
pub fn flow_names(flows: &Vec<Flow>) -> (r: Vec<String>)
    ensures
        r@.map_values(|s: String| s@) == flows_view(flows@).map_values(|f: FlowView| f.name),
{
    let mut r: Vec<String> = Vec::new();
    let mut i: usize = 0;
    while i < flows.len()
        invariant
            i <= flows.len(),
            r@.len() == i,
            forall|k: int| 0 <= k < i ==> (#[trigger] r@[k])@ == flows@[k]@.name,
        decreases flows.len() - i,
    {
        let n = flows[i].name.clone();
        r.push(n);
        i = i + 1;
    }
    assert(r@.map_values(|s: String| s@) =~= flows_view(flows@).map_values(|f: FlowView| f.name));
    r
}

// ---------------------------------------------------------------------------
// Static files
// ---------------------------------------------------------------------------

/// The extension of a path as `std::path::Path::extension` reports it.
pub uninterp spec fn path_extension(path: Seq<char>) -> Option<Seq<char>>;

/// `std::path::Path::extension`, converted to a string. Under the Unix path rules
/// this program is built with, the result is a function of the path alone; the rules
/// for what counts as an extension are not restated.
#[verifier::external_body]
fn file_extension(path: &str) -> (r: Option<String>)
    ensures
        match (r, path_extension(path@)) {
            (Some(e), Some(f)) => e@ == f,
            (None, None) => true,
            _ => false,
        },
{
    std::path::Path::new(path).extension().and_then(|e| e.to_str()).map(|e| e.to_string())
}

/// The content type served for a file extension.
pub open spec fn content_type_spec(ext: Option<Seq<char>>) -> Seq<char> {
    match ext {
        Some(e) => if e == "html"@ {
            "text/html; charset=utf-8"@
        } else if e == "css"@ {
            "text/css; charset=utf-8"@
        } else if e == "js"@ {
            "application/javascript; charset=utf-8"@
        } else if e == "png"@ {
            "image/png"@
        } else if e == "jpg"@ || e == "jpeg"@ {
            "image/jpeg"@
        } else if e == "svg"@ {
            "image/svg+xml"@
        } else {
            "application/octet-stream"@
        },
        None => "application/octet-stream"@,
    }
}

/// The content type for an extension.
pub fn content_type_for_extension(ext: Option<&str>) -> (r: String)
    ensures
        r@ == content_type_spec(
            match ext {
                Some(e) => Some(e@),
                None => None,
            },
        ),
{
    match ext {
        Some(e) => if str_eq(e, "html") {
            owned("text/html; charset=utf-8")
        } else if str_eq(e, "css") {
            owned("text/css; charset=utf-8")
        } else if str_eq(e, "js") {
            owned("application/javascript; charset=utf-8")
        } else if str_eq(e, "png") {
            owned("image/png")
        } else if str_eq(e, "jpg") || str_eq(e, "jpeg") {
            owned("image/jpeg")
        } else if str_eq(e, "svg") {
            owned("image/svg+xml")
        } else {
            owned("application/octet-stream")
        },
        None => owned("application/octet-stream"),
    }
}

/// The content type for a file path, by its extension.
pub fn content_type_for(path: &str) -> (r: String)
    ensures
        r@ == content_type_spec(path_extension(path@)),
{
    match file_extension(path) {
        Some(e) => content_type_for_extension(Some(e.as_str())),
        None => content_type_for_extension(None),
    }
}

/// `s` ends with `p`.
pub open spec fn has_suffix(s: Seq<char>, p: Seq<char>) -> bool {
    p.len() <= s.len() && s.skip(s.len() - p.len()) == p
}

/// Whether `s` ends with `p` (`str::ends_with`).
fn ends_with_str(s: &str, p: &str) -> (r: bool)
    ensures
        r == has_suffix(s@, p@),
{
    let sv = chars_of(s);
    let pv = chars_of(p);
    if pv.len() > sv.len() {
        return false;
    }
    let tail = slice_to_vec(sv.as_slice(), sv.len() - pv.len(), sv.len());
    assert(tail@ == s@.skip(s@.len() - p@.len()));
    chars_eq(tail.as_slice(), pv.as_slice())
}

/// The content type of a file of the browser build of the web console, by its name:
/// JavaScript for `.js`, WebAssembly for `.wasm`, raw bytes otherwise.
pub fn wasm_content_type(filename: &str) -> (r: String)
    ensures
        r@ == if has_suffix(filename@, ".js"@) {
            "application/javascript; charset=utf-8"@
        } else if has_suffix(filename@, ".wasm"@) {
            "application/wasm"@
        } else {
            "application/octet-stream"@
        },
{
    if ends_with_str(filename, ".js") {
        owned("application/javascript; charset=utf-8")
    } else if ends_with_str(filename, ".wasm") {
        owned("application/wasm")
    } else {
        owned("application/octet-stream")
    }
}

} // verus!
