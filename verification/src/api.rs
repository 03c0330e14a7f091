//! The client side of the key server's HTTP interface: endpoint addresses, request
//! headers, and how responses are judged and turned into messages.
use vstd::prelude::*;
use base64::Engine;
use vstd::utf8::encode_utf8;
use crate::text::{
    append_chars, append_str, chars_of, decimal, find, find_chars, first_at, has_prefix, occurs_at, owned, push_decimal,
    starts_with_chars, trim, trim_start, trim_start_index, trimmed,
};

verus! {

// ---------------------------------------------------------------------------
// Endpoint addresses
// ---------------------------------------------------------------------------

/// `s` without any trailing `/` (`str::trim_end_matches('/')`).
pub open spec fn strip_slashes(s: Seq<char>) -> Seq<char>
    decreases s.len(),
{
    if s.len() > 0 && s.last() == '/' {
        strip_slashes(s.drop_last())
    } else {
        s
    }
}

/// What remains of a server address is a beginning of it that does not end with `/`,
/// so an endpoint built on it has no doubled slash after the address.
pub proof fn lemma_strip_slashes_clean(s: Seq<char>)
    ensures
        !(strip_slashes(s).len() > 0 && strip_slashes(s).last() == '/'),
        has_prefix(s, strip_slashes(s)),
    decreases s.len(),
{
    if s.len() > 0 && s.last() == '/' {
        lemma_strip_slashes_clean(s.drop_last());
        let t = strip_slashes(s.drop_last());
        assert(s.take(t.len() as int) =~= s.drop_last().take(t.len() as int));
    } else {
        assert(s.take(s.len() as int) =~= s);
    }
}

/// A server address without trailing slashes.
pub fn base_url(host: &str) -> (r: Vec<char>)
    ensures
        r@ == strip_slashes(host@),
{
    let mut v = chars_of(host);
    while v.len() > 0 && v[v.len() - 1] == '/'
        invariant
            strip_slashes(v@) == strip_slashes(host@),
        decreases v.len(),
    {
        let ghost before = v@;
        v.pop();
        assert(v@ == before.drop_last());
    }
    v
}

/// UTF-8 bytes that percent-encoding leaves alone: ASCII letters, digits and `-._~`.
pub open spec fn url_safe(b: u8) -> bool {
    (48 <= b <= 57) || (65 <= b <= 90) || (97 <= b <= 122) || b == 45 || b == 46 || b == 95 || b
        == 126
}

/// The upper-case hexadecimal digit for a value below sixteen.
pub open spec fn hex_upper(d: int) -> char {
    if d < 10 {
        (48 + d) as char
    } else {
        (55 + d) as char
    }
}

/// Percent-encoding of a byte sequence: safe bytes stay, every other byte becomes `%`
/// and two upper-case hexadecimal digits.
pub open spec fn percent_encode(bytes: Seq<u8>) -> Seq<char>
    decreases bytes.len(),
{
    if bytes.len() == 0 {
        Seq::empty()
    } else {
        let b = bytes.last();
        percent_encode(bytes.drop_last()) + if url_safe(b) {
            seq![(b as int) as char]
        } else {
            seq!['%', hex_upper(b as int / 16), hex_upper(b as int % 16)]
        }
    }
}

/// `urlencoding::encode`: percent-encodes every byte of the UTF-8 form of `s` except
/// ASCII letters, digits and `-`, `_`, `.`, `~`, with upper-case hexadecimal digits.
#[verifier::external_body]
fn url_encode(s: &str) -> (r: String)
    ensures
        r@ == percent_encode(encode_utf8(s@)),
{
    urlencoding::encode(s).into_owned()
}

/// The keys endpoint of a flow.
pub open spec fn keys_url_spec(host: Seq<char>, flow: Seq<char>) -> Seq<char> {
    strip_slashes(host) + "/"@ + flow + "/keys"@
}

/// The keys endpoint of a flow: `{host}/{flow}/keys`.
pub fn keys_url(host: &str, flow: &str) -> (r: String)
    ensures
        r@ == keys_url_spec(host@, flow@),
{
    let mut r = String::new();
    append_chars(&mut r, base_url(host).as_slice());
    append_str(&mut r, "/");
    append_str(&mut r, flow);
    append_str(&mut r, "/keys");
    r
}

/// The keys endpoint of a flow asking for retired keys too.
pub fn all_keys_url(host: &str, flow: &str) -> (r: String)
    ensures
        r@ == keys_url_spec(host@, flow@) + "?include_deprecated=true"@,
{
    let mut r = keys_url(host, flow);
    append_str(&mut r, "?include_deprecated=true");
    r
}

/// What is done to one host's keys through the API.
#[derive(Clone, Copy, Debug, PartialEq, Eq)]
pub enum HostAction {
    /// `DELETE {flow}/keys/{server}`: retire.
    Deprecate,
    /// `POST {flow}/keys/{server}/restore`.
    Restore,
    /// `DELETE {flow}/keys/{server}/delete`: remove.
    Delete,
}

/// The endpoint for an action on one host's keys.
pub open spec fn host_url_spec(host: Seq<char>, flow: Seq<char>, server: Seq<char>, action: HostAction) -> Seq<char> {
    keys_url_spec(host, flow) + "/"@ + percent_encode(encode_utf8(server)) + match action {
        HostAction::Deprecate => Seq::<char>::empty(),
        HostAction::Restore => "/restore"@,
        HostAction::Delete => "/delete"@,
    }
}

/// The endpoint for an action on one host's keys, the host name percent-encoded.
pub fn host_url(host: &str, flow: &str, server: &str, action: HostAction) -> (r: String)
    ensures
        r@ == host_url_spec(host@, flow@, server@, action),
{
    let mut r = keys_url(host, flow);
    append_str(&mut r, "/");
    let enc = url_encode(server);
    append_str(&mut r, enc.as_str());
    match action {
        HostAction::Deprecate => {},
        HostAction::Restore => append_str(&mut r, "/restore"),
        HostAction::Delete => append_str(&mut r, "/delete"),
    }
    r
}

/// The endpoint for retiring (or restoring) several hosts at once.
pub fn bulk_url(host: &str, flow: &str, restore: bool) -> (r: String)
    ensures
        r@ == strip_slashes(host@) + "/"@ + flow@ + if restore {
            "/bulk-restore"@
        } else {
            "/bulk-deprecate"@
        },
{
    let mut r = String::new();
    append_chars(&mut r, base_url(host).as_slice());
    append_str(&mut r, "/");
    append_str(&mut r, flow);
    if restore {
        append_str(&mut r, "/bulk-restore");
    } else {
        append_str(&mut r, "/bulk-deprecate");
    }
    r
}

/// The DNS scan endpoint of a flow.
pub fn scan_dns_url(host: &str, flow: &str) -> (r: String)
    ensures
        r@ == strip_slashes(host@) + "/"@ + flow@ + "/scan-dns"@,
{
    let mut r = String::new();
    append_chars(&mut r, base_url(host).as_slice());
    append_str(&mut r, "/");
    append_str(&mut r, flow);
    append_str(&mut r, "/scan-dns");
    r
}

/// A server-wide endpoint: `{host}/api/version` or `{host}/api/flows`.
pub fn api_url(host: &str, flows: bool) -> (r: String)
    ensures
        r@ == strip_slashes(host@) + if flows {
            "/api/flows"@
        } else {
            "/api/version"@
        },
{
    let mut r = String::new();
    append_chars(&mut r, base_url(host).as_slice());
    if flows {
        append_str(&mut r, "/api/flows");
    } else {
        append_str(&mut r, "/api/version");
    }
    r
}

/// The endpoint the command-line client exchanges keys with: the configured address
/// (which names the flow) followed by `/keys`.
pub fn client_keys_url(host: &str) -> (r: String)
    ensures
        r@ == host@ + "/keys"@,
{
    let mut r = owned(host);
    append_str(&mut r, "/keys");
    r
}

// ---------------------------------------------------------------------------
// Request headers
// ---------------------------------------------------------------------------

/// The credentials of a `user:password` string: the text before the first `:` and the
/// text after it.
pub open spec fn credentials_spec(auth: Seq<char>) -> Option<(Seq<char>, Seq<char>)> {
    match find(auth, seq![':']) {
        Some(i) => Some((auth.take(i), auth.skip(i + 1))),
        None => None,
    }
}

/// Credentials split at their first `:`: the user name holds no `:`, and user name,
/// `:` and password give back the credentials.
pub proof fn lemma_credentials_split(auth: Seq<char>)
    ensures
        credentials_spec(auth) matches Some((u, p)) ==> u + seq![':'] + p == auth && forall|i: int|
            0 <= i < u.len() ==> u[i] != ':',
{
    if let Some(i) = find(auth, seq![':']) {
        let k = choose|k: int| first_at(auth, seq![':'], k);
        assert(first_at(auth, seq![':'], k));
        assert(i == k);
        assert(auth.subrange(i, i + 1)[0] == auth[i]);
        assert(auth.take(i) + seq![':'] + auth.skip(i + 1) =~= auth);
        assert forall|j: int| 0 <= j < i implies auth.take(i)[j] != ':' by {
            if auth[j] == ':' {
                assert(auth.subrange(j, j + 1) =~= seq![':']);
                assert(occurs_at(auth, seq![':'], j));
            }
        }
    }
}

/// The message for malformed credentials.
pub open spec fn auth_format_error() -> Seq<char> {
    "Basic auth format should be 'username:password'"@
}

/// Splits `user:password` credentials: none when the string is empty, an error when it
/// has no `:`.
pub fn parse_basic_auth(auth: &str) -> (r: Result<Option<(String, String)>, String>)
    ensures
        auth@.len() == 0 ==> r matches Ok(None),
        auth@.len() > 0 ==> match (r, credentials_spec(auth@)) {
            (Ok(Some((u, p))), Some((su, sp))) => u@ == su && p@ == sp,
            (Err(e), None) => e@ == auth_format_error(),
            _ => false,
        },
{
    let a = chars_of(auth);
    if a.len() == 0 {
        return Ok(None);
    }
    let colon = [':'];
    assert(colon@ =~= seq![':']);
    match find_chars(a.as_slice(), &colon) {
        Some(i) => {
            let mut user = String::new();
            let mut pass = String::new();
            append_chars(&mut user, crate::text::slice_to_vec(a.as_slice(), 0, i).as_slice());
            append_chars(&mut pass, crate::text::slice_to_vec(a.as_slice(), i + 1, a.len()).as_slice());
            assert(a@.subrange(0, i as int) == a@.take(i as int));
            assert(a@.subrange(i + 1, a@.len() as int) == a@.skip(i + 1));
            Ok(Some((user, pass)))
        },
        None => Err(owned("Basic auth format should be 'username:password'")),
    }
}

/// The base64 alphabet of the standard engine.
pub open spec fn b64_char(i: int) -> char {
    if i < 26 {
        (65 + i) as char
    } else if i < 52 {
        (97 + i - 26) as char
    } else if i < 62 {
        (48 + i - 52) as char
    } else if i == 62 {
        '+'
    } else {
        '/'
    }
}

/// Standard base64 with padding: each three bytes become four characters, a final one
/// or two bytes become two or three characters followed by `=` padding.
pub open spec fn base64_spec(b: Seq<u8>) -> Seq<char>
    decreases b.len(),
{
    if b.len() == 0 {
        Seq::empty()
    } else if b.len() == 1 {
        seq![b64_char(b[0] as int / 4), b64_char((b[0] as int % 4) * 16), '=', '=']
    } else if b.len() == 2 {
        seq![
            b64_char(b[0] as int / 4),
            b64_char((b[0] as int % 4) * 16 + b[1] as int / 16),
            b64_char((b[1] as int % 16) * 4),
            '=',
        ]
    } else {
        seq![
            b64_char(b[0] as int / 4),
            b64_char((b[0] as int % 4) * 16 + b[1] as int / 16),
            b64_char((b[1] as int % 16) * 4 + b[2] as int / 64),
            b64_char(b[2] as int % 64),
        ] + base64_spec(b.skip(3))
    }
}

/// `base64::engine::general_purpose::STANDARD.encode` of the UTF-8 form of `s`.
#[verifier::external_body]
fn base64_encode(s: &str) -> (r: String)
    requires
        encode_utf8(s@).len() <= usize::MAX / 2,
    ensures
        r@ == base64_spec(encode_utf8(s@)),
{
    base64::engine::general_purpose::STANDARD.encode(s)
}

/// The `Authorization` value the command-line client sends: `Basic` and the base64 of
/// `user:password`, or nothing when the credentials are empty or have no `:`.
pub fn client_authorization(auth: &str) -> (r: Option<String>)
    requires
        encode_utf8(auth@).len() <= usize::MAX / 2,
    ensures
        auth@.len() == 0 || credentials_spec(auth@) is None ==> r is None,
        auth@.len() > 0 && credentials_spec(auth@) is Some ==> (r matches Some(v) && v@ == "Basic "@
            + base64_spec(encode_utf8(auth@))),
{
    match parse_basic_auth(auth) {
        Ok(Some((_user, _pass))) => {
            let mut v = owned("Basic ");
            let enc = base64_encode(auth);
            append_str(&mut v, enc.as_str());
            Some(v)
        },
        _ => None,
    }
}

/// Bytes `http::HeaderValue::from_str` accepts: 32 to 255 except 127, and tab.
pub open spec fn header_byte_ok(b: u8) -> bool {
    (b >= 32 && b != 127) || b == 9
}

/// `http::HeaderValue::from_str(s).is_ok()`: every UTF-8 byte of `s` is accepted.
#[verifier::external_body]
fn header_value_ok(s: &str) -> (r: bool)
    ensures
        r == forall|i: int| 0 <= i < encode_utf8(s@).len() ==> header_byte_ok(
            #[trigger] encode_utf8(s@)[i],
        ),
{
    reqwest::header::HeaderValue::from_str(s).is_ok()
}

/// The host name of this machine (`hostname::get`), when the system reports one.
/// Nothing is claimed of the name: it is whatever the operating system holds.
#[verifier::external_body]
fn system_hostname() -> (r: Option<String>) {
    hostname::get().ok().map(|n| n.to_string_lossy().to_string())
}

/// The host name to report given what the system gave: that name, or `unknown-host`
/// when it gave none.
pub fn hostname_or_unknown(reported: Option<String>) -> (r: String)
    ensures
        r@ == match reported {
            Some(n) => n@,
            None => "unknown-host"@,
        },
{
    match reported {
        Some(n) => n,
        None => owned("unknown-host"),
    }
}

/// The host name this machine reports, or `unknown-host` when it reports none.
pub fn local_hostname() -> (r: String) {
    let reported = system_hostname();
    hostname_or_unknown(reported)
}

/// The `X-Client-Hostname` value: the host name when a header may carry it, otherwise
/// `unknown-host`.
pub fn hostname_header(hostname: &str) -> (r: String)
    ensures
        (forall|i: int| 0 <= i < encode_utf8(hostname@).len() ==> header_byte_ok(
            #[trigger] encode_utf8(hostname@)[i],
        )) ==> r@ == hostname@,
        !(forall|i: int| 0 <= i < encode_utf8(hostname@).len() ==> header_byte_ok(
            #[trigger] encode_utf8(hostname@)[i],
        )) ==> r@ == "unknown-host"@,
{
    if header_value_ok(hostname) {
        owned(hostname)
    } else {
        owned("unknown-host")
    }
}

// ---------------------------------------------------------------------------
// Judging responses
// ---------------------------------------------------------------------------

/// The reason phrase `http::StatusCode::canonical_reason` gives for a status code.
pub uninterp spec fn reason_phrase(status: u16) -> Option<Seq<char>>;

/// `reqwest::StatusCode::from_u16(status)` and its `canonical_reason`. The phrase is a
/// function of the code; the table of phrases is not restated.
#[verifier::external_body]
fn canonical_reason(status: u16) -> (r: Option<String>)
    ensures
        match (r, reason_phrase(status)) {
            (Some(p), Some(q)) => p@ == q,
            (None, None) => true,
            _ => false,
        },
{
    reqwest::StatusCode::from_u16(status).ok().and_then(|s| s.canonical_reason()).map(
        |p| p.to_string(),
    )
}

/// The message for a status the server should not have answered with.
pub open spec fn server_error_message(status: u16) -> Seq<char> {
    "Server returned error: "@ + decimal(status as nat) + " "@ + match reason_phrase(status) {
        Some(p) => p,
        None => "Unknown"@,
    }
}

/// `Server returned error: <code> <reason>`.
pub fn server_error_text(status: u16) -> (r: String)
    ensures
        r@ == server_error_message(status),
{
    let mut r = owned("Server returned error: ");
    push_decimal(&mut r, status as u64);
    append_str(&mut r, " ");
    match canonical_reason(status) {
        Some(p) => append_str(&mut r, p.as_str()),
        None => append_str(&mut r, "Unknown"),
    }
    r
}

/// How the administration client judges a response status: 401 asks for credentials,
/// 3xx is taken for a login redirect, anything else outside 2xx is an error.
pub open spec fn status_check_spec(status: u16) -> Result<(), Seq<char>> {
    if status == 401 {
        Err("Authentication required. Please provide valid basic auth credentials."@)
    } else if 300 <= status < 400 {
        Err("Server redirects to login page. Authentication may be required."@)
    } else if !(200 <= status < 300) {
        Err(server_error_message(status))
    } else {
        Ok(())
    }
}

/// Judges a response status.
pub fn check_response_status(status: u16) -> (r: Result<(), String>)
    ensures
        match (r, status_check_spec(status)) {
            (Ok(()), Ok(())) => true,
            (Err(e), Err(f)) => e@ == f,
            _ => false,
        },
{
    if status == 401 {
        Err(owned("Authentication required. Please provide valid basic auth credentials."))
    } else if 300 <= status && status < 400 {
        Err(owned("Server redirects to login page. Authentication may be required."))
    } else if !(200 <= status && status < 300) {
        Err(server_error_text(status))
    } else {
        Ok(())
    }
}

/// The message for an HTML answer where JSON was expected.
pub open spec fn html_error_message() -> Seq<char> {
    "Server returned HTML page instead of JSON. This usually means authentication is required or the endpoint is incorrect."@
}

/// A body that, after leading whitespace, begins like an HTML page.
pub open spec fn looks_like_html(body: Seq<char>) -> bool {
    has_prefix(trim_start(body), "<!DOCTYPE"@) || has_prefix(trim_start(body), "<html"@)
}

/// Refuses a body that is an HTML page rather than JSON.
pub fn check_html_response(body: &str) -> (r: Result<(), String>)
    ensures
        looks_like_html(body@) ==> (r matches Err(e) && e@ == html_error_message()),
        !looks_like_html(body@) ==> r is Ok,
{
    let b = chars_of(body);
    let k = trim_start_index(b.as_slice());
    let rest = crate::text::slice_to_vec(b.as_slice(), k, b.len());
    assert(rest@ == b@.skip(k as int));
    let doctype = chars_of("<!DOCTYPE");
    let html = chars_of("<html");
    if starts_with_chars(rest.as_slice(), doctype.as_slice()) || starts_with_chars(
        rest.as_slice(),
        html.as_slice(),
    ) {
        Err(owned(
            "Server returned HTML page instead of JSON. This usually means authentication is required or the endpoint is incorrect.",
        ))
    } else {
        Ok(())
    }
}

/// The text of the string member `field` of the JSON object `body`
/// (`serde_json::from_str::<Value>`, `Value::get`, `Value::as_str`).
pub uninterp spec fn json_text_field(body: Seq<char>, field: Seq<char>) -> Option<Seq<char>>;

/// The error text `serde_json::from_str::<Value>` reports for `body`, if it is not JSON.
pub uninterp spec fn json_error(body: Seq<char>) -> Option<Seq<char>>;

/// The number of elements of `body` read as a JSON array
/// (`serde_json::from_str::<Vec<Value>>`), if it is one.
pub uninterp spec fn json_array_length(body: Seq<char>) -> Option<nat>;

/// Parses `body` as JSON and reads the string member `field`. The result is a function
/// of the two texts; JSON syntax is not restated, beyond that an object is not blank
/// text (it holds at least its opening brace).
#[verifier::external_body]
fn json_string_member(body: &str, field: &str) -> (r: Option<String>)
    ensures
        match (r, json_text_field(body@, field@)) {
            (Some(v), Some(w)) => v@ == w,
            (None, None) => true,
            _ => false,
        },
        r is Some ==> trim(body@).len() > 0,
{
    serde_json::from_str::<serde_json::Value>(body).ok().and_then(
        |v| v.get(field).and_then(|m| m.as_str()).map(|m| m.to_string()),
    )
}

/// Parses `body` as JSON and gives the parser's error text when that fails. The text
/// is a function of the body; JSON syntax is not restated, beyond that blank text is
/// no JSON value.
#[verifier::external_body]
fn json_parse_error(body: &str) -> (r: Option<String>)
    ensures
        match (r, json_error(body@)) {
            (Some(v), Some(w)) => v@ == w,
            (None, None) => true,
            _ => false,
        },
        trim(body@).len() == 0 ==> r is Some,
{
    serde_json::from_str::<serde_json::Value>(body).err().map(|e| e.to_string())
}

/// Parses `body` as a JSON array and gives its length. The result is a function of the
/// body; JSON syntax is not restated, beyond that an array is not blank text (it holds
/// at least its opening bracket).
#[verifier::external_body]
fn json_array_len(body: &str) -> (r: Option<usize>)
    ensures
        match (r, json_array_length(body@)) {
            (Some(v), Some(w)) => v == w,
            (None, None) => true,
            _ => false,
        },
        r is Some ==> trim(body@).len() > 0,
{
    serde_json::from_str::<Vec<serde_json::Value>>(body).ok().map(|v| v.len())
}

/// The message of an API answer: its `message` member, or the given default when the
/// body is not JSON or has no such member.
pub fn parse_api_response(body: &str, default_message: &str) -> (r: Result<String, String>)
    ensures
        r matches Ok(m) && m@ == match json_text_field(body@, "message"@) {
            Some(t) => t,
            None => default_message@,
        },
{
    match json_string_member(body, "message") {
        Some(m) => Ok(m),
        None => Ok(owned(default_message)),
    }
}

/// The server version in a version answer: its `version` member, `unknown` when that is
/// missing, and an error when the body is not JSON.
pub fn version_from_body(body: &str) -> (r: Result<String, String>)
    ensures
        match json_error(body@) {
            Some(e) => r matches Err(m) && m@ == "Failed to parse version: "@ + e,
            None => r matches Ok(v) && v@ == match json_text_field(body@, "version"@) {
                Some(t) => t,
                None => "unknown"@,
            },
        },
{
    match json_parse_error(body) {
        Some(e) => {
            let mut m = owned("Failed to parse version: ");
            append_str(&mut m, e.as_str());
            Err(m)
        },
        None => match json_string_member(body, "version") {
            Some(v) => Ok(v),
            None => Ok(owned("unknown")),
        },
    }
}

// ---------------------------------------------------------------------------
// Messages
// ---------------------------------------------------------------------------

/// The message after a successful connection test of the desktop client.
pub open spec fn found_message_spec(count: nat, flow: Seq<char>) -> Seq<char> {
    "Found "@ + decimal(count) + " SSH keys from flow '"@ + flow + "'"@
}

/// `Found <n> SSH keys from flow '<flow>'`.
pub fn found_keys_message(count: usize, flow: &str) -> (r: String)
    ensures
        r@ == found_message_spec(count as nat, flow@),
{
    let mut r = owned("Found ");
    push_decimal(&mut r, count as u64);
    append_str(&mut r, " SSH keys from flow '");
    append_str(&mut r, flow);
    append_str(&mut r, "'");
    r
}

/// `Connection successful! Found <n> SSH keys from flow '<flow>'` (web console).
pub fn connection_success_message(count: usize, flow: &str) -> (r: String)
    ensures
        r@ == "Connection successful! "@ + found_message_spec(count as nat, flow@),
{
    let mut r = owned("Connection successful! ");
    let m = found_keys_message(count, flow);
    append_str(&mut r, m.as_str());
    r
}

/// The message after a successful synchronisation.
pub open spec fn sync_message_spec(count: nat) -> Seq<char> {
    "Sync completed successfully with "@ + decimal(count) + " keys"@
}

/// `Sync completed successfully with <n> keys`, or the error text of a failed sync.
pub fn manual_sync_result(outcome: Result<usize, String>) -> (r: Result<String, String>)
    ensures
        match outcome {
            Ok(n) => r matches Ok(m) && m@ == sync_message_spec(n as nat),
            Err(e) => r matches Err(m) && m@ == e@,
        },
{
    match outcome {
        Ok(n) => {
            let mut m = owned("Sync completed successfully with ");
            push_decimal(&mut m, n as u64);
            append_str(&mut m, " keys");
            Ok(m)
        },
        Err(e) => Err(e),
    }
}

/// Refuses a request whose address or flow is missing, with the given message.
pub fn require_fields(first: &str, second: Option<&str>, message: &str) -> (r: Result<(), String>)
    ensures
        (first@.len() == 0 || (second matches Some(s) && s@.len() == 0)) ==> (r matches Err(m)
            && m@ == message@),
        !(first@.len() == 0 || (second matches Some(s) && s@.len() == 0)) ==> r is Ok,
{
    let missing = first.is_empty() || match second {
        Some(s) => s.is_empty(),
        None => false,
    };
    if missing {
        Err(owned(message))
    } else {
        Ok(())
    }
}

/// The lines of a text answer that count as keys: not blank, not starting with `#`.
pub open spec fn key_lines_spec(ls: Seq<Seq<char>>) -> nat
    decreases ls.len(),
{
    if ls.len() == 0 {
        0
    } else {
        key_lines_spec(ls.drop_last()) + if trim(ls.last()).len() > 0 && !has_prefix(
            ls.last(),
            seq!['#'],
        ) {
            1nat
        } else {
            0nat
        }
    }
}

/// Counts the lines of a text that are neither blank nor comments.
pub fn count_key_lines(body: &str) -> (r: usize)
    ensures
        r == key_lines_spec(crate::text::lines(body@)),
{
    let b = chars_of(body);
    let ls = crate::text::split_lines(b.as_slice());
    let ghost lv = crate::text::char_seqs(ls@);
    let mut n: usize = 0;
    let mut i: usize = 0;
    let hash = ['#'];
    assert(hash@ =~= seq!['#']);
    while i < ls.len()
        invariant
            i <= ls.len(),
            lv == crate::text::char_seqs(ls@),
            hash@ == seq!['#'],
            n == key_lines_spec(lv.take(i as int)),
            n <= i,
        decreases ls.len() - i,
    {
        assert(lv.take(i as int + 1).drop_last() =~= lv.take(i as int));
        assert(lv.take(i as int + 1).last() == ls@[i as int]@);
        let t = trimmed(ls[i].as_slice());
        if t.len() > 0 && !starts_with_chars(ls[i].as_slice(), &hash) {
            n = n + 1;
        }
        i = i + 1;
    }
    assert(lv.take(ls@.len() as int) =~= lv);
    n
}

/// The answer of the settings window's connection test, from the body of a successful
/// response: a JSON array of keys, or failing that a text with one key per line.
pub open spec fn khm_test_spec(body: Seq<char>, flow: Seq<char>) -> Result<Seq<char>, Seq<char>> {
    if trim(body).len() == 0 {
        Err("Server returned empty response"@)
    } else {
        match json_array_length(body) {
            Some(n) => if n == 0 {
                Err("No SSH keys found in response"@)
            } else {
                Ok("Connection successful! Found "@ + decimal(n) + " SSH keys in flow '"@ + flow + "'"@)
            },
            None => {
                let n = key_lines_spec(crate::text::lines(body));
                if n == 0 {
                    Err("Invalid response format - not JSON array or SSH keys text"@)
                } else {
                    Ok("Connection successful! Found "@ + decimal(n) + " SSH keys in flow '"@ + flow
                        + "'"@)
                }
            },
        }
    }
}

/// Judges the body of a successful connection test of the settings window.
pub fn khm_test_result(body: &str, flow: &str) -> (r: Result<String, String>)
    ensures
        match (r, khm_test_spec(body@, flow@)) {
            (Ok(m), Ok(s)) => m@ == s,
            (Err(m), Err(s)) => m@ == s,
            _ => false,
        },
{
    let b = chars_of(body);
    let t = trimmed(b.as_slice());
    if t.len() == 0 {
        return Err(owned("Server returned empty response"));
    }
    let n = match json_array_len(body) {
        Some(n) => {
            if n == 0 {
                return Err(owned("No SSH keys found in response"));
            }
            n
        },
        None => {
            let n = count_key_lines(body);
            if n == 0 {
                return Err(owned("Invalid response format - not JSON array or SSH keys text"));
            }
            n
        },
    };
    let mut m = owned("Connection successful! Found ");
    push_decimal(&mut m, n as u64);
    append_str(&mut m, " SSH keys in flow '");
    append_str(&mut m, flow);
    append_str(&mut m, "'");
    Ok(m)
}

/// The message shown after an action on one host's keys when the server's answer
/// carries none.
pub open spec fn host_action_default_spec(action: HostAction, server: Seq<char>) -> Seq<char> {
    let head = match action {
        HostAction::Deprecate => "Successfully deprecated key for server '"@,
        HostAction::Restore => "Successfully restored key for server '"@,
        HostAction::Delete => "Successfully deleted key for server '"@,
    };
    head + server + "'"@
}

/// `Successfully deprecated key for server '<server>'` and its restore and delete
/// forms.
pub fn host_action_default_message(action: HostAction, server: &str) -> (r: String)
    ensures
        r@ == host_action_default_spec(action, server@),
{
    let mut r = match action {
        HostAction::Deprecate => owned("Successfully deprecated key for server '"),
        HostAction::Restore => owned("Successfully restored key for server '"),
        HostAction::Delete => owned("Successfully deleted key for server '"),
    };
    append_str(&mut r, server);
    append_str(&mut r, "'");
    r
}

/// The message shown after a bulk action when the server's answer carries none.
pub fn bulk_default_message(restore: bool) -> (r: String)
    ensures
        r@ == if restore {
            "Successfully restored servers"@
        } else {
            "Successfully deprecated servers"@
        },
{
    if restore {
        owned("Successfully restored servers")
    } else {
        owned("Successfully deprecated servers")
    }
}

} // verus!
