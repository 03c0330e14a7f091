//! The decisions of the key server: which keys a client receives, how a submission of
//! keys is checked and answered, and which flows exist at start-up.
use vstd::prelude::*;
use crate::db::{stats_key_ids, KeyInsertStats};
use crate::keys::{
    copy_keys, find_invalid_key, flows_view, keys_view, valid_key_spec, Flow, FlowView, KeyView, SshKey,
};
use crate::text::{append_str, contains_str, owned, str_eq};

verus! {

/// Why a request for a flow's keys is refused.
#[derive(Clone, Copy, Debug, PartialEq, Eq)]
pub enum FlowRequestError {
    /// The flow is not among those the server manages (403).
    NotAllowed,
    /// The flow is managed but holds nothing yet (404).
    NotFound,
}

impl FlowRequestError {
    /// The response body sent with the refusal.
    pub fn message(&self) -> (r: String)
        ensures
            r@ == match self {
                FlowRequestError::NotAllowed => "Flow ID not allowed"@,
                FlowRequestError::NotFound => "Flow ID not found"@,
            },
    {
        match self {
            FlowRequestError::NotAllowed => owned("Flow ID not allowed"),
            FlowRequestError::NotFound => owned("Flow ID not found"),
        }
    }
}

/// `name` is among the allowed flow names.
pub open spec fn allowed_spec(allowed: Seq<String>, name: Seq<char>) -> bool {
    exists|i: int| 0 <= i < allowed.len() && (#[trigger] allowed[i])@ == name
}

/// The first flow with the given name.
pub open spec fn find_flow_spec(flows: Seq<FlowView>, name: Seq<char>) -> Option<int> {
    if exists|i: int| 0 <= i < flows.len() && flows[i].name == name {
        Some(
            choose|i: int|
                0 <= i < flows.len() && flows[i].name == name && forall|j: int|
                    0 <= j < i ==> (#[trigger] flows[j]).name != name,
        )
    } else {
        None
    }
}

/// The first flow with the given name.
pub fn find_flow(flows: &Vec<Flow>, name: &str) -> (r: Option<usize>)
    ensures
        r matches Some(i) ==> i < flows.len() && find_flow_spec(flows_view(flows@), name@) == Some(
            i as int,
        ) && flows@[i as int]@.name == name@,
        r is None ==> find_flow_spec(flows_view(flows@), name@) is None,
{
    let ghost fv = flows_view(flows@);
    let mut i: usize = 0;
    while i < flows.len()
        invariant
            i <= flows.len(),
            fv == flows_view(flows@),
            forall|j: int| 0 <= j < i ==> (#[trigger] fv[j]).name != name@,
        decreases flows.len() - i,
    {
        assert(fv[i as int] == flows@[i as int]@);
        if str_eq(flows[i].name.as_str(), name) {
            proof {
                let c = choose|c: int|
                    0 <= c < fv.len() && fv[c].name == name@ && forall|j: int|
                        0 <= j < c ==> (#[trigger] fv[j]).name != name@;
                if c > i {
                    assert(fv[i as int].name != name@);
                }
            }
            return Some(i);
        }
        i = i + 1;
    }
    None
}

/// The keys of a list that are not retired, in order.
pub open spec fn active_spec(keys: Seq<KeyView>) -> Seq<KeyView>
    decreases keys.len(),
{
    if keys.len() == 0 {
        Seq::empty()
    } else if keys.last().deprecated {
        active_spec(keys.drop_last())
    } else {
        active_spec(keys.drop_last()).push(keys.last())
    }
}

/// A client that does not ask for retired keys receives none, and receives every
/// active key: the active keys and the retired ones together are all the keys.
pub proof fn lemma_active_keys_only(keys: Seq<KeyView>)
    ensures
        forall|i: int|
            0 <= i < active_spec(keys).len() ==> !(#[trigger] active_spec(keys)[i]).deprecated,
        active_spec(keys).len() + crate::web::retired_spec(keys) == keys.len(),
    decreases keys.len(),
{
    if keys.len() > 0 {
        lemma_active_keys_only(keys.drop_last());
    }
}

/// The keys a client receives without asking for retired ones are exactly the
/// non-retired keys of the flow, each as it is stored, in the flow's order.
pub proof fn lemma_active_keys_are_the_unretired(keys: Seq<KeyView>)
    ensures
        active_spec(keys) == keys.filter(|k: KeyView| !k.deprecated),
    decreases keys.len(),
{
    let p = |k: KeyView| !k.deprecated;
    if keys.len() > 0 {
        lemma_active_keys_are_the_unretired(keys.drop_last());
        assert(keys =~= keys.drop_last().push(keys.last()));
        keys.drop_last().lemma_filter_push(keys.last(), p);
    } else {
        assert(keys.filter(p) =~= Seq::<KeyView>::empty());
    }
}

/// The keys of a list that are not retired.
pub fn active_keys(keys: &Vec<SshKey>) -> (r: Vec<SshKey>)
    ensures
        keys_view(r@) == active_spec(keys_view(keys@)),
{
    let mut r: Vec<SshKey> = Vec::new();
    let mut i: usize = 0;
    while i < keys.len()
        invariant
            i <= keys.len(),
            keys_view(r@) == active_spec(keys_view(keys@).take(i as int)),
        decreases keys.len() - i,
    {
        let ghost t = keys_view(keys@).take(i as int + 1);
        assert(t.drop_last() =~= keys_view(keys@).take(i as int));
        assert(t.last() == keys@[i as int]@);
        if !keys[i].deprecated {
            let ghost before = keys_view(r@);
            let k = keys[i].duplicate();
            r.push(k);
            assert(keys_view(r@) =~= before.push(k@));
        }
        i = i + 1;
    }
    assert(keys_view(keys@).take(keys@.len() as int) =~= keys_view(keys@));
    r
}

/// What a request for a flow's keys is answered: refused when the flow is not allowed
/// or not present; otherwise the flow's keys, retired ones only when asked for.
pub open spec fn flow_keys_spec(
    flows: Seq<FlowView>,
    allowed: Seq<String>,
    flow_id: Seq<char>,
    include_deprecated: bool,
) -> Result<Seq<KeyView>, FlowRequestError> {
    if !allowed_spec(allowed, flow_id) {
        Err(FlowRequestError::NotAllowed)
    } else {
        match find_flow_spec(flows, flow_id) {
            None => Err(FlowRequestError::NotFound),
            Some(i) => Ok(
                if include_deprecated {
                    flows[i].servers
                } else {
                    active_spec(flows[i].servers)
                },
            ),
        }
    }
}

/// The keys a client receives for a flow (`GET /{flow}/keys`).
pub fn select_flow_keys(
    flows: &Vec<Flow>,
    allowed: &Vec<String>,
    flow_id: &str,
    include_deprecated: bool,
) -> (r: Result<Vec<SshKey>, FlowRequestError>)
    ensures
        match (r, flow_keys_spec(flows_view(flows@), allowed@, flow_id@, include_deprecated)) {
            (Ok(v), Ok(s)) => keys_view(v@) == s,
            (Err(e), Err(f)) => e == f,
            _ => false,
        },
{
    if !contains_str(allowed, flow_id) {
        return Err(FlowRequestError::NotAllowed);
    }
    match find_flow(flows, flow_id) {
        None => Err(FlowRequestError::NotFound),
        Some(i) => {
            assert(flows_view(flows@)[i as int] == flows@[i as int]@);
            if include_deprecated {
                Ok(copy_keys(&flows[i].servers))
            } else {
                Ok(active_keys(&flows[i].servers))
            }
        },
    }
}

/// Whether the `include_deprecated` query parameter asks for retired keys: only the
/// exact value `true` does.
pub fn include_deprecated_flag(value: Option<&str>) -> (r: bool)
    ensures
        r == match value {
            Some(v) => v@ == "true"@,
            None => false,
        },
{
    match value {
        Some(v) => str_eq(v, "true"),
        None => false,
    }
}

/// The host name a client reported, or `unknown-client`.
pub fn client_hostname(header: Option<&str>) -> (r: String)
    ensures
        r@ == match header {
            Some(h) => h@,
            None => "unknown-client"@,
        },
{
    match header {
        Some(h) => owned(h),
        None => owned("unknown-client"),
    }
}

// ---------------------------------------------------------------------------
// Submitting keys
// ---------------------------------------------------------------------------

/// How a key submission (`POST /{flow}/keys`) is answered.
#[derive(Debug)]
pub enum AddKeysReply {
    /// 403: the flow is not managed.
    Forbidden,
    /// 400: a key is not in an accepted format; the host of the first such key.
    InvalidKey(String),
    /// 500: storing the keys failed.
    InsertFailed,
    /// 500: associating the keys with the flow failed.
    AssociateFailed,
    /// 500: reloading the flows failed.
    ReloadFailed,
    /// 404: the flow is absent after the update.
    FlowMissing,
    /// 200: the flow's keys, with the batch statistics for the response headers.
    Accepted { keys: Vec<SshKey>, total: usize, inserted: usize, unchanged: usize },
}

/// What the server does next while handling a key submission.
#[derive(Debug)]
pub enum AddKeysStep {
    /// Send this answer; the request is finished.
    Reply(AddKeysReply),
    /// Store these keys in one batch and report the statistics.
    StoreKeys(Vec<SshKey>),
    /// Associate these key ids with the flow.
    AssociateKeys(Vec<i32>),
    /// Reload all flows from the database.
    ReloadFlows,
}

/// The first step of a key submission: refuse a flow that is not managed, refuse the
/// batch if any key is not in an accepted format (naming the first such host), and
/// otherwise store every submitted key.
pub fn add_keys_begin(allowed: &Vec<String>, flow_id: &str, keys: &Vec<SshKey>) -> (r: AddKeysStep)
    ensures
        !allowed_spec(allowed@, flow_id@) ==> r matches AddKeysStep::Reply(AddKeysReply::Forbidden),
        allowed_spec(allowed@, flow_id@) ==> match r {
            AddKeysStep::Reply(AddKeysReply::InvalidKey(host)) => exists|i: int|
                0 <= i < keys.len() && !valid_key_spec(keys@[i]@.public_key) && host@
                    == keys@[i]@.server && forall|j: int|
                    0 <= j < i ==> valid_key_spec(#[trigger] keys@[j]@.public_key),
            AddKeysStep::StoreKeys(v) => keys_view(v@) == keys_view(keys@) && forall|j: int|
                0 <= j < keys.len() ==> valid_key_spec(#[trigger] keys@[j]@.public_key),
            _ => false,
        },
{
    if !contains_str(allowed, flow_id) {
        return AddKeysStep::Reply(AddKeysReply::Forbidden);
    }
    match find_invalid_key(keys) {
        Some(i) => AddKeysStep::Reply(AddKeysReply::InvalidKey(keys[i].server.clone())),
        None => AddKeysStep::StoreKeys(copy_keys(keys)),
    }
}

/// The step after storing: a failure is answered with an error; otherwise every stored
/// key id, new or already known, is associated with the flow, and an empty batch goes
/// straight to reloading.
pub fn add_keys_after_store(stored: &Result<KeyInsertStats, String>) -> (r: AddKeysStep)
    ensures
        match stored {
            Err(_) => r matches AddKeysStep::Reply(AddKeysReply::InsertFailed),
            Ok(stats) => if stats.key_id_map@.len() > 0 {
                r matches AddKeysStep::AssociateKeys(ids) && ids@ == stats.key_id_map@.map_values(
                    |p: (SshKey, i32)| p.1,
                )
            } else {
                r matches AddKeysStep::ReloadFlows
            },
        },
{
    match stored {
        Err(_) => AddKeysStep::Reply(AddKeysReply::InsertFailed),
        Ok(stats) => {
            if stats.key_id_map.len() > 0 {
                AddKeysStep::AssociateKeys(stats_key_ids(stats))
            } else {
                AddKeysStep::ReloadFlows
            }
        },
    }
}

/// The step after associating: a failure is answered with an error, success reloads.
pub fn add_keys_after_associate(associated: &Result<usize, String>) -> (r: AddKeysStep)
    ensures
        associated is Err ==> r matches AddKeysStep::Reply(AddKeysReply::AssociateFailed),
        associated is Ok ==> r matches AddKeysStep::ReloadFlows,
{
    match associated {
        Err(_) => AddKeysStep::Reply(AddKeysReply::AssociateFailed),
        Ok(_) => AddKeysStep::ReloadFlows,
    }
}

/// The answer after reloading: an error when reloading failed, otherwise all keys of
/// the flow (retired ones too) with the batch statistics, or 404 when the flow is gone.
pub fn add_keys_finish(reloaded: &Result<Vec<Flow>, String>, flow_id: &str, stats: &KeyInsertStats) -> (r:
    AddKeysReply)
    ensures
        match reloaded {
            Err(_) => r matches AddKeysReply::ReloadFailed,
            Ok(flows) => match find_flow_spec(flows_view(flows@), flow_id@) {
                None => r matches AddKeysReply::FlowMissing,
                Some(i) => r matches AddKeysReply::Accepted { keys, total, inserted, unchanged }
                    && keys_view(keys@) == flows_view(flows@)[i].servers && total == stats.total
                    && inserted == stats.inserted && unchanged == stats.unchanged,
            },
        },
{
    match reloaded {
        Err(_) => AddKeysReply::ReloadFailed,
        Ok(flows) => match find_flow(flows, flow_id) {
            None => AddKeysReply::FlowMissing,
            Some(i) => {
                assert(flows_view(flows@)[i as int] == flows@[i as int]@);
                AddKeysReply::Accepted {
                    keys: copy_keys(&flows[i].servers),
                    total: stats.total,
                    inserted: stats.inserted,
                    unchanged: stats.unchanged,
                }
            },
        },
    }
}

impl AddKeysReply {
    /// The HTTP status code of the answer.
    pub fn status(&self) -> (r: u16)
        ensures
            r == match self {
                AddKeysReply::Forbidden => 403u16,
                AddKeysReply::InvalidKey(_) => 400u16,
                AddKeysReply::InsertFailed => 500u16,
                AddKeysReply::AssociateFailed => 500u16,
                AddKeysReply::ReloadFailed => 500u16,
                AddKeysReply::FlowMissing => 404u16,
                AddKeysReply::Accepted { .. } => 200u16,
            },
    {
        match self {
            AddKeysReply::Forbidden => 403,
            AddKeysReply::InvalidKey(_) => 400,
            AddKeysReply::InsertFailed => 500,
            AddKeysReply::AssociateFailed => 500,
            AddKeysReply::ReloadFailed => 500,
            AddKeysReply::FlowMissing => 404,
            AddKeysReply::Accepted { .. } => 200,
        }
    }

    /// The body text of an error answer (empty for an accepted one, whose body is the
    /// key list).
    pub fn message(&self) -> (r: String)
        ensures
            r@ == match self {
                AddKeysReply::Forbidden => "Flow ID not allowed"@,
                AddKeysReply::InvalidKey(host) => "Invalid SSH key format for server: "@ + host@,
                AddKeysReply::InsertFailed => "Failed to batch insert keys into database"@,
                AddKeysReply::AssociateFailed => "Failed to batch insert flow keys into database"@,
                AddKeysReply::ReloadFailed => "Failed to refresh flows from database"@,
                AddKeysReply::FlowMissing => "Flow ID not found"@,
                AddKeysReply::Accepted { .. } => Seq::<char>::empty(),
            },
    {
        match self {
            AddKeysReply::Forbidden => owned("Flow ID not allowed"),
            AddKeysReply::InvalidKey(host) => {
                let mut r = owned("Invalid SSH key format for server: ");
                append_str(&mut r, host.as_str());
                r
            },
            AddKeysReply::InsertFailed => owned("Failed to batch insert keys into database"),
            AddKeysReply::AssociateFailed => owned("Failed to batch insert flow keys into database"),
            AddKeysReply::ReloadFailed => owned("Failed to refresh flows from database"),
            AddKeysReply::FlowMissing => owned("Flow ID not found"),
            AddKeysReply::Accepted { .. } => String::new(),
        }
    }
}

// ---------------------------------------------------------------------------
// Start-up
// ---------------------------------------------------------------------------

/// The flows after start-up: the stored flows, then an empty flow for each allowed
/// name that has none, in the order of the allowed names.
pub open spec fn ensure_flows_spec(flows: Seq<FlowView>, allowed: Seq<Seq<char>>) -> Seq<FlowView>
    decreases allowed.len(),
{
    if allowed.len() == 0 {
        flows
    } else {
        let prev = ensure_flows_spec(flows, allowed.drop_last());
        if exists|i: int| 0 <= i < prev.len() && prev[i].name == allowed.last() {
            prev
        } else {
            prev.push(FlowView { name: allowed.last(), servers: Seq::empty() })
        }
    }
}

/// Adds an empty flow for every allowed name that has none yet.
pub fn ensure_allowed_flows(flows: Vec<Flow>, allowed: &Vec<String>) -> (r: Vec<Flow>)
    ensures
        flows_view(r@) == ensure_flows_spec(
            flows_view(flows@),
            allowed@.map_values(|s: String| s@),
        ),
{
    let mut r = flows;
    let ghost start = flows_view(r@);
    let ghost names = allowed@.map_values(|s: String| s@);
    let mut i: usize = 0;
    while i < allowed.len()
        invariant
            i <= allowed.len(),
            names == allowed@.map_values(|s: String| s@),
            flows_view(r@) == ensure_flows_spec(start, names.take(i as int)),
        decreases allowed.len() - i,
    {
        let ghost t = names.take(i as int + 1);
        assert(t.drop_last() =~= names.take(i as int));
        assert(t.last() == allowed@[i as int]@);
        let ghost before = flows_view(r@);
        match find_flow(&r, allowed[i].as_str()) {
            Some(p) => {
                assert(before[p as int].name == allowed@[i as int]@);
            },
            None => {
                let servers: Vec<SshKey> = Vec::new();
                assert(keys_view(servers@) =~= Seq::<KeyView>::empty());
                let f = Flow { name: allowed[i].clone(), servers };
                r.push(f);
                assert(flows_view(r@) =~= before.push(
                    FlowView { name: allowed@[i as int]@, servers: Seq::empty() },
                ));
            },
        }
        i = i + 1;
    }
    assert(names.take(allowed@.len() as int) =~= names);
    r
}

/// After start-up every allowed name has a flow, and the stored flows come first,
/// unchanged.
pub proof fn lemma_ensure_flows(flows: Seq<FlowView>, allowed: Seq<Seq<char>>)
    ensures
        forall|k: int|
            0 <= k < allowed.len() ==> exists|i: int|
                0 <= i < ensure_flows_spec(flows, allowed).len() && (#[trigger] ensure_flows_spec(
                    flows,
                    allowed,
                )[i]).name == #[trigger] allowed[k],
        ensure_flows_spec(flows, allowed).len() >= flows.len(),
        ensure_flows_spec(flows, allowed).take(flows.len() as int) == flows,
    decreases allowed.len(),
{
    if allowed.len() > 0 {
        let init = allowed.drop_last();
        lemma_ensure_flows(flows, init);
        let prev = ensure_flows_spec(flows, init);
        let res = ensure_flows_spec(flows, allowed);
        assert forall|k: int| #![trigger allowed[k]] 0 <= k < allowed.len() implies exists|i: int|
            0 <= i < res.len() && (#[trigger] res[i]).name == allowed[k] by {
            if k < allowed.len() - 1 {
                assert(allowed[k] == init[k]);
                let i = choose|i: int| 0 <= i < prev.len() && (#[trigger] prev[i]).name == init[k];
                assert(res[i] == prev[i]);
            } else {
                if exists|i: int| 0 <= i < prev.len() && prev[i].name == allowed.last() {
                    let i = choose|i: int| 0 <= i < prev.len() && prev[i].name == allowed.last();
                    assert(res[i].name == allowed[k]);
                } else {
                    assert(res[prev.len() as int].name == allowed[k]);
                }
            }
        }
        assert(res.take(flows.len() as int) =~= prev.take(flows.len() as int));
    } else {
        assert(flows.take(flows.len() as int) =~= flows);
    }
}

/// The database connection string of the server.
pub fn connection_string(host: &str, user: &str, password: &str, dbname: &str) -> (r: String)
    ensures
        r@ == "host="@ + host@ + " user="@ + user@ + " password="@ + password@ + " dbname="@ + dbname@,
{
    let mut r = owned("host=");
    append_str(&mut r, host);
    append_str(&mut r, " user=");
    append_str(&mut r, user);
    append_str(&mut r, " password=");
    append_str(&mut r, password);
    append_str(&mut r, " dbname=");
    append_str(&mut r, dbname);
    r
}

} // verus!
