//! The decisions of the key store: which SQL is sent for a batch, how a batch of
//! submitted keys divides into new, unchanged and retired keys, how the rows that come
//! back are matched to keys, and how stored rows group into flows.
use vstd::prelude::*;
use crate::keys::{keys_view, KeyView, SshKey, Flow, FlowView, flows_view};
use crate::text::{append_str, chars_eq, chars_of, contains, contains_chars, decimal, owned, push_decimal, str_eq};

verus! {

/// Statistics of one batch insertion of keys.
pub struct KeyInsertStats {
    /// Number of keys received.
    pub total: usize,
    /// Number of keys newly stored.
    pub inserted: usize,
    /// Number of keys that were already stored and are active.
    pub unchanged: usize,
    /// Each stored key with its database id: unchanged keys first, then new ones.
    pub key_id_map: Vec<(SshKey, i32)>,
}

/// A key paired with its database id, as values.
pub open spec fn pairs_view(v: Seq<(SshKey, i32)>) -> Seq<(KeyView, i32)> {
    v.map_values(|p: (SshKey, i32)| (p.0@, p.1))
}

/// A stored key row returned by the lookup query.
#[derive(Clone, Debug)]
pub struct StoredKeyRow {
    pub host: String,
    pub key: String,
    pub key_id: i32,
    pub deprecated: bool,
}

/// The value of a [`StoredKeyRow`].
pub struct StoredKeyRowView {
    pub host: Seq<char>,
    pub key: Seq<char>,
    pub key_id: i32,
    pub deprecated: bool,
}

impl View for StoredKeyRow {
    type V = StoredKeyRowView;

    open spec fn view(&self) -> StoredKeyRowView {
        StoredKeyRowView {
            host: self.host@,
            key: self.key@,
            key_id: self.key_id,
            deprecated: self.deprecated,
        }
    }
}

/// A row returned by the insertion query: the new id with the host and key.
#[derive(Clone, Debug)]
pub struct InsertedKeyRow {
    pub key_id: i32,
    pub host: String,
    pub key: String,
}

/// The value of an [`InsertedKeyRow`].
pub struct InsertedKeyRowView {
    pub key_id: i32,
    pub host: Seq<char>,
    pub key: Seq<char>,
}

impl View for InsertedKeyRow {
    type V = InsertedKeyRowView;

    open spec fn view(&self) -> InsertedKeyRowView {
        InsertedKeyRowView { key_id: self.key_id, host: self.host@, key: self.key@ }
    }
}

/// A row of the join of keys and flows: host, key, retired flag and flow name.
#[derive(Clone, Debug)]
pub struct FlowKeyRow {
    pub host: String,
    pub key: String,
    pub deprecated: bool,
    pub flow: String,
}

/// The value of a [`FlowKeyRow`].
pub struct FlowKeyRowView {
    pub host: Seq<char>,
    pub key: Seq<char>,
    pub deprecated: bool,
    pub flow: Seq<char>,
}

impl View for FlowKeyRow {
    type V = FlowKeyRowView;

    open spec fn view(&self) -> FlowKeyRowView {
        FlowKeyRowView {
            host: self.host@,
            key: self.key@,
            deprecated: self.deprecated,
            flow: self.flow@,
        }
    }
}

// ---------------------------------------------------------------------------
// SQL text
// ---------------------------------------------------------------------------

/// The kinds of repeated item in the batch statements.
pub enum SqlItem {
    /// `(host = $a AND key = $b)` for the key lookup.
    KeyMatch,
    /// `($a, $b, NOW())` for the key insertion.
    KeyValues,
    /// `$n` for the flow-association lookup.
    FlowKeyId,
    /// `($1, $n)` for the flow-association insertion.
    FlowValues,
}

/// The text of item `i` of the given kind.
pub open spec fn item_spec(kind: SqlItem, i: nat) -> Seq<char> {
    match kind {
        SqlItem::KeyMatch => "(host = $"@ + decimal(2 * i + 1) + " AND key = $"@ + decimal(2 * i + 2)
            + ")"@,
        SqlItem::KeyValues => "($"@ + decimal(2 * i + 1) + ", $"@ + decimal(2 * i + 2) + ", NOW())"@,
        SqlItem::FlowKeyId => "$"@ + decimal(i + 2),
        SqlItem::FlowValues => "($1, $"@ + decimal(i + 2) + ")"@,
    }
}

/// Items `0..n` of a kind, separated by `sep`.
pub open spec fn items_spec(kind: SqlItem, n: nat, sep: Seq<char>) -> Seq<char>
    decreases n,
{
    if n == 0 {
        Seq::empty()
    } else if n == 1 {
        item_spec(kind, 0)
    } else {
        items_spec(kind, (n - 1) as nat, sep) + sep + item_spec(kind, (n - 1) as nat)
    }
}

/// Appends item `i` of the given kind.
fn push_item(s: &mut String, kind: &SqlItem, i: u64)
    requires
        i < 0x4000_0000_0000_0000,
    ensures
        final(s)@ == old(s)@ + item_spec(*kind, i as nat),
{
    match kind {
        SqlItem::KeyMatch => {
            append_str(s, "(host = $");
            push_decimal(s, 2 * i + 1);
            append_str(s, " AND key = $");
            push_decimal(s, 2 * i + 2);
            append_str(s, ")");
        },
        SqlItem::KeyValues => {
            append_str(s, "($");
            push_decimal(s, 2 * i + 1);
            append_str(s, ", $");
            push_decimal(s, 2 * i + 2);
            append_str(s, ", NOW())");
        },
        SqlItem::FlowKeyId => {
            append_str(s, "$");
            push_decimal(s, i + 2);
        },
        SqlItem::FlowValues => {
            append_str(s, "($1, $");
            push_decimal(s, i + 2);
            append_str(s, ")");
        },
    }
}

/// Appends items `0..n` separated by `sep`.
fn push_items(s: &mut String, kind: &SqlItem, n: usize, sep: &str)
    requires
        n < 0x4000_0000_0000_0000,
    ensures
        final(s)@ == old(s)@ + items_spec(*kind, n as nat, sep@),
{
    let mut i: usize = 0;
    while i < n
        invariant
            i <= n < 0x4000_0000_0000_0000,
            s@ == old(s)@ + items_spec(*kind, i as nat, sep@),
        decreases n - i,
    {
        let ghost before = s@;
        if i > 0 {
            append_str(s, sep);
        }
        push_item(s, kind, i as u64);
        assert(s@ == old(s)@ + items_spec(*kind, (i + 1) as nat, sep@));
        i = i + 1;
    }
}

/// The statement that looks up `n` (host, key) pairs.
pub open spec fn key_lookup_sql(n: nat) -> Seq<char> {
    "SELECT host, key, key_id, deprecated FROM public.keys WHERE "@ + items_spec(
        SqlItem::KeyMatch,
        n,
        " OR "@,
    )
}

/// The statement that stores `n` new keys and returns their ids.
pub open spec fn key_insert_sql(n: nat) -> Seq<char> {
    "INSERT INTO public.keys (host, key, updated) VALUES "@ + items_spec(SqlItem::KeyValues, n, ", "@)
        + " RETURNING key_id, host, key"@
}

/// The statement that finds which of `n` key ids are already in a flow.
pub open spec fn flow_lookup_sql(n: nat) -> Seq<char> {
    "SELECT key_id FROM public.flows WHERE name = $1 AND key_id IN ("@ + items_spec(
        SqlItem::FlowKeyId,
        n,
        ", "@,
    ) + ")"@
}

/// The statement that adds `n` key ids to a flow.
pub open spec fn flow_insert_sql(n: nat) -> Seq<char> {
    "INSERT INTO public.flows (name, key_id) VALUES "@ + items_spec(SqlItem::FlowValues, n, ", "@)
        + " ON CONFLICT (name, key_id) DO NOTHING"@
}

/// The lookup statement for `n` keys (parameters: host and key of each, in order).
pub fn key_lookup_query(n: usize) -> (r: String)
    requires
        n < 0x4000_0000_0000_0000,
    ensures
        r@ == key_lookup_sql(n as nat),
{
    let mut r = owned("SELECT host, key, key_id, deprecated FROM public.keys WHERE ");
    push_items(&mut r, &SqlItem::KeyMatch, n, " OR ");
    r
}

/// The insertion statement for `n` keys (parameters: host and key of each, in order).
pub fn key_insert_query(n: usize) -> (r: String)
    requires
        n < 0x4000_0000_0000_0000,
    ensures
        r@ == key_insert_sql(n as nat),
{
    let mut r = owned("INSERT INTO public.keys (host, key, updated) VALUES ");
    push_items(&mut r, &SqlItem::KeyValues, n, ", ");
    append_str(&mut r, " RETURNING key_id, host, key");
    r
}

/// The association lookup for `n` key ids (parameters: flow name, then the ids).
pub fn flow_lookup_query(n: usize) -> (r: String)
    requires
        n < 0x4000_0000_0000_0000,
    ensures
        r@ == flow_lookup_sql(n as nat),
{
    let mut r = owned("SELECT key_id FROM public.flows WHERE name = $1 AND key_id IN (");
    push_items(&mut r, &SqlItem::FlowKeyId, n, ", ");
    append_str(&mut r, ")");
    r
}

/// The association insertion for `n` key ids (parameters: flow name, then the ids).
pub fn flow_insert_query(n: usize) -> (r: String)
    requires
        n < 0x4000_0000_0000_0000,
    ensures
        r@ == flow_insert_sql(n as nat),
{
    let mut r = owned("INSERT INTO public.flows (name, key_id) VALUES ");
    push_items(&mut r, &SqlItem::FlowValues, n, ", ");
    append_str(&mut r, " ON CONFLICT (name, key_id) DO NOTHING");
    r
}

/// The statement parameters for a list of keys: host and key text of each key in turn.
pub open spec fn key_params_spec(keys: Seq<KeyView>) -> Seq<Seq<char>>
    decreases keys.len(),
{
    if keys.len() == 0 {
        Seq::empty()
    } else {
        key_params_spec(keys.drop_last()).push(keys.last().server).push(keys.last().public_key)
    }
}

/// Host and key text of each key in turn, for binding to a lookup or insertion.
pub fn key_params(keys: &Vec<SshKey>) -> (r: Vec<String>)
    ensures
        crate::keys::strings_view(r@) == key_params_spec(keys_view(keys@)),
{
    let mut r: Vec<String> = Vec::new();
    let mut i: usize = 0;
    while i < keys.len()
        invariant
            i <= keys.len(),
            crate::keys::strings_view(r@) == key_params_spec(keys_view(keys@).take(i as int)),
        decreases keys.len() - i,
    {
        let ghost t = keys_view(keys@).take(i as int + 1);
        assert(t.drop_last() =~= keys_view(keys@).take(i as int));
        let ghost before = r@;
        let h = keys[i].server.clone();
        let k = keys[i].public_key.clone();
        r.push(h);
        r.push(k);
        assert(crate::keys::strings_view(r@) =~= crate::keys::strings_view(before).push(h@).push(k@));
        i = i + 1;
    }
    assert(keys_view(keys@).take(keys@.len() as int) =~= keys_view(keys@));
    r
}

// ---------------------------------------------------------------------------
// Dividing a batch of submitted keys
// ---------------------------------------------------------------------------

/// The id and retired flag stored for a key: those of the last looked-up row with the
/// key's host and text.
pub open spec fn stored_entry(rows: Seq<StoredKeyRowView>, k: KeyView) -> Option<(i32, bool)>
    decreases rows.len(),
{
    if rows.len() == 0 {
        None
    } else if rows.last().host == k.server && rows.last().key == k.public_key {
        Some((rows.last().key_id, rows.last().deprecated))
    } else {
        stored_entry(rows.drop_last(), k)
    }
}

/// A looked-up row holds the given host and key text.
pub open spec fn row_has(row: StoredKeyRowView, host: Seq<char>, key: Seq<char>) -> bool {
    row.host == host && row.key == key
}

/// A submitted key counts as stored only through a looked-up row with both its host
/// and its key text, and then with that row's id and retired flag; it counts as not
/// stored exactly when no row has both.
pub proof fn lemma_stored_entry_matches_host_and_key(rows: Seq<StoredKeyRowView>, k: KeyView)
    ensures
        stored_entry(rows, k) matches Some((id, d)) ==> exists|j: int|
            0 <= j < rows.len() && row_has(#[trigger] rows[j], k.server, k.public_key)
                && rows[j].key_id == id && rows[j].deprecated == d,
        stored_entry(rows, k) is None <==> forall|j: int|
            0 <= j < rows.len() ==> !row_has(#[trigger] rows[j], k.server, k.public_key),
    decreases rows.len(),
{
    if rows.len() > 0 {
        lemma_stored_entry_matches_host_and_key(rows.drop_last(), k);
        let n = rows.len() - 1;
        assert(rows[n] == rows.last());
        assert forall|j: int| 0 <= j < n implies rows.drop_last()[j] == rows[j] by {}
        if row_has(rows.last(), k.server, k.public_key) {
            assert(row_has(rows[n], k.server, k.public_key));
        } else if stored_entry(rows.drop_last(), k) is Some {
            let (id, d) = stored_entry(rows.drop_last(), k)->0;
            let j = choose|j: int|
                0 <= j < rows.drop_last().len() && row_has(
                    #[trigger] rows.drop_last()[j],
                    k.server,
                    k.public_key,
                ) && rows.drop_last()[j].key_id == id && rows.drop_last()[j].deprecated == d;
            assert(row_has(rows[j], k.server, k.public_key));
        } else {
            assert forall|j: int| 0 <= j < rows.len() implies !row_has(
                #[trigger] rows[j],
                k.server,
                k.public_key,
            ) by {
                if j < n {
                    assert(rows.drop_last()[j] == rows[j]);
                }
            }
        }
    }
}

/// The keys stored as new are exactly the submitted keys, in order, whose host and key
/// text together appear in no looked-up row.
pub proof fn lemma_new_keys_are_the_unmatched(keys: Seq<KeyView>, rows: Seq<StoredKeyRowView>)
    ensures
        new_keys_spec(keys, rows) == keys.filter(
            |k: KeyView| forall|j: int| 0 <= j < rows.len() ==> !row_has(#[trigger] rows[j], k.server, k.public_key),
        ),
    decreases keys.len(),
{
    let p = |k: KeyView| forall|j: int| 0 <= j < rows.len() ==> !row_has(#[trigger] rows[j], k.server, k.public_key);
    if keys.len() > 0 {
        lemma_new_keys_are_the_unmatched(keys.drop_last(), rows);
        lemma_stored_entry_matches_host_and_key(rows, keys.last());
        assert(keys =~= keys.drop_last().push(keys.last()));
        keys.drop_last().lemma_filter_push(keys.last(), p);
    } else {
        assert(keys.filter(p) =~= Seq::<KeyView>::empty());
    }
}

/// The values of a list of looked-up rows.
pub open spec fn stored_rows_view(v: Seq<StoredKeyRow>) -> Seq<StoredKeyRowView> {
    v.map_values(|r: StoredKeyRow| r@)
}

/// How a batch divides: keys to store, keys already stored and active (with ids),
/// and the number of keys already stored but retired, which are left out.
pub struct KeyPartition {
    pub to_insert: Vec<SshKey>,
    pub unchanged: Vec<(SshKey, i32)>,
    pub ignored_deprecated: usize,
}

/// The keys of a batch that are not stored yet.
pub open spec fn new_keys_spec(keys: Seq<KeyView>, rows: Seq<StoredKeyRowView>) -> Seq<KeyView>
    decreases keys.len(),
{
    if keys.len() == 0 {
        Seq::empty()
    } else {
        let prev = new_keys_spec(keys.drop_last(), rows);
        if stored_entry(rows, keys.last()) is None {
            prev.push(keys.last())
        } else {
            prev
        }
    }
}

/// The keys of a batch that are stored and active, with their ids.
pub open spec fn unchanged_spec(keys: Seq<KeyView>, rows: Seq<StoredKeyRowView>) -> Seq<(KeyView, i32)>
    decreases keys.len(),
{
    if keys.len() == 0 {
        Seq::empty()
    } else {
        let prev = unchanged_spec(keys.drop_last(), rows);
        match stored_entry(rows, keys.last()) {
            Some((id, false)) => prev.push((keys.last(), id)),
            _ => prev,
        }
    }
}

/// The number of keys of a batch that are stored but retired.
pub open spec fn retired_count(keys: Seq<KeyView>, rows: Seq<StoredKeyRowView>) -> nat
    decreases keys.len(),
{
    if keys.len() == 0 {
        0
    } else {
        retired_count(keys.drop_last(), rows) + match stored_entry(rows, keys.last()) {
            Some((_, true)) => 1nat,
            _ => 0nat,
        }
    }
}

/// The stored entry for a key among looked-up rows.
fn lookup_stored(rows: &Vec<StoredKeyRow>, key: &SshKey) -> (r: Option<(i32, bool)>)
    ensures
        r == stored_entry(stored_rows_view(rows@), key@),
{
    let server = chars_of(key.server.as_str());
    let text = chars_of(key.public_key.as_str());
    let mut k: usize = rows.len();
    assert(stored_rows_view(rows@).take(k as int) =~= stored_rows_view(rows@));
    while k > 0
        invariant
            k <= rows.len(),
            server@ == key@.server,
            text@ == key@.public_key,
            stored_entry(stored_rows_view(rows@).take(k as int), key@) == stored_entry(
                stored_rows_view(rows@),
                key@,
            ),
        decreases k,
    {
        let ghost t = stored_rows_view(rows@).take(k as int);
        assert(t.drop_last() =~= stored_rows_view(rows@).take(k as int - 1));
        assert(t.last() == rows@[k - 1]@);
        let row = &rows[k - 1];
        let h = chars_of(row.host.as_str());
        let kt = chars_of(row.key.as_str());
        if chars_eq(h.as_slice(), server.as_slice()) && chars_eq(kt.as_slice(), text.as_slice()) {
            return Some((row.key_id, row.deprecated));
        }
        k = k - 1;
    }
    None
}

/// Divides a batch of submitted keys by what the lookup found for each.
pub fn partition_keys(keys: &Vec<SshKey>, rows: &Vec<StoredKeyRow>) -> (r: KeyPartition)
    ensures
        keys_view(r.to_insert@) == new_keys_spec(keys_view(keys@), stored_rows_view(rows@)),
        pairs_view(r.unchanged@) == unchanged_spec(keys_view(keys@), stored_rows_view(rows@)),
        r.ignored_deprecated == retired_count(keys_view(keys@), stored_rows_view(rows@)),
{
    let mut to_insert: Vec<SshKey> = Vec::new();
    let mut unchanged: Vec<(SshKey, i32)> = Vec::new();
    let mut ignored: usize = 0;
    let ghost rv = stored_rows_view(rows@);
    let mut i: usize = 0;
    while i < keys.len()
        invariant
            i <= keys.len(),
            rv == stored_rows_view(rows@),
            keys_view(to_insert@) == new_keys_spec(keys_view(keys@).take(i as int), rv),
            pairs_view(unchanged@) == unchanged_spec(keys_view(keys@).take(i as int), rv),
            ignored == retired_count(keys_view(keys@).take(i as int), rv),
            ignored <= i,
        decreases keys.len() - i,
    {
        let ghost t = keys_view(keys@).take(i as int + 1);
        assert(t.drop_last() =~= keys_view(keys@).take(i as int));
        assert(t.last() == keys@[i as int]@);
        let key = &keys[i];
        match lookup_stored(rows, key) {
            Some((id, dep)) => {
                if dep {
                    ignored = ignored + 1;
                } else {
                    let ghost before = unchanged@;
                    let k = key.duplicate();
                    unchanged.push((k, id));
                    assert(pairs_view(unchanged@) =~= pairs_view(before).push((key@, id)));
                }
            },
            None => {
                let ghost before = to_insert@;
                let k = key.duplicate();
                to_insert.push(k);
                assert(keys_view(to_insert@) =~= keys_view(before).push(key@));
            },
        }
        i = i + 1;
    }
    assert(keys_view(keys@).take(keys@.len() as int) =~= keys_view(keys@));
    KeyPartition { to_insert, unchanged, ignored_deprecated: ignored }
}

/// Every key of a batch is new, unchanged or retired.
pub proof fn lemma_partition_counts(keys: Seq<KeyView>, rows: Seq<StoredKeyRowView>)
    ensures
        new_keys_spec(keys, rows).len() + unchanged_spec(keys, rows).len() + retired_count(keys, rows)
            == keys.len(),
    decreases keys.len(),
{
    if keys.len() > 0 {
        lemma_partition_counts(keys.drop_last(), rows);
    }
}

/// The values of a list of inserted rows.
pub open spec fn inserted_rows_view(v: Seq<InsertedKeyRow>) -> Seq<InsertedKeyRowView> {
    v.map_values(|r: InsertedKeyRow| r@)
}

/// The first key with the given host and text.
pub open spec fn first_match(keys: Seq<KeyView>, host: Seq<char>, text: Seq<char>) -> Option<int> {
    if exists|i: int| 0 <= i < keys.len() && keys[i].server == host && keys[i].public_key == text {
        Some(
            choose|i: int|
                0 <= i < keys.len() && keys[i].server == host && keys[i].public_key == text
                    && forall|j: int|
                    0 <= j < i ==> !(#[trigger] keys[j].server == host && keys[j].public_key
                        == text),
        )
    } else {
        None
    }
}

/// Each returned row paired with the first submitted key it names, rows naming no
/// submitted key being skipped.
pub open spec fn matched_spec(keys: Seq<KeyView>, rows: Seq<InsertedKeyRowView>) -> Seq<(KeyView, i32)>
    decreases rows.len(),
{
    if rows.len() == 0 {
        Seq::empty()
    } else {
        let prev = matched_spec(keys, rows.drop_last());
        match first_match(keys, rows.last().host, rows.last().key) {
            Some(i) => prev.push((keys[i], rows.last().key_id)),
            None => prev,
        }
    }
}

/// The first key with the given host and text, searched from the front.
fn find_key(keys: &Vec<SshKey>, host: &str, text: &str) -> (r: Option<usize>)
    ensures
        r matches Some(i) ==> i < keys.len() && first_match(keys_view(keys@), host@, text@) == Some(
            i as int,
        ),
        r is None ==> first_match(keys_view(keys@), host@, text@) is None,
{
    let ghost kv = keys_view(keys@);
    let mut i: usize = 0;
    while i < keys.len()
        invariant
            i <= keys.len(),
            kv == keys_view(keys@),
            forall|j: int|
                0 <= j < i ==> !(#[trigger] kv[j].server == host@ && kv[j].public_key == text@),
        decreases keys.len() - i,
    {
        if str_eq(keys[i].server.as_str(), host) && str_eq(keys[i].public_key.as_str(), text) {
            assert(kv[i as int] == keys@[i as int]@);
            proof {
                let c = choose|c: int|
                    0 <= c < kv.len() && kv[c].server == host@ && kv[c].public_key == text@
                        && forall|j: int|
                        0 <= j < c ==> !(#[trigger] kv[j].server == host@ && kv[j].public_key
                            == text@);
                if c < i {
                } else if c > i {
                    assert(!(kv[i as int].server == host@ && kv[i as int].public_key == text@));
                }
            }
            return Some(i);
        }
        assert(kv[i as int] == keys@[i as int]@);
        i = i + 1;
    }
    None
}

/// Pairs each row returned by the insertion with the key it stored.
pub fn match_inserted(keys: &Vec<SshKey>, rows: &Vec<InsertedKeyRow>) -> (r: Vec<(SshKey, i32)>)
    ensures
        pairs_view(r@) == matched_spec(keys_view(keys@), inserted_rows_view(rows@)),
{
    let mut r: Vec<(SshKey, i32)> = Vec::new();
    let mut i: usize = 0;
    while i < rows.len()
        invariant
            i <= rows.len(),
            pairs_view(r@) == matched_spec(keys_view(keys@), inserted_rows_view(rows@).take(i as int)),
        decreases rows.len() - i,
    {
        let ghost t = inserted_rows_view(rows@).take(i as int + 1);
        assert(t.drop_last() =~= inserted_rows_view(rows@).take(i as int));
        assert(t.last() == rows@[i as int]@);
        let row = &rows[i];
        match find_key(keys, row.host.as_str(), row.key.as_str()) {
            Some(j) => {
                let ghost before = r@;
                let k = keys[j].duplicate();
                r.push((k, row.key_id));
                assert(keys_view(keys@)[j as int] == keys@[j as int]@);
                assert(pairs_view(r@) =~= pairs_view(before).push((keys@[j as int]@, row.key_id)));
            },
            None => {},
        }
        i = i + 1;
    }
    assert(inserted_rows_view(rows@).take(rows@.len() as int) =~= inserted_rows_view(rows@));
    r
}

/// The statistics of a batch: the number received, then the unchanged and the new keys
/// with their ids, unchanged first.
pub fn insert_stats(total: usize, unchanged: Vec<(SshKey, i32)>, inserted: Vec<(SshKey, i32)>) -> (r:
    KeyInsertStats)
    ensures
        r.total == total,
        r.inserted == inserted@.len(),
        r.unchanged == unchanged@.len(),
        pairs_view(r.key_id_map@) == pairs_view(unchanged@) + pairs_view(inserted@),
{
    let inserted_count = inserted.len();
    let unchanged_count = unchanged.len();
    let mut key_id_map = unchanged;
    let mut rest = inserted;
    let ghost a = pairs_view(key_id_map@);
    let ghost b = pairs_view(rest@);
    key_id_map.append(&mut rest);
    assert(pairs_view(key_id_map@) =~= a + b);
    KeyInsertStats { total, inserted: inserted_count, unchanged: unchanged_count, key_id_map }
}

/// The statistics of an empty batch.
pub fn empty_insert_stats() -> (r: KeyInsertStats)
    ensures
        r.total == 0,
        r.inserted == 0,
        r.unchanged == 0,
        r.key_id_map@.len() == 0,
{
    KeyInsertStats { total: 0, inserted: 0, unchanged: 0, key_id_map: Vec::new() }
}

/// The database ids of the keys in a batch's statistics, in order.
pub fn stats_key_ids(stats: &KeyInsertStats) -> (r: Vec<i32>)
    ensures
        r@ == stats.key_id_map@.map_values(|p: (SshKey, i32)| p.1),
{
    let mut r: Vec<i32> = Vec::new();
    let mut i: usize = 0;
    while i < stats.key_id_map.len()
        invariant
            i <= stats.key_id_map.len(),
            r@ == stats.key_id_map@.take(i as int).map_values(|p: (SshKey, i32)| p.1),
        decreases stats.key_id_map.len() - i,
    {
        r.push(stats.key_id_map[i].1);
        i = i + 1;
        assert(r@ =~= stats.key_id_map@.take(i as int).map_values(|p: (SshKey, i32)| p.1));
    }
    assert(stats.key_id_map@.take(stats.key_id_map@.len() as int) =~= stats.key_id_map@);
    r
}

// ---------------------------------------------------------------------------
// Flow associations
// ---------------------------------------------------------------------------

/// The ids not yet associated with the flow, in order.
pub open spec fn new_ids_spec(ids: Seq<i32>, existing: Seq<i32>) -> Seq<i32>
    decreases ids.len(),
{
    if ids.len() == 0 {
        Seq::empty()
    } else {
        let prev = new_ids_spec(ids.drop_last(), existing);
        if existing.contains(ids.last()) {
            prev
        } else {
            prev.push(ids.last())
        }
    }
}

/// The key ids that still need an association with the flow.
pub fn new_flow_key_ids(ids: &Vec<i32>, existing: &Vec<i32>) -> (r: Vec<i32>)
    ensures
        r@ == new_ids_spec(ids@, existing@),
{
    let mut r: Vec<i32> = Vec::new();
    let mut i: usize = 0;
    while i < ids.len()
        invariant
            i <= ids.len(),
            r@ == new_ids_spec(ids@.take(i as int), existing@),
        decreases ids.len() - i,
    {
        let ghost t = ids@.take(i as int + 1);
        assert(t.drop_last() =~= ids@.take(i as int));
        let id = ids[i];
        let mut found = false;
        let mut j: usize = 0;
        while j < existing.len()
            invariant
                j <= existing.len(),
                found == exists|m: int| 0 <= m < j && existing@[m] == id,
            decreases existing.len() - j,
        {
            if existing[j] == id {
                found = true;
            }
            j = j + 1;
        }
        assert(found == existing@.contains(id));
        if !found {
            r.push(id);
        }
        i = i + 1;
    }
    assert(ids@.take(ids@.len() as int) =~= ids@);
    r
}

// ---------------------------------------------------------------------------
// Grouping stored rows into flows
// ---------------------------------------------------------------------------

/// The key a joined row describes.
pub open spec fn row_key(r: FlowKeyRowView) -> KeyView {
    KeyView { server: r.host, public_key: r.key, deprecated: r.deprecated }
}

/// The position of the flow with the given name.
pub open spec fn flow_position(flows: Seq<FlowView>, name: Seq<char>) -> Option<int>
    decreases flows.len(),
{
    if flows.len() == 0 {
        None
    } else if flows.last().name == name {
        Some(flows.len() - 1)
    } else {
        flow_position(flows.drop_last(), name)
    }
}

/// The flows described by joined rows: one flow per name, in order of first
/// appearance, each holding the keys of its rows in order.
pub open spec fn group_spec(rows: Seq<FlowKeyRowView>) -> Seq<FlowView>
    decreases rows.len(),
{
    if rows.len() == 0 {
        Seq::empty()
    } else {
        let g = group_spec(rows.drop_last());
        let r = rows.last();
        match flow_position(g, r.flow) {
            Some(i) => g.update(i, FlowView { name: g[i].name, servers: g[i].servers.push(row_key(r)) }),
            None => g.push(FlowView { name: r.flow, servers: seq![row_key(r)] }),
        }
    }
}

/// The values of a list of joined rows.
pub open spec fn flow_rows_view(v: Seq<FlowKeyRow>) -> Seq<FlowKeyRowView> {
    v.map_values(|r: FlowKeyRow| r@)
}

/// A position found by `flow_position` is a flow of that name.
proof fn lemma_flow_position(flows: Seq<FlowView>, name: Seq<char>)
    ensures
        flow_position(flows, name) matches Some(i) ==> 0 <= i < flows.len() && flows[i].name == name,
        flow_position(flows, name) is None ==> forall|j: int|
            0 <= j < flows.len() ==> (#[trigger] flows[j]).name != name,
    decreases flows.len(),
{
    if flows.len() > 0 {
        lemma_flow_position(flows.drop_last(), name);
        if flows.last().name != name {
            assert forall|j: int| 0 <= j < flows.len() - 1 implies (#[trigger] flows[j]).name
                == flows.drop_last()[j].name by {}
        }
    }
}

/// The position of the flow with the given name among groups built so far.
fn position_of(flows: &Vec<Flow>, name: &str) -> (r: Option<usize>)
    ensures
        r matches Some(i) ==> flow_position(flows_view(flows@), name@) == Some(i as int),
        r is None ==> flow_position(flows_view(flows@), name@) is None,
{
    let mut k: usize = flows.len();
    assert(flows_view(flows@).take(k as int) =~= flows_view(flows@));
    while k > 0
        invariant
            k <= flows.len(),
            flow_position(flows_view(flows@).take(k as int), name@) == flow_position(
                flows_view(flows@),
                name@,
            ),
        decreases k,
    {
        let ghost t = flows_view(flows@).take(k as int);
        assert(t.drop_last() =~= flows_view(flows@).take(k as int - 1));
        assert(t.last() == flows@[k - 1]@);
        if str_eq(flows[k - 1].name.as_str(), name) {
            return Some(k - 1);
        }
        k = k - 1;
    }
    None
}

/// Groups the joined key/flow rows into flows.
pub fn group_rows_into_flows(rows: &Vec<FlowKeyRow>) -> (r: Vec<Flow>)
    ensures
        flows_view(r@) == group_spec(flow_rows_view(rows@)),
{
    let mut g: Vec<Flow> = Vec::new();
    let mut i: usize = 0;
    while i < rows.len()
        invariant
            i <= rows.len(),
            flows_view(g@) == group_spec(flow_rows_view(rows@).take(i as int)),
        decreases rows.len() - i,
    {
        let ghost t = flow_rows_view(rows@).take(i as int + 1);
        assert(t.drop_last() =~= flow_rows_view(rows@).take(i as int));
        assert(t.last() == rows@[i as int]@);
        let row = &rows[i];
        let key = SshKey {
            server: row.host.clone(),
            public_key: row.key.clone(),
            deprecated: row.deprecated,
        };
        let ghost before = flows_view(g@);
        match position_of(&g, row.flow.as_str()) {
            Some(p) => {
                proof {
                    lemma_flow_position(before, row.flow@);
                }
                let mut f = g.remove(p);
                let ghost fo = f@;
                f.servers.push(key);
                assert(keys_view(f.servers@) =~= fo.servers.push(key@));
                g.insert(p, f);
                assert(flows_view(g@) =~= before.update(
                    p as int,
                    FlowView { name: before[p as int].name, servers: before[p as int].servers.push(key@) },
                ));
            },
            None => {
                let mut servers: Vec<SshKey> = Vec::new();
                servers.push(key);
                assert(keys_view(servers@) =~= seq![key@]);
                let f = Flow { name: row.flow.clone(), servers };
                g.push(f);
                assert(flows_view(g@) =~= before.push(
                    FlowView { name: row.flow@, servers: seq![key@] },
                ));
            },
        }
        i = i + 1;
    }
    assert(flow_rows_view(rows@).take(rows@.len() as int) =~= flow_rows_view(rows@));
    g
}

// ---------------------------------------------------------------------------
// Deletion and errors
// ---------------------------------------------------------------------------

/// The ids whose reference count has dropped to zero, in order.
pub open spec fn orphans_spec(ids: Seq<i32>, counts: Seq<i64>) -> Seq<i32>
    decreases ids.len(),
{
    if ids.len() == 0 || counts.len() < ids.len() {
        Seq::empty()
    } else {
        let prev = orphans_spec(ids.drop_last(), counts);
        if counts[ids.len() - 1] == 0 {
            prev.push(ids.last())
        } else {
            prev
        }
    }
}

/// Each key id paired with its own reference count, in order.
pub open spec fn id_count_pairs(ids: Seq<i32>, counts: Seq<i64>) -> Seq<(i32, i64)> {
    Seq::new(ids.len(), |i: int| (ids[i], counts[i]))
}

/// A key is removed exactly when its own reference count is zero: the orphans are the
/// ids, in order, whose count at the same position is zero.
pub proof fn lemma_orphans_by_own_count(ids: Seq<i32>, counts: Seq<i64>)
    requires
        counts.len() >= ids.len(),
    ensures
        orphans_spec(ids, counts) == id_count_pairs(ids, counts).filter(
            |p: (i32, i64)| p.1 == 0,
        ).map_values(|p: (i32, i64)| p.0),
    decreases ids.len(),
{
    let z = |p: (i32, i64)| p.1 == 0;
    let f = |p: (i32, i64)| p.0;
    let ps = id_count_pairs(ids, counts);
    if ids.len() > 0 {
        lemma_orphans_by_own_count(ids.drop_last(), counts);
        let prev = id_count_pairs(ids.drop_last(), counts);
        let last = (ids.last(), counts[ids.len() - 1]);
        assert(ps =~= prev.push(last));
        prev.lemma_filter_push(last, z);
        let pf = prev.filter(z);
        if z(last) {
            assert(pf.push(last).map_values(f) =~= pf.map_values(f).push(ids.last()));
        }
    } else {
        assert(ps.filter(z) =~= Seq::<(i32, i64)>::empty());
        assert(ps.filter(z).map_values(f) =~= Seq::<i32>::empty());
    }
}

/// The keys no flow refers to any more, given each key's remaining reference count.
pub fn orphaned_key_ids(ids: &Vec<i32>, counts: &Vec<i64>) -> (r: Vec<i32>)
    requires
        counts.len() == ids.len(),
    ensures
        r@ == orphans_spec(ids@, counts@),
{
    let mut r: Vec<i32> = Vec::new();
    let mut i: usize = 0;
    while i < ids.len()
        invariant
            i <= ids.len() == counts.len(),
            r@ == orphans_spec(ids@.take(i as int), counts@),
        decreases ids.len() - i,
    {
        let ghost t = ids@.take(i as int + 1);
        assert(t.drop_last() =~= ids@.take(i as int));
        if counts[i] == 0 {
            r.push(ids[i]);
        }
        i = i + 1;
    }
    assert(ids@.take(ids@.len() as int) =~= ids@);
    r
}

/// What a permanent deletion reports: the larger of the associations removed and the
/// keys removed.
pub fn deletion_count(flow_associations: u64, keys: u64) -> (r: u64)
    ensures
        r == if flow_associations >= keys {
            flow_associations
        } else {
            keys
        },
{
    if flow_associations >= keys {
        flow_associations
    } else {
        keys
    }
}

/// Where a permanent deletion of a server's keys from a flow stands.
#[derive(Debug, Clone, Copy, PartialEq, Eq, Structural)]
pub enum PurgeStage {
    /// Removing the flow's association with each key, in order.
    Unlinking,
    /// Counting the flows that still refer to each key, in order.
    Counting,
    /// Removing each key no flow refers to any more, in order.
    Deleting,
    /// Nothing left to do.
    Finished,
}

/// The next database request of a permanent deletion, or its answer.
#[derive(Debug, Clone, Copy, PartialEq, Eq, Structural)]
pub enum PurgeAction {
    /// Remove the association of the flow with this key.
    Unlink(i32),
    /// Count the flows that refer to this key.
    CountReferences(i32),
    /// Remove this key.
    DeleteKey(i32),
    /// Done: the number to report.
    Done(u64),
}

/// A permanent deletion of a server's keys from a flow, driven one database request
/// at a time: first every association of the flow with the keys is removed, then the
/// remaining references of each key are counted, then the keys nothing refers to are
/// removed. The answer is the larger of the associations removed and the keys removed.
pub struct KeyPurge {
    /// The server's keys in the flow.
    pub key_ids: Vec<i32>,
    pub stage: PurgeStage,
    /// The index, in the list of the current stage, of the next request.
    pub position: usize,
    /// Associations removed so far.
    pub unlinked: u64,
    /// The reference counts received so far, one per key.
    pub references: Vec<i64>,
    /// The keys nothing refers to any more (known once counting is over).
    pub orphans: Vec<i32>,
    /// Keys removed so far.
    pub deleted: u64,
}

impl KeyPurge {
    /// The stage's list is not exhausted, and the counts received match the keys
    /// already counted.
    pub open spec fn wf(&self) -> bool {
        &&& self.stage == PurgeStage::Unlinking ==> self.position < self.key_ids@.len()
            && self.references@.len() == 0
        &&& self.stage == PurgeStage::Counting ==> self.position < self.key_ids@.len()
            && self.references@.len() == self.position
        &&& self.stage == PurgeStage::Deleting ==> self.position < self.orphans@.len()
            && self.orphans@ == orphans_spec(self.key_ids@, self.references@)
    }

    /// The answer of the deletion once it is over.
    pub open spec fn answer(&self) -> u64 {
        if self.unlinked >= self.deleted {
            self.unlinked
        } else {
            self.deleted
        }
    }

    /// Starts a permanent deletion of the given keys; with no keys it is over at once
    /// and answers 0.
    pub fn new(key_ids: Vec<i32>) -> (r: KeyPurge)
        ensures
            r.wf(),
            r.key_ids@ == key_ids@,
            r.stage == if key_ids@.len() == 0 {
                PurgeStage::Finished
            } else {
                PurgeStage::Unlinking
            },
            r.position == 0,
            r.unlinked == 0,
            r.deleted == 0,
            r.references@.len() == 0,
            r.orphans@.len() == 0,
    {
        let stage = if key_ids.len() == 0 {
            PurgeStage::Finished
        } else {
            PurgeStage::Unlinking
        };
        KeyPurge {
            key_ids,
            stage,
            position: 0,
            unlinked: 0,
            references: Vec::new(),
            orphans: Vec::new(),
            deleted: 0,
        }
    }

    /// The next request to make, or the answer when the deletion is over.
    pub fn next_action(&self) -> (r: PurgeAction)
        requires
            self.wf(),
        ensures
            r == match self.stage {
                PurgeStage::Unlinking => PurgeAction::Unlink(self.key_ids@[self.position as int]),
                PurgeStage::Counting => PurgeAction::CountReferences(
                    self.key_ids@[self.position as int],
                ),
                PurgeStage::Deleting => PurgeAction::DeleteKey(self.orphans@[self.position as int]),
                PurgeStage::Finished => PurgeAction::Done(self.answer()),
            },
    {
        match self.stage {
            PurgeStage::Unlinking => PurgeAction::Unlink(self.key_ids[self.position]),
            PurgeStage::Counting => PurgeAction::CountReferences(self.key_ids[self.position]),
            PurgeStage::Deleting => PurgeAction::DeleteKey(self.orphans[self.position]),
            PurgeStage::Finished => PurgeAction::Done(deletion_count(self.unlinked, self.deleted)),
        }
    }

    /// Takes the number of rows an association removal or a key removal affected and
    /// moves on. Refuses (false, nothing changed) a number that would overflow the
    /// running total.
    pub fn record_rows(&mut self, rows: u64) -> (ok: bool)
        requires
            old(self).wf(),
            old(self).stage == PurgeStage::Unlinking || old(self).stage == PurgeStage::Deleting,
        ensures
            final(self).wf(),
            final(self).key_ids == old(self).key_ids,
            final(self).references == old(self).references,
            final(self).orphans == old(self).orphans,
            !ok ==> *final(self) == *old(self),
            ok <==> (if old(self).stage == PurgeStage::Unlinking {
                old(self).unlinked + rows <= u64::MAX
            } else {
                old(self).deleted + rows <= u64::MAX
            }),
            ok && old(self).stage == PurgeStage::Unlinking ==> {
                &&& final(self).unlinked == old(self).unlinked + rows
                &&& final(self).deleted == old(self).deleted
                &&& if old(self).position + 1 == old(self).key_ids@.len() {
                    final(self).stage == PurgeStage::Counting && final(self).position == 0
                } else {
                    final(self).stage == PurgeStage::Unlinking && final(self).position
                        == old(self).position + 1
                }
            },
            ok && old(self).stage == PurgeStage::Deleting ==> {
                &&& final(self).deleted == old(self).deleted + rows
                &&& final(self).unlinked == old(self).unlinked
                &&& if old(self).position + 1 == old(self).orphans@.len() {
                    final(self).stage == PurgeStage::Finished && final(self).position == 0
                } else {
                    final(self).stage == PurgeStage::Deleting && final(self).position
                        == old(self).position + 1
                }
            },
    {
        let limit = if self.stage == PurgeStage::Unlinking {
            self.key_ids.len()
        } else {
            self.orphans.len()
        };
        assert(self.position < limit);
        let next = self.position + 1;
        if self.stage == PurgeStage::Unlinking {
            match self.unlinked.checked_add(rows) {
                Some(t) => {
                    self.unlinked = t;
                    if next == limit {
                        self.stage = PurgeStage::Counting;
                        self.position = 0;
                    } else {
                        self.position = next;
                    }
                    true
                },
                None => false,
            }
        } else {
            match self.deleted.checked_add(rows) {
                Some(t) => {
                    self.deleted = t;
                    if next == limit {
                        self.stage = PurgeStage::Finished;
                        self.position = 0;
                    } else {
                        self.position = next;
                    }
                    true
                },
                None => false,
            }
        }
    }

    /// Takes the number of flows that still refer to the key just counted and moves on;
    /// after the last key, the keys nothing refers to are to be removed, or the
    /// deletion is over when there are none.
    pub fn record_references(&mut self, count: i64)
        requires
            old(self).wf(),
            old(self).stage == PurgeStage::Counting,
        ensures
            final(self).wf(),
            final(self).key_ids == old(self).key_ids,
            final(self).unlinked == old(self).unlinked,
            final(self).deleted == old(self).deleted,
            final(self).references@ == old(self).references@.push(count),
            if old(self).position + 1 == old(self).key_ids@.len() {
                &&& final(self).orphans@ == orphans_spec(
                    old(self).key_ids@,
                    final(self).references@,
                )
                &&& final(self).position == 0
                &&& final(self).stage == if final(self).orphans@.len() == 0 {
                    PurgeStage::Finished
                } else {
                    PurgeStage::Deleting
                }
            } else {
                &&& final(self).orphans == old(self).orphans
                &&& final(self).stage == PurgeStage::Counting
                &&& final(self).position == old(self).position + 1
            },
    {
        let n = self.key_ids.len();
        self.references.push(count);
        let next = self.position + 1;
        if next == n {
            let orphans = orphaned_key_ids(&self.key_ids, &self.references);
            self.position = 0;
            self.stage = if orphans.len() == 0 {
                PurgeStage::Finished
            } else {
                PurgeStage::Deleting
            };
            self.orphans = orphans;
        } else {
            self.position = next;
        }
    }
}

/// An error of the database client that means the connection is gone: its message
/// names a closed, reset, broken, refused or terminated connection, or it is not an
/// error the database server reported.
pub open spec fn connection_error_spec(message: Seq<char>, from_server: bool) -> bool {
    ||| contains(message, "connection closed"@)
    ||| contains(message, "connection reset"@)
    ||| contains(message, "broken pipe"@)
    ||| contains(message, "Connection refused"@)
    ||| contains(message, "connection terminated"@)
    ||| !from_server
}

/// Whether a database error means the connection is lost; the message is the error's
/// text and `from_server` says whether the server reported it.
pub fn is_connection_error(message: &str, from_server: bool) -> (r: bool)
    ensures
        r == connection_error_spec(message@, from_server),
{
    let m = chars_of(message);
    let a = chars_of("connection closed");
    let b = chars_of("connection reset");
    let c = chars_of("broken pipe");
    let d = chars_of("Connection refused");
    let e = chars_of("connection terminated");
    contains_chars(m.as_slice(), a.as_slice()) || contains_chars(m.as_slice(), b.as_slice())
        || contains_chars(m.as_slice(), c.as_slice()) || contains_chars(m.as_slice(), d.as_slice())
        || contains_chars(m.as_slice(), e.as_slice()) || !from_server
}

// ---------------------------------------------------------------------------
// The steps of a batch
// ---------------------------------------------------------------------------

/// The lookup of a batch of keys: the statement and its parameters, or nothing for
/// an empty batch (whose statistics are all zero).
pub fn key_lookup_request(keys: &Vec<SshKey>) -> (r: Option<(String, Vec<String>)>)
    requires
        keys.len() < 0x4000_0000_0000_0000,
    ensures
        keys.len() == 0 ==> r is None,
        keys.len() > 0 ==> (r matches Some((sql, params)) && sql@ == key_lookup_sql(keys.len() as nat)
            && crate::keys::strings_view(params@) == key_params_spec(keys_view(keys@))),
{
    if keys.len() == 0 {
        return None;
    }
    Some((key_lookup_query(keys.len()), key_params(keys)))
}

/// The insertion of the new keys of a divided batch: the statement and its parameters,
/// or nothing when every key is already stored.
pub fn key_insert_request(partition: &KeyPartition) -> (r: Option<(String, Vec<String>)>)
    requires
        partition.to_insert.len() < 0x4000_0000_0000_0000,
    ensures
        partition.to_insert.len() == 0 ==> r is None,
        partition.to_insert.len() > 0 ==> (r matches Some((sql, params)) && sql@ == key_insert_sql(
            partition.to_insert.len() as nat,
        ) && crate::keys::strings_view(params@) == key_params_spec(keys_view(partition.to_insert@))),
{
    if partition.to_insert.len() == 0 {
        return None;
    }
    Some((key_insert_query(partition.to_insert.len()), key_params(&partition.to_insert)))
}

/// The statistics of a batch of `total` keys once the new keys are stored: the
/// unchanged keys of the division, then each returned row paired with the new key it
/// names.
pub fn finish_key_batch(total: usize, partition: KeyPartition, inserted_rows: &Vec<InsertedKeyRow>) -> (r:
    KeyInsertStats)
    ensures
        r.total == total,
        r.unchanged == partition.unchanged@.len(),
        pairs_view(r.key_id_map@) == pairs_view(partition.unchanged@) + matched_spec(
            keys_view(partition.to_insert@),
            inserted_rows_view(inserted_rows@),
        ),
        r.inserted == matched_spec(
            keys_view(partition.to_insert@),
            inserted_rows_view(inserted_rows@),
        ).len(),
{
    let inserted = match_inserted(&partition.to_insert, inserted_rows);
    proof {
        assert(pairs_view(inserted@).len() == inserted@.len());
    }
    insert_stats(total, partition.unchanged, inserted)
}

/// The lookup of a flow's existing associations for some key ids: nothing when there
/// are no ids.
pub fn flow_link_lookup(ids: &Vec<i32>) -> (r: Option<String>)
    requires
        ids.len() < 0x4000_0000_0000_0000,
    ensures
        ids.len() == 0 ==> r is None,
        ids.len() > 0 ==> (r matches Some(sql) && sql@ == flow_lookup_sql(ids.len() as nat)),
{
    if ids.len() == 0 {
        return None;
    }
    Some(flow_lookup_query(ids.len()))
}

/// The insertion of the associations a flow lacks, given the ids already associated:
/// the statement and the ids to bind after the flow name, or nothing when every id is
/// associated already.
pub fn flow_link_insert(ids: &Vec<i32>, existing: &Vec<i32>) -> (r: Option<(String, Vec<i32>)>)
    requires
        ids.len() < 0x4000_0000_0000_0000,
    ensures
        new_ids_spec(ids@, existing@).len() == 0 ==> r is None,
        new_ids_spec(ids@, existing@).len() > 0 ==> (r matches Some((sql, fresh)) && fresh@
            == new_ids_spec(ids@, existing@) && sql@ == flow_insert_sql(fresh@.len() as nat)),
{
    let fresh = new_flow_key_ids(ids, existing);
    proof {
        lemma_new_ids_len(ids@, existing@);
    }
    if fresh.len() == 0 {
        return None;
    }
    Some((flow_insert_query(fresh.len()), fresh))
}

/// Keeping some ids never gives more ids.
proof fn lemma_new_ids_len(ids: Seq<i32>, existing: Seq<i32>)
    ensures
        new_ids_spec(ids, existing).len() <= ids.len(),
    decreases ids.len(),
{
    if ids.len() > 0 {
        lemma_new_ids_len(ids.drop_last(), existing);
    }
}

// ---------------------------------------------------------------------------
// Grouping keeps every row
// ---------------------------------------------------------------------------

/// The number of keys held by a list of flows.
pub open spec fn key_total(flows: Seq<FlowView>) -> nat
    decreases flows.len(),
{
    if flows.len() == 0 {
        0
    } else {
        key_total(flows.drop_last()) + flows.last().servers.len()
    }
}

/// Replacing one flow changes the total by the difference of the two flows' sizes.
proof fn lemma_key_total_update(flows: Seq<FlowView>, i: int, f: FlowView)
    requires
        0 <= i < flows.len(),
    ensures
        key_total(flows.update(i, f)) == key_total(flows) - flows[i].servers.len()
            + f.servers.len(),
    decreases flows.len(),
{
    if i == flows.len() - 1 {
        assert(flows.update(i, f).drop_last() =~= flows.drop_last());
    } else {
        lemma_key_total_update(flows.drop_last(), i, f);
        assert(flows.update(i, f).drop_last() =~= flows.drop_last().update(i, f));
    }
}

/// The joined rows of the named flow, in order.
pub open spec fn rows_of_flow(rows: Seq<FlowKeyRowView>, name: Seq<char>) -> Seq<FlowKeyRowView> {
    rows.filter(|r: FlowKeyRowView| r.flow == name)
}

/// The keys that rows describe, field by field: host, key text and retired flag.
pub open spec fn keys_of_rows(rows: Seq<FlowKeyRowView>) -> Seq<KeyView> {
    rows.map_values(
        |r: FlowKeyRowView| KeyView { server: r.host, public_key: r.key, deprecated: r.deprecated },
    )
}

/// Grouping keeps every key as its row gives it: each flow holds exactly the keys of
/// the rows of that flow, in row order, with their hosts, key texts and retired flags;
/// and every row's flow is among the flows.
pub proof fn lemma_group_keeps_each_key(rows: Seq<FlowKeyRowView>)
    ensures
        forall|i: int|
            0 <= i < group_spec(rows).len() ==> (#[trigger] group_spec(rows)[i]).servers
                == keys_of_rows(rows_of_flow(rows, group_spec(rows)[i].name)),
        forall|j: int|
            0 <= j < rows.len() ==> exists|i: int|
                0 <= i < group_spec(rows).len() && group_spec(rows)[i].name == (
                #[trigger] rows[j]).flow,
    decreases rows.len(),
{
    if rows.len() > 0 {
        let d = rows.drop_last();
        let r = rows.last();
        let g0 = group_spec(d);
        let g = group_spec(rows);
        lemma_group_keeps_each_key(d);
        lemma_group_keeps_rows(d);
        lemma_flow_position(g0, r.flow);
        assert(rows =~= d.push(r));
        assert forall|n: Seq<char>| #[trigger] rows_of_flow(rows, n) == if r.flow == n {
            rows_of_flow(d, n).push(r)
        } else {
            rows_of_flow(d, n)
        } by {
            d.lemma_filter_push(r, |x: FlowKeyRowView| x.flow == n);
        }
        assert forall|q: Seq<FlowKeyRowView>| #[trigger] keys_of_rows(q.push(r)) == keys_of_rows(
            q,
        ).push(row_key(r)) by {
            assert(keys_of_rows(q.push(r)) =~= keys_of_rows(q).push(row_key(r)));
        }
        match flow_position(g0, r.flow) {
            Some(i0) => {
                assert forall|a: int| 0 <= a < g.len() implies (#[trigger] g[a]).servers
                    == keys_of_rows(rows_of_flow(rows, g[a].name)) by {
                    if a != i0 {
                        assert(g[a] == g0[a]);
                        if a < i0 {
                            assert(g0[a].name != g0[i0].name);
                        } else {
                            assert(g0[i0].name != g0[a].name);
                        }
                        assert(rows_of_flow(rows, g0[a].name) == rows_of_flow(d, g0[a].name));
                    } else {
                        assert(rows_of_flow(rows, r.flow) == rows_of_flow(d, r.flow).push(r));
                    }
                }
                assert forall|j: int| 0 <= j < rows.len() implies exists|i: int|
                    0 <= i < g.len() && g[i].name == (#[trigger] rows[j]).flow by {
                    if j < d.len() {
                        assert(d[j] == rows[j]);
                        let i = choose|i: int| 0 <= i < g0.len() && g0[i].name == (#[trigger] d[j]).flow;
                        assert(g[i].name == g0[i].name);
                    } else {
                        assert(g[i0].name == rows[j].flow);
                    }
                }
            },
            None => {
                assert(g =~= g0.push(FlowView { name: r.flow, servers: seq![row_key(r)] }));
                let e = rows_of_flow(d, r.flow);
                assert(d.all(|x: FlowKeyRowView| !(x.flow == r.flow))) by {
                    assert forall|j: int| 0 <= j < d.len() implies !((#[trigger] d[j]).flow == r.flow) by {
                        let i = choose|i: int| 0 <= i < g0.len() && g0[i].name == (#[trigger] d[j]).flow;
                    }
                }
                d.lemma_all_neg_filter_empty(|x: FlowKeyRowView| x.flow == r.flow);
                assert(e =~= Seq::<FlowKeyRowView>::empty());
                assert(keys_of_rows(rows_of_flow(rows, r.flow)) =~= seq![row_key(r)]);
                assert forall|a: int| 0 <= a < g.len() implies (#[trigger] g[a]).servers
                    == keys_of_rows(rows_of_flow(rows, g[a].name)) by {
                    if a < g0.len() {
                        assert(g[a] == g0[a]);
                        assert(rows_of_flow(rows, g0[a].name) == rows_of_flow(d, g0[a].name));
                    }
                }
                assert forall|j: int| 0 <= j < rows.len() implies exists|i: int|
                    0 <= i < g.len() && g[i].name == (#[trigger] rows[j]).flow by {
                    if j < d.len() {
                        assert(d[j] == rows[j]);
                        let i = choose|i: int| 0 <= i < g0.len() && g0[i].name == (#[trigger] d[j]).flow;
                        assert(g[i].name == g0[i].name);
                    } else {
                        assert(g[g0.len() as int].name == rows[j].flow);
                    }
                }
            },
        }
    }
}

/// Grouping the joined rows loses no row and invents none: the flows hold as many keys
/// as there were rows, and no two flows share a name.
pub proof fn lemma_group_keeps_rows(rows: Seq<FlowKeyRowView>)
    ensures
        key_total(group_spec(rows)) == rows.len(),
        forall|i: int, j: int|
            0 <= i < j < group_spec(rows).len() ==> (#[trigger] group_spec(rows)[i]).name
                != (#[trigger] group_spec(rows)[j]).name,
    decreases rows.len(),
{
    if rows.len() > 0 {
        let g = group_spec(rows.drop_last());
        let r = rows.last();
        lemma_group_keeps_rows(rows.drop_last());
        lemma_flow_position(g, r.flow);
        match flow_position(g, r.flow) {
            Some(i) => {
                let f = FlowView { name: g[i].name, servers: g[i].servers.push(row_key(r)) };
                lemma_key_total_update(g, i, f);
                let h = g.update(i, f);
                assert forall|a: int, b: int| 0 <= a < b < h.len() implies (#[trigger] h[a]).name
                    != (#[trigger] h[b]).name by {
                    assert(h[a].name == g[a].name);
                    assert(h[b].name == g[b].name);
                }
            },
            None => {
                let f = FlowView { name: r.flow, servers: seq![row_key(r)] };
                let h = g.push(f);
                assert(h.drop_last() =~= g);
                assert forall|a: int, b: int| 0 <= a < b < h.len() implies (#[trigger] h[a]).name
                    != (#[trigger] h[b]).name by {
                    if b == g.len() {
                        assert(g[a].name != r.flow);
                    } else {
                        assert(h[a] == g[a]);
                        assert(h[b] == g[b]);
                    }
                }
            },
        }
    }
}

// ---------------------------------------------------------------------------
// Preparing the store
// ---------------------------------------------------------------------------

/// The query that tells whether both tables exist.
pub open spec fn tables_check_sql() -> Seq<char> {
    "SELECT EXISTS (SELECT FROM information_schema.tables WHERE table_schema = 'public' AND table_name = 'keys') AND EXISTS (SELECT FROM information_schema.tables WHERE table_schema = 'public' AND table_name = 'flows')"@
}

/// The query that tells whether the keys table has its retired flag.
pub open spec fn column_check_sql() -> Seq<char> {
    "SELECT EXISTS (SELECT FROM information_schema.columns WHERE table_schema = 'public' AND table_name = 'keys' AND column_name = 'deprecated')"@
}

/// The statement that creates the keys table.
pub open spec fn create_keys_sql() -> Seq<char> {
    "CREATE TABLE IF NOT EXISTS public.keys (key_id SERIAL PRIMARY KEY, host VARCHAR(255) NOT NULL, key TEXT NOT NULL, updated TIMESTAMP WITH TIME ZONE NOT NULL, deprecated BOOLEAN NOT NULL DEFAULT FALSE, CONSTRAINT unique_host_key UNIQUE (host, key))"@
}

/// The statement that creates the flows table.
pub open spec fn create_flows_sql() -> Seq<char> {
    "CREATE TABLE IF NOT EXISTS public.flows (flow_id SERIAL PRIMARY KEY, name VARCHAR(255) NOT NULL, key_id INTEGER NOT NULL, CONSTRAINT fk_key FOREIGN KEY(key_id) REFERENCES public.keys(key_id) ON DELETE CASCADE, CONSTRAINT unique_flow_key UNIQUE (name, key_id))"@
}

/// The statement that indexes flows by name.
pub open spec fn create_index_sql() -> Seq<char> {
    "CREATE INDEX IF NOT EXISTS idx_flows_name ON public.flows(name)"@
}

/// The statement that adds the retired flag to an older keys table.
pub open spec fn add_column_sql() -> Seq<char> {
    "ALTER TABLE public.keys ADD COLUMN deprecated BOOLEAN NOT NULL DEFAULT FALSE"@
}

/// What preparing the store does next.
#[derive(Debug)]
pub enum SchemaStep {
    /// Run these statements in order; the store is then ready.
    Execute(Vec<String>),
    /// Run this query, which answers whether the retired flag exists.
    CheckColumn(String),
    /// Nothing is left to do.
    Ready,
}

/// The first query of preparing the store.
pub fn tables_check_query() -> (r: String)
    ensures
        r@ == tables_check_sql(),
{
    owned("SELECT EXISTS (SELECT FROM information_schema.tables WHERE table_schema = 'public' AND table_name = 'keys') AND EXISTS (SELECT FROM information_schema.tables WHERE table_schema = 'public' AND table_name = 'flows')")
}

/// The step after the tables check: without both tables, create them and the index;
/// with them, check for the retired flag.
pub fn schema_after_table_check(tables_exist: bool) -> (r: SchemaStep)
    ensures
        !tables_exist ==> (r matches SchemaStep::Execute(v) && crate::keys::strings_view(v@)
            == seq![create_keys_sql(), create_flows_sql(), create_index_sql()]),
        tables_exist ==> (r matches SchemaStep::CheckColumn(q) && q@ == column_check_sql()),
{
    if !tables_exist {
        let mut v: Vec<String> = Vec::new();
        v.push(owned("CREATE TABLE IF NOT EXISTS public.keys (key_id SERIAL PRIMARY KEY, host VARCHAR(255) NOT NULL, key TEXT NOT NULL, updated TIMESTAMP WITH TIME ZONE NOT NULL, deprecated BOOLEAN NOT NULL DEFAULT FALSE, CONSTRAINT unique_host_key UNIQUE (host, key))"));
        v.push(owned("CREATE TABLE IF NOT EXISTS public.flows (flow_id SERIAL PRIMARY KEY, name VARCHAR(255) NOT NULL, key_id INTEGER NOT NULL, CONSTRAINT fk_key FOREIGN KEY(key_id) REFERENCES public.keys(key_id) ON DELETE CASCADE, CONSTRAINT unique_flow_key UNIQUE (name, key_id))"));
        v.push(owned("CREATE INDEX IF NOT EXISTS idx_flows_name ON public.flows(name)"));
        assert(crate::keys::strings_view(v@) =~= seq![create_keys_sql(), create_flows_sql(), create_index_sql()]);
        SchemaStep::Execute(v)
    } else {
        SchemaStep::CheckColumn(owned("SELECT EXISTS (SELECT FROM information_schema.columns WHERE table_schema = 'public' AND table_name = 'keys' AND column_name = 'deprecated')"))
    }
}

/// The step after the column check: add the retired flag when it is missing.
pub fn schema_after_column_check(column_exists: bool) -> (r: SchemaStep)
    ensures
        !column_exists ==> (r matches SchemaStep::Execute(v) && crate::keys::strings_view(v@)
            == seq![add_column_sql()]),
        column_exists ==> r is Ready,
{
    if !column_exists {
        let mut v: Vec<String> = Vec::new();
        v.push(owned("ALTER TABLE public.keys ADD COLUMN deprecated BOOLEAN NOT NULL DEFAULT FALSE"));
        assert(crate::keys::strings_view(v@) =~= seq![add_column_sql()]);
        SchemaStep::Execute(v)
    } else {
        SchemaStep::Ready
    }
}

} // verus!
