//! The key administration panel: which keys it lists for a search and a status
//! filter, its statistics, the servers the user has selected or expanded, and the
//! state of the desktop panel.
use vstd::prelude::*;
use std::time::Instant;
use crate::clock::instant_now;
use crate::keys::{key_preview, keys_view, strings_view, KeyView, SshKey};
use crate::settings::{is_configured_spec, KhmSettings};
use crate::text::{chars_of, owned, contains, contains_chars, lowercase, str_eq, to_lowercase};
use crate::web::{distinct_hosts, lemma_distinct_hosts, unique_hostnames};

verus! {

// ---------------------------------------------------------------------------
// Flags per server
// ---------------------------------------------------------------------------

/// A yes/no flag per server name, where a name never set reads as no (the selection
/// and the expanded groups of the panel). It keeps the names whose flag is set, each
/// once.
#[derive(Debug)]
pub struct ServerFlags {
    names: Vec<String>,
}

impl ServerFlags {
    /// Each name is kept once.
    #[verifier::type_invariant]
    spec fn names_distinct(self) -> bool {
        strings_view(self.names@).no_duplicates()
    }

    /// The names whose flag is set.
    pub closed spec fn flagged(self) -> Set<Seq<char>> {
        strings_view(self.names@).to_set()
    }
}

impl View for ServerFlags {
    type V = Set<Seq<char>>;

    open spec fn view(&self) -> Set<Seq<char>> {
        self.flagged()
    }
}

/// Whether `name` occurs in `names`.
fn position_of_name(names: &Vec<String>, name: &str) -> (r: Option<usize>)
    ensures
        r matches Some(i) ==> i < names@.len() && names@[i as int]@ == name@,
        r is None ==> !strings_view(names@).contains(name@),
{
    let mut i: usize = 0;
    while i < names.len()
        invariant
            i <= names.len(),
            forall|j: int| 0 <= j < i ==> (#[trigger] names@[j])@ != name@,
        decreases names.len() - i,
    {
        if str_eq(names[i].as_str(), name) {
            return Some(i);
        }
        i = i + 1;
    }
    proof {
        if strings_view(names@).contains(name@) {
            let j = choose|j: int| 0 <= j < strings_view(names@).len() && strings_view(names@)[j] == name@;
            assert(names@[j]@ == name@);
        }
    }
    None
}

impl ServerFlags {
    /// No flag set.
    pub fn new() -> (r: ServerFlags)
        ensures
            r@ == Set::<Seq<char>>::empty(),
    {
        let r = ServerFlags { names: Vec::new() };
        assert(strings_view(r.names@).to_set() =~= Set::<Seq<char>>::empty());
        r
    }

    /// The flag of `name` (no when it was never set).
    pub fn is_set(&self, name: &str) -> (r: bool)
        ensures
            r == self@.contains(name@),
    {
        match position_of_name(&self.names, name) {
            Some(i) => {
                assert(strings_view(self.names@)[i as int] == name@);
                true
            },
            None => false,
        }
    }

    /// Sets the flag of `name`.
    pub fn set(&mut self, name: &str, flag: bool)
        ensures
            final(self)@ == if flag {
                old(self)@.insert(name@)
            } else {
                old(self)@.remove(name@)
            },
    {
        proof {
            use_type_invariant(&*self);
        }
        let ghost before = strings_view(self.names@);
        let found = position_of_name(&self.names, name);
        let mut v: Vec<String> = Vec::new();
        std::mem::swap(&mut v, &mut self.names);
        assert(strings_view(v@) == before);
        match found {
            Some(i) => {
                if !flag {
                    v.remove(i);
                    proof {
                        let after = strings_view(v@);
                        assert(after =~= before.remove(i as int));
                        assert(after.no_duplicates()) by {
                            assert forall|a: int, b: int|
                                0 <= a < after.len() && 0 <= b < after.len() && a != b implies after[a]
                                != after[b] by {
                                let a1 = if a < i { a } else { a + 1 };
                                let b1 = if b < i { b } else { b + 1 };
                                assert(after[a] == before[a1]);
                                assert(after[b] == before[b1]);
                            }
                        }
                        assert forall|x: Seq<char>| after.to_set().contains(x) == before.to_set().remove(
                            name@,
                        ).contains(x) by {
                            if after.contains(x) {
                                let a = choose|a: int| 0 <= a < after.len() && after[a] == x;
                                let a1 = if a < i { a } else { a + 1 };
                                assert(before[a1] == x);
                                assert(a1 != i);
                                assert(before[i as int] == name@);
                            }
                            if before.contains(x) && x != name@ {
                                let a = choose|a: int| 0 <= a < before.len() && before[a] == x;
                                assert(a != i);
                                let a0 = if a < i { a } else { a - 1 };
                                assert(after[a0] == x);
                            }
                        }
                        assert(after.to_set() =~= before.to_set().remove(name@));
                    }
                } else {
                    proof {
                        assert(before[i as int] == name@);
                        assert(before.to_set().insert(name@) =~= before.to_set());
                    }
                }
            },
            None => {
                if flag {
                    let s = owned(name);
                    v.push(s);
                    proof {
                        let after = strings_view(v@);
                        assert(after =~= before.push(name@));
                        assert(after.no_duplicates()) by {
                            assert forall|a: int, b: int|
                                0 <= a < after.len() && 0 <= b < after.len() && a != b implies after[a]
                                != after[b] by {
                                if a == before.len() {
                                    assert(!before.contains(after[b]) || after[b] != name@);
                                } else if b == before.len() {
                                    assert(before[a] == after[a]);
                                }
                            }
                        }
                        assert(after.to_set() =~= before.to_set().insert(name@)) by {
                            assert forall|x: Seq<char>| after.to_set().contains(x) == before.to_set().insert(
                                name@,
                            ).contains(x) by {
                                if after.contains(x) {
                                    let a = choose|a: int| 0 <= a < after.len() && after[a] == x;
                                    if a < before.len() {
                                        assert(before[a] == x);
                                    }
                                }
                                if before.contains(x) {
                                    let a = choose|a: int| 0 <= a < before.len() && before[a] == x;
                                    assert(after[a] == x);
                                }
                                if x == name@ {
                                    assert(after[before.len() as int] == x);
                                }
                            }
                        }
                    }
                } else {
                    proof {
                        assert(before.to_set().remove(name@) =~= before.to_set());
                    }
                }
            },
        }
        self.names = v;
    }

    /// Clears every flag.
    pub fn clear(&mut self)
        ensures
            final(self)@ == Set::<Seq<char>>::empty(),
    {
        self.names = Vec::new();
        assert(strings_view(self.names@).to_set() =~= Set::<Seq<char>>::empty());
    }

    /// The names whose flag is set, each once.
    pub fn names(&self) -> (r: Vec<String>)
        ensures
            strings_view(r@).no_duplicates(),
            strings_view(r@).to_set() == self@,
    {
        proof {
            use_type_invariant(self);
        }
        let mut r: Vec<String> = Vec::new();
        let mut i: usize = 0;
        while i < self.names.len()
            invariant
                i <= self.names.len(),
                r@.len() == i,
                strings_view(r@) =~= strings_view(self.names@).take(i as int),
            decreases self.names.len() - i,
        {
            let s = self.names[i].clone();
            let ghost before = r@;
            r.push(s);
            assert(r@ == before.push(s));
            assert(strings_view(r@)[i as int] == self.names@[i as int]@);
            assert(strings_view(r@) =~= strings_view(self.names@).take(i as int + 1));
            i = i + 1;
        }
        assert(strings_view(self.names@).take(self.names@.len() as int) =~= strings_view(
            self.names@,
        ));
        r
    }

    /// How many flags are set.
    pub fn count(&self) -> (r: usize)
        ensures
            self@.finite(),
            r == self@.len(),
    {
        proof {
            use_type_invariant(self);
            strings_view(self.names@).unique_seq_to_set();
        }
        self.names.len()
    }

    /// Whether any flag is set.
    pub fn any(&self) -> (r: bool)
        ensures
            r == (self@.len() > 0),
    {
        self.count() > 0
    }
}

/// Reading a server's flag gives back what was last set for it, and setting one
/// server's flag leaves every other server's flag as it was.
pub proof fn lemma_flag_read_after_write(
    flags: Set<Seq<char>>,
    name: Seq<char>,
    flag: bool,
    other: Seq<char>,
)
    ensures
        (if flag {
            flags.insert(name)
        } else {
            flags.remove(name)
        }).contains(name) == flag,
        other != name ==> (if flag {
            flags.insert(name)
        } else {
            flags.remove(name)
        }).contains(other) == flags.contains(other),
{
}

// ---------------------------------------------------------------------------
// Listing keys
// ---------------------------------------------------------------------------

/// Which keys the status filter lets through.
#[derive(Debug, Clone, Copy, PartialEq, Eq, Structural)]
pub enum StatusFilter {
    All,
    DeprecatedOnly,
    ActiveOnly,
}

/// A key passes the status filter.
pub open spec fn status_ok(k: KeyView, filter: StatusFilter) -> bool {
    match filter {
        StatusFilter::All => true,
        StatusFilter::DeprecatedOnly => k.deprecated,
        StatusFilter::ActiveOnly => !k.deprecated,
    }
}

/// A key matches the search: the search is empty, or its lower-case form occurs in
/// the lower-case server name or public key.
pub open spec fn search_ok(k: KeyView, term: Seq<char>) -> bool {
    term.len() == 0 || contains(lowercase(k.server), lowercase(term)) || contains(
        lowercase(k.public_key),
        lowercase(term),
    )
}

/// A key is listed.
pub open spec fn listed(k: KeyView, filter: StatusFilter, term: Seq<char>) -> bool {
    status_ok(k, filter) && search_ok(k, term)
}

/// The keys listed, in order.
pub open spec fn filtered_spec(keys: Seq<KeyView>, filter: StatusFilter, term: Seq<char>) -> Seq<
    KeyView,
> {
    keys.filter(|k: KeyView| listed(k, filter, term))
}

/// Listing is stable: listing the listed keys again with the same switch and search
/// lists the same keys.
pub proof fn lemma_filter_idempotent(keys: Seq<KeyView>, filter: StatusFilter, term: Seq<char>)
    ensures
        filtered_spec(filtered_spec(keys, filter, term), filter, term) == filtered_spec(
            keys,
            filter,
            term,
        ),
    decreases keys.len(),
{
    let p = |k: KeyView| listed(k, filter, term);
    assert(filtered_spec(keys, filter, term) == keys.filter(p));
    if keys.len() > 0 {
        lemma_filter_idempotent(keys.drop_last(), filter, term);
        let prev = keys.drop_last().filter(p);
        assert(filtered_spec(keys.drop_last(), filter, term) == prev);
        assert(prev.filter(p) == prev);
        assert(keys =~= keys.drop_last().push(keys.last()));
        keys.drop_last().lemma_filter_push(keys.last(), p);
        if p(keys.last()) {
            prev.lemma_filter_push(keys.last(), p);
        }
    }
}

/// The keys that pass the status filter and match the search, in order.
pub fn filter_key_list(keys: &Vec<SshKey>, filter: StatusFilter, search_term: &str) -> (r: Vec<
    SshKey,
>)
    ensures
        keys_view(r@) == filtered_spec(keys_view(keys@), filter, search_term@),
{
    let no_search = search_term.is_empty();
    let lower_term = to_lowercase(search_term);
    let lt = chars_of(lower_term.as_str());
    let ghost pred = |k: KeyView| listed(k, filter, search_term@);
    let mut r: Vec<SshKey> = Vec::new();
    let mut i: usize = 0;
    while i < keys.len()
        invariant
            i <= keys.len(),
            no_search == (search_term@.len() == 0),
            lt@ == lowercase(search_term@),
            pred == (|k: KeyView| listed(k, filter, search_term@)),
            keys_view(r@) == keys_view(keys@).take(i as int).filter(pred),
        decreases keys.len() - i,
    {
        let ghost t = keys_view(keys@).take(i as int + 1);
        assert(t =~= keys_view(keys@).take(i as int).push(keys@[i as int]@));
        proof {
            keys_view(keys@).take(i as int).lemma_filter_push(keys@[i as int]@, pred);
        }
        let k = &keys[i];
        let status = match filter {
            StatusFilter::All => true,
            StatusFilter::DeprecatedOnly => k.deprecated,
            StatusFilter::ActiveOnly => !k.deprecated,
        };
        let found = if no_search {
            true
        } else {
            let ls = to_lowercase(k.server.as_str());
            if contains_chars(chars_of(ls.as_str()).as_slice(), lt.as_slice()) {
                true
            } else {
                let lk = to_lowercase(k.public_key.as_str());
                contains_chars(chars_of(lk.as_str()).as_slice(), lt.as_slice())
            }
        };
        assert(found == search_ok(k@, search_term@));
        if status && found {
            let ghost before = keys_view(r@);
            let c = k.duplicate();
            r.push(c);
            assert(keys_view(r@) =~= before.push(c@));
        }
        i = i + 1;
    }
    assert(keys_view(keys@).take(keys@.len() as int) =~= keys_view(keys@));
    r
}

/// The status filter of the browser panel's two switches: retired keys only when the
/// first is on, else active keys only when the second is on, else all keys.
pub open spec fn two_switch_filter(show_deprecated_only: bool, show_active_only: bool) -> StatusFilter {
    if show_deprecated_only {
        StatusFilter::DeprecatedOnly
    } else if show_active_only {
        StatusFilter::ActiveOnly
    } else {
        StatusFilter::All
    }
}

/// The keys the browser panel lists under its two switches and its search, in order.
pub fn filter_keys_by_switches(
    keys: &Vec<SshKey>,
    show_deprecated_only: bool,
    show_active_only: bool,
    search_term: &str,
) -> (r: Vec<SshKey>)
    ensures
        keys_view(r@) == filtered_spec(
            keys_view(keys@),
            two_switch_filter(show_deprecated_only, show_active_only),
            search_term@,
        ),
{
    let filter = if show_deprecated_only {
        StatusFilter::DeprecatedOnly
    } else if show_active_only {
        StatusFilter::ActiveOnly
    } else {
        StatusFilter::All
    };
    filter_key_list(keys, filter, search_term)
}

// ---------------------------------------------------------------------------
// Statistics
// ---------------------------------------------------------------------------

/// Counts over the loaded keys.
#[derive(Debug, Clone, Copy)]
pub struct AdminStatistics {
    pub total_keys: usize,
    pub active_keys: usize,
    pub deprecated_keys: usize,
    pub unique_servers: usize,
}

/// The keys that are not retired.
pub open spec fn active_filter(keys: Seq<KeyView>) -> Seq<KeyView> {
    keys.filter(|k: KeyView| !k.deprecated)
}

/// The statistics of a list of keys: how many there are, how many are active, how
/// many are retired, and how many distinct servers they belong to.
pub open spec fn statistics_spec(keys: Seq<KeyView>, s: AdminStatistics) -> bool {
    &&& s.total_keys == keys.len()
    &&& s.active_keys == active_filter(keys).len()
    &&& s.deprecated_keys == keys.len() - active_filter(keys).len()
    &&& s.unique_servers == distinct_hosts(keys).len()
}

/// The statistics of a list of keys.
pub fn key_statistics(keys: &Vec<SshKey>) -> (r: AdminStatistics)
    ensures
        statistics_spec(keys_view(keys@), r),
{
    let ghost pred = |k: KeyView| !k.deprecated;
    let mut active: usize = 0;
    let mut i: usize = 0;
    while i < keys.len()
        invariant
            i <= keys.len(),
            pred == (|k: KeyView| !k.deprecated),
            active == keys_view(keys@).take(i as int).filter(pred).len(),
            active <= i,
        decreases keys.len() - i,
    {
        let ghost t = keys_view(keys@).take(i as int + 1);
        assert(t =~= keys_view(keys@).take(i as int).push(keys@[i as int]@));
        proof {
            keys_view(keys@).take(i as int).lemma_filter_push(keys@[i as int]@, pred);
        }
        if !keys[i].deprecated {
            active = active + 1;
        }
        i = i + 1;
    }
    assert(keys_view(keys@).take(keys@.len() as int) =~= keys_view(keys@));
    let servers = unique_hostnames(keys);
    assert(servers@.len() == servers@.map_values(|s: String| s@).len());
    AdminStatistics {
        total_keys: keys.len(),
        active_keys: active,
        deprecated_keys: keys.len() - active,
        unique_servers: servers.len(),
    }
}

/// The statistics add up: active and retired keys make up all keys, and the number of
/// distinct servers is the size of the set of the keys' server names.
pub proof fn lemma_statistics_consistent(keys: Seq<KeyView>, s: AdminStatistics)
    requires
        statistics_spec(keys, s),
    ensures
        s.active_keys + s.deprecated_keys == s.total_keys,
        s.unique_servers == keys.map_values(|k: KeyView| k.server).to_set().len(),
        s.unique_servers <= s.total_keys,
{
    let names = keys.map_values(|k: KeyView| k.server);
    let d = distinct_hosts(keys);
    lemma_distinct_hosts(keys);
    d.unique_seq_to_set();
    assert(d.to_set() =~= names.to_set()) by {
        assert forall|h: Seq<char>| d.to_set().contains(h) == names.to_set().contains(h) by {
            if d.contains(h) {
                let i = choose|i: int| 0 <= i < keys.len() && (#[trigger] keys[i]).server == h;
                assert(names[i] == h);
            }
            if names.contains(h) {
                let i = choose|i: int| 0 <= i < names.len() && names[i] == h;
                assert(keys[i].server == h);
            }
        }
    }
    names.lemma_cardinality_of_set();
}

// ---------------------------------------------------------------------------
// Key display
// ---------------------------------------------------------------------------

/// The short form of a public key shown in the desktop panel: the first twelve
/// characters of its key part.
pub fn get_key_preview(public_key: &str) -> (r: String)
    ensures
        r@ == crate::keys::preview_spec(public_key@, 12),
{
    key_preview(public_key, 12)
}

/// The type of a public key: `RSA`, `ED25519`, `ECDSA`, `DSA` or `Unknown`.
pub fn get_key_type(public_key: &str) -> (r: String)
    ensures
        r@ == crate::keys::key_type_spec(public_key@),
{
    crate::keys::key_type_name(public_key)
}

// ---------------------------------------------------------------------------
// The desktop panel
// ---------------------------------------------------------------------------

/// What the desktop panel is busy with.
#[derive(Debug, Clone, Copy, PartialEq, Eq, Structural)]
pub enum AdminOperation {
    LoadingKeys,
    DeprecatingKey,
    RestoringKey,
    DeletingKey,
    BulkDeprecating,
    BulkRestoring,
    Idle,
}

/// The state of the desktop key panel.
#[derive(Debug)]
pub struct AdminState {
    pub keys: Vec<SshKey>,
    pub filtered_keys: Vec<SshKey>,
    pub search_term: String,
    pub show_deprecated_only: bool,
    pub selected_servers: ServerFlags,
    pub expanded_servers: ServerFlags,
    pub current_operation: AdminOperation,
    pub last_load_time: Option<Instant>,
}

impl Default for AdminState {
    /// No keys, no search, nothing selected, nothing running.
    fn default() -> (r: Self)
        ensures
            r.keys@.len() == 0,
            r.filtered_keys@.len() == 0,
            r.search_term@.len() == 0,
            !r.show_deprecated_only,
            r.selected_servers@ == Set::<Seq<char>>::empty(),
            r.expanded_servers@ == Set::<Seq<char>>::empty(),
            r.current_operation == AdminOperation::Idle,
            r.last_load_time is None,
    {
        AdminState {
            keys: Vec::new(),
            filtered_keys: Vec::new(),
            search_term: String::new(),
            show_deprecated_only: false,
            selected_servers: ServerFlags::new(),
            expanded_servers: ServerFlags::new(),
            current_operation: AdminOperation::Idle,
            last_load_time: None,
        }
    }
}

/// The status filter of the desktop panel's switch.
pub open spec fn desktop_filter(show_deprecated_only: bool) -> StatusFilter {
    if show_deprecated_only {
        StatusFilter::DeprecatedOnly
    } else {
        StatusFilter::All
    }
}

impl AdminState {
    /// Recomputes the listed keys from the loaded keys, the switch and the search.
    pub fn filter_keys(&mut self)
        ensures
            keys_view(final(self).filtered_keys@) == filtered_spec(
                keys_view(old(self).keys@),
                desktop_filter(old(self).show_deprecated_only),
                old(self).search_term@,
            ),
            final(self).keys == old(self).keys,
            final(self).search_term == old(self).search_term,
            final(self).show_deprecated_only == old(self).show_deprecated_only,
            final(self).selected_servers == old(self).selected_servers,
            final(self).expanded_servers == old(self).expanded_servers,
            final(self).current_operation == old(self).current_operation,
            final(self).last_load_time == old(self).last_load_time,
    {
        let filter = if self.show_deprecated_only {
            StatusFilter::DeprecatedOnly
        } else {
            StatusFilter::All
        };
        self.filtered_keys = filter_key_list(&self.keys, filter, self.search_term.as_str());
    }

    /// Marks a load of the keys as running when a server and a flow are configured;
    /// says whether the load should start.
    pub fn begin_loading(&mut self, settings: &KhmSettings) -> (started: bool)
        ensures
            started == is_configured_spec(*settings),
            started ==> final(self).current_operation == AdminOperation::LoadingKeys,
            !started ==> *final(self) == *old(self),
            final(self).keys == old(self).keys,
            final(self).filtered_keys == old(self).filtered_keys,
            final(self).search_term == old(self).search_term,
            final(self).show_deprecated_only == old(self).show_deprecated_only,
            final(self).selected_servers == old(self).selected_servers,
            final(self).expanded_servers == old(self).expanded_servers,
            final(self).last_load_time == old(self).last_load_time,
    {
        if !settings.is_configured() {
            return false;
        }
        self.current_operation = AdminOperation::LoadingKeys;
        true
    }

    /// Takes the result of loading the keys: on success the keys replace the loaded
    /// ones, the load time is recorded and the list is recomputed; either way nothing
    /// is running afterwards.
    pub fn handle_keys_loaded(&mut self, result: Result<Vec<SshKey>, String>)
        ensures
            final(self).current_operation == AdminOperation::Idle,
            final(self).search_term == old(self).search_term,
            final(self).show_deprecated_only == old(self).show_deprecated_only,
            final(self).selected_servers == old(self).selected_servers,
            final(self).expanded_servers == old(self).expanded_servers,
            match result {
                Ok(keys) => {
                    &&& final(self).keys == keys
                    &&& final(self).last_load_time is Some
                    &&& keys_view(final(self).filtered_keys@) == filtered_spec(
                        keys_view(keys@),
                        desktop_filter(old(self).show_deprecated_only),
                        old(self).search_term@,
                    )
                },
                Err(_) => {
                    &&& final(self).keys == old(self).keys
                    &&& final(self).filtered_keys == old(self).filtered_keys
                    &&& final(self).last_load_time == old(self).last_load_time
                },
            },
    {
        match result {
            Ok(keys) => {
                self.keys = keys;
                self.last_load_time = Some(instant_now());
                self.filter_keys();
                self.current_operation = AdminOperation::Idle;
            },
            Err(_) => {
                self.current_operation = AdminOperation::Idle;
            },
        }
    }

    /// The selected servers, each once.
    pub fn get_selected_servers(&self) -> (r: Vec<String>)
        ensures
            strings_view(r@).no_duplicates(),
            strings_view(r@).to_set() == self.selected_servers@,
    {
        self.selected_servers.names()
    }

    /// Clears the selection.
    pub fn clear_selection(&mut self)
        ensures
            final(self).selected_servers@ == Set::<Seq<char>>::empty(),
            final(self).keys == old(self).keys,
            final(self).filtered_keys == old(self).filtered_keys,
            final(self).expanded_servers == old(self).expanded_servers,
            final(self).current_operation == old(self).current_operation,
            final(self).search_term == old(self).search_term,
            final(self).show_deprecated_only == old(self).show_deprecated_only,
            final(self).last_load_time == old(self).last_load_time,
    {
        self.selected_servers.clear();
    }

    /// The statistics of the loaded keys.
    pub fn get_statistics(&self) -> (r: AdminStatistics)
        ensures
            statistics_spec(keys_view(self.keys@), r),
    {
        key_statistics(&self.keys)
    }
}

// ---------------------------------------------------------------------------
// Requests of the desktop panel
// ---------------------------------------------------------------------------

/// What a row of the key table asked for.
#[derive(Debug, Clone, PartialEq, Eq)]
pub enum KeyAction {
    NoAction,
    DeprecateKey(String),
    RestoreKey(String),
    DeleteKey(String),
    DeprecateServer(String),
    RestoreServer(String),
}

/// What the bulk buttons asked for.
#[derive(Debug, Clone, Copy, PartialEq, Eq, Structural)]
pub enum BulkAction {
    NoAction,
    DeprecateSelected,
    RestoreSelected,
    ClearSelection,
}

/// A request to send to the server.
#[derive(Debug)]
pub enum AdminRequest {
    Deprecate(String),
    Restore(String),
    Delete(String),
    BulkDeprecate(Vec<String>),
    BulkRestore(Vec<String>),
}

/// `<head><text>`.
fn joined_message(head: &str, text: &str) -> (r: String)
    ensures
        r@ == head@ + text@,
{
    let mut r = owned(head);
    crate::text::append_str(&mut r, text);
    r
}

impl AdminState {
    /// Starts what a row of the key table asked for: the operation on that server,
    /// with the activity-log message that announces it. Nothing for no action.
    pub fn plan_key_action(&mut self, action: KeyAction) -> (r: Option<(AdminRequest, String)>)
        ensures
            final(self).keys == old(self).keys,
            final(self).filtered_keys == old(self).filtered_keys,
            final(self).search_term == old(self).search_term,
            final(self).show_deprecated_only == old(self).show_deprecated_only,
            final(self).selected_servers == old(self).selected_servers,
            final(self).expanded_servers == old(self).expanded_servers,
            final(self).last_load_time == old(self).last_load_time,
            match action {
                KeyAction::NoAction => r is None && final(self).current_operation
                    == old(self).current_operation,
                KeyAction::DeprecateKey(s) | KeyAction::DeprecateServer(s) => r matches Some(
                    (AdminRequest::Deprecate(t), m),
                ) && t@ == s@ && m@ == "Deprecating key for server: "@ + s@
                    && final(self).current_operation == AdminOperation::DeprecatingKey,
                KeyAction::RestoreKey(s) | KeyAction::RestoreServer(s) => r matches Some(
                    (AdminRequest::Restore(t), m),
                ) && t@ == s@ && m@ == "Restoring key for server: "@ + s@
                    && final(self).current_operation == AdminOperation::RestoringKey,
                KeyAction::DeleteKey(s) => r matches Some((AdminRequest::Delete(t), m)) && t@
                    == s@ && m@ == "Deleting key for server: "@ + s@
                    && final(self).current_operation == AdminOperation::DeletingKey,
            },
    {
        match action {
            KeyAction::NoAction => None,
            KeyAction::DeprecateKey(s) | KeyAction::DeprecateServer(s) => {
                self.current_operation = AdminOperation::DeprecatingKey;
                let m = joined_message("Deprecating key for server: ", s.as_str());
                Some((AdminRequest::Deprecate(s), m))
            },
            KeyAction::RestoreKey(s) | KeyAction::RestoreServer(s) => {
                self.current_operation = AdminOperation::RestoringKey;
                let m = joined_message("Restoring key for server: ", s.as_str());
                Some((AdminRequest::Restore(s), m))
            },
            KeyAction::DeleteKey(s) => {
                self.current_operation = AdminOperation::DeletingKey;
                let m = joined_message("Deleting key for server: ", s.as_str());
                Some((AdminRequest::Delete(s), m))
            },
        }
    }

    /// Starts what the bulk buttons asked for: an operation on all selected servers,
    /// with the activity-log message that announces it, when some are selected.
    /// Nothing otherwise (clearing the selection is done by the panel itself).
    pub fn plan_bulk_action(&mut self, action: BulkAction) -> (r: Option<(AdminRequest, String)>)
        ensures
            final(self).keys == old(self).keys,
            final(self).filtered_keys == old(self).filtered_keys,
            final(self).search_term == old(self).search_term,
            final(self).show_deprecated_only == old(self).show_deprecated_only,
            final(self).selected_servers == old(self).selected_servers,
            final(self).expanded_servers == old(self).expanded_servers,
            final(self).last_load_time == old(self).last_load_time,
            (action == BulkAction::DeprecateSelected || action == BulkAction::RestoreSelected)
                && old(self).selected_servers@.len() > 0 ==> (match r {
                Some((AdminRequest::BulkDeprecate(v), m)) => action == BulkAction::DeprecateSelected
                    && strings_view(v@).no_duplicates() && strings_view(v@).to_set()
                    == old(self).selected_servers@ && m@ == "Deprecating "@ + crate::text::decimal(
                    v@.len(),
                ) + " servers..."@ && final(self).current_operation
                    == AdminOperation::BulkDeprecating,
                Some((AdminRequest::BulkRestore(v), m)) => action == BulkAction::RestoreSelected
                    && strings_view(v@).no_duplicates() && strings_view(v@).to_set()
                    == old(self).selected_servers@ && m@ == "Restoring "@ + crate::text::decimal(
                    v@.len(),
                ) + " servers..."@ && final(self).current_operation
                    == AdminOperation::BulkRestoring,
                _ => false,
            }),
            !((action == BulkAction::DeprecateSelected || action == BulkAction::RestoreSelected)
                && old(self).selected_servers@.len() > 0) ==> r is None
                && final(self).current_operation == old(self).current_operation,
    {
        let restore = match action {
            BulkAction::DeprecateSelected => false,
            BulkAction::RestoreSelected => true,
            _ => return None,
        };
        let selected = self.get_selected_servers();
        proof {
            strings_view(selected@).unique_seq_to_set();
        }
        if selected.len() == 0 {
            return None;
        }
        let mut m = if restore {
            owned("Restoring ")
        } else {
            owned("Deprecating ")
        };
        crate::text::push_decimal(&mut m, selected.len() as u64);
        crate::text::append_str(&mut m, " servers...");
        if restore {
            self.current_operation = AdminOperation::BulkRestoring;
            Some((AdminRequest::BulkRestore(selected), m))
        } else {
            self.current_operation = AdminOperation::BulkDeprecating;
            Some((AdminRequest::BulkDeprecate(selected), m))
        }
    }

    /// Takes the result of a request: nothing runs afterwards; gives the activity-log
    /// message and whether the keys are to be reloaded (after a success).
    pub fn finish_request(&mut self, result: Result<String, String>) -> (r: (String, bool))
        ensures
            final(self).current_operation == AdminOperation::Idle,
            final(self).keys == old(self).keys,
            final(self).filtered_keys == old(self).filtered_keys,
            final(self).search_term == old(self).search_term,
            final(self).show_deprecated_only == old(self).show_deprecated_only,
            final(self).selected_servers == old(self).selected_servers,
            final(self).expanded_servers == old(self).expanded_servers,
            final(self).last_load_time == old(self).last_load_time,
            match result {
                Ok(m) => r.0@ == "✅ "@ + m@ && r.1,
                Err(e) => r.0@ == "❌ Operation failed: "@ + e@ && !r.1,
            },
    {
        self.current_operation = AdminOperation::Idle;
        match result {
            Ok(m) => (joined_message("✅ ", m.as_str()), true),
            Err(e) => (joined_message("❌ Operation failed: ", e.as_str()), false),
        }
    }
}

} // verus!
