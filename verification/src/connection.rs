//! The connection tab of the settings window: its state, how the results of a
//! connection test and of a synchronisation update it, and how key counts are read
//! back from result messages.
use vstd::prelude::*;
use crate::api::{found_message_spec, sync_message_spec};
use crate::text::{
    append_str, chars_of, decimal, find, find_chars, first_at, is_digit, lacks, last_index_of,
    lemma_decimal_digits, lemma_decimal_lacks, lemma_find_absent, lemma_find_at,
    lemma_last_index_after, lemma_parse_decimal, occurs_at, owned, parse_usize,
    parse_usize_chars, rfind_char, slice_to_vec,
};

verus! {

/// What the last connection test found.
#[derive(Clone, Debug)]
pub enum ConnectionStatus {
    Unknown,
    Connected { keys_count: usize, flow: String },
    Error(String),
}

/// What the last synchronisation did.
#[derive(Clone, Debug)]
pub enum SyncStatus {
    Unknown,
    Success { keys_count: usize },
    Error(String),
}

/// The tabs of the settings window.
#[derive(Clone, Copy, Debug, PartialEq, Eq, Structural)]
pub enum SettingsTab {
    Connection,
    Admin,
}

/// The state of the connection tab. Results of background work arrive from outside
/// and are applied with [`ConnectionTab::finish_test`] and [`ConnectionTab::finish_sync`].
#[derive(Clone, Debug)]
pub struct ConnectionTab {
    pub connection_status: ConnectionStatus,
    pub is_testing_connection: bool,
    pub is_syncing: bool,
    pub sync_status: SyncStatus,
    pub should_auto_test: bool,
}

impl ConnectionTab {
    /// The initial state: nothing tested, nothing running.
    pub fn new() -> (r: ConnectionTab)
        ensures
            r.connection_status is Unknown,
            !r.is_testing_connection,
            !r.is_syncing,
            r.sync_status is Unknown,
            !r.should_auto_test,
    {
        ConnectionTab {
            connection_status: ConnectionStatus::Unknown,
            is_testing_connection: false,
            is_syncing: false,
            sync_status: SyncStatus::Unknown,
            should_auto_test: false,
        }
    }

    /// Starts a connection test unless one is running; says whether one was started.
    pub fn begin_test(&mut self) -> (started: bool)
        ensures
            started == !old(self).is_testing_connection,
            started ==> final(self).is_testing_connection && final(self).connection_status is Unknown
                && final(self).is_syncing == old(self).is_syncing && final(self).should_auto_test
                == old(self).should_auto_test && final(self).sync_status == old(self).sync_status,
            !started ==> *final(self) == *old(self),
    {
        if self.is_testing_connection {
            return false;
        }
        self.is_testing_connection = true;
        self.connection_status = ConnectionStatus::Unknown;
        true
    }

    /// Starts a synchronisation unless one is running; says whether one was started.
    pub fn begin_sync(&mut self) -> (started: bool)
        ensures
            started == !old(self).is_syncing,
            started ==> final(self).is_syncing && final(self).sync_status is Unknown
                && final(self).is_testing_connection == old(self).is_testing_connection
                && final(self).connection_status == old(self).connection_status
                && final(self).should_auto_test == old(self).should_auto_test,
            !started ==> *final(self) == *old(self),
    {
        if self.is_syncing {
            return false;
        }
        self.is_syncing = true;
        self.sync_status = SyncStatus::Unknown;
        true
    }

    /// Whether the test asked for at start-up should run now; clears the request when so.
    pub fn take_auto_test(&mut self) -> (run: bool)
        ensures
            run == (old(self).should_auto_test && !old(self).is_testing_connection),
            run ==> !final(self).should_auto_test,
            !run ==> *final(self) == *old(self),
    {
        if self.should_auto_test && !self.is_testing_connection {
            self.should_auto_test = false;
            true
        } else {
            false
        }
    }

    /// Applies the result of a connection test: on success the number of keys named in
    /// the message and the configured flow, on failure the error. Gives the activity-log
    /// message.
    pub fn finish_test(&mut self, result: Result<String, String>, flow: &str) -> (log: String)
        ensures
            !final(self).is_testing_connection,
            final(self).is_syncing == old(self).is_syncing,
            final(self).sync_status == old(self).sync_status,
            final(self).should_auto_test == old(self).should_auto_test,
            match result {
                Ok(m) => final(self).connection_status matches ConnectionStatus::Connected {
                    keys_count,
                    flow: f,
                } && keys_count == found_count_spec(m@) && f@ == flow@ && log@
                    == "✅ Connection test successful: "@ + m@,
                Err(e) => final(self).connection_status matches ConnectionStatus::Error(t) && t@
                    == e@ && log@ == "❌ Connection test failed: "@ + e@,
            },
    {
        self.is_testing_connection = false;
        match result {
            Ok(message) => {
                let keys_count = parse_found_count(message.as_str());
                self.connection_status = ConnectionStatus::Connected {
                    keys_count,
                    flow: owned(flow),
                };
                let mut log = owned("✅ Connection test successful: ");
                append_str(&mut log, message.as_str());
                log
            },
            Err(error) => {
                let mut log = owned("❌ Connection test failed: ");
                append_str(&mut log, error.as_str());
                self.connection_status = ConnectionStatus::Error(error);
                log
            },
        }
    }

    /// Applies the result of a synchronisation: on success the number of keys read from
    /// the message, on failure the error. Gives the activity-log message.
    pub fn finish_sync(&mut self, result: Result<String, String>) -> (log: String)
        ensures
            !final(self).is_syncing,
            final(self).is_testing_connection == old(self).is_testing_connection,
            final(self).connection_status == old(self).connection_status,
            final(self).should_auto_test == old(self).should_auto_test,
            match result {
                Ok(m) => final(self).sync_status matches SyncStatus::Success { keys_count }
                    && keys_count == keys_count_spec(m@) && log@ == "✅ Sync completed: "@ + m@,
                Err(e) => final(self).sync_status matches SyncStatus::Error(t) && t@ == e@ && log@
                    == "❌ Sync failed: "@ + e@,
            },
    {
        self.is_syncing = false;
        match result {
            Ok(message) => {
                let keys_count = parse_keys_count(message.as_str());
                self.sync_status = SyncStatus::Success { keys_count };
                let mut log = owned("✅ Sync completed: ");
                append_str(&mut log, message.as_str());
                log
            },
            Err(error) => {
                let mut log = owned("❌ Sync failed: ");
                append_str(&mut log, error.as_str());
                self.sync_status = SyncStatus::Error(error);
                log
            },
        }
    }
}

// ---------------------------------------------------------------------------
// Reading counts back from messages
// ---------------------------------------------------------------------------

/// A parsed number, or zero when the text is not one.
pub open spec fn number_or_zero(s: Seq<char>) -> nat {
    match parse_usize(s) {
        Some(v) => v,
        None => 0,
    }
}

/// The number between `Found ` and ` SSH keys` in a connection-test message, or zero.
pub open spec fn found_count_spec(m: Seq<char>) -> nat {
    match find(m, "Found "@) {
        Some(s) => {
            let rest = m.skip(s + "Found "@.len());
            match find(rest, " SSH keys"@) {
                Some(e) => number_or_zero(rest.take(e)),
                None => 0,
            }
        },
        None => 0,
    }
}

/// The number a synchronisation message reports: after `updated with ` or `Retrieved `
/// when the message has them, else the word before the first ` keys`; zero when there
/// is none.
pub open spec fn keys_count_spec(m: Seq<char>) -> nat {
    match find(m, "updated with "@) {
        Some(s) => {
            let rest = m.skip(s + "updated with "@.len());
            match find(rest, " keys"@) {
                Some(e) => number_or_zero(rest.take(e)),
                None => 0,
            }
        },
        None => match find(m, "Retrieved "@) {
            Some(s) => {
                let rest = m.skip(s + "Retrieved "@.len());
                match find(rest, " keys"@) {
                    Some(e) => number_or_zero(rest.take(e)),
                    None => 0,
                }
            },
            None => match find(m, " keys"@) {
                Some(k) => {
                    let before = m.take(k);
                    match last_index_of(before, ' ') {
                        Some(sp) => number_or_zero(before.skip(sp + 1)),
                        None => 0,
                    }
                },
                None => 0,
            },
        },
    }
}

/// The number in `v`, or zero.
fn number_or_zero_chars(v: &[char]) -> (r: usize)
    ensures
        r == number_or_zero(v@),
{
    match parse_usize_chars(v) {
        Some(n) => n,
        None => 0,
    }
}

/// The number that follows `marker` in `m` up to the next `end`, or zero.
fn number_after(m: &[char], marker: &str, end: &str) -> (r: Option<usize>)
    ensures
        match find(m@, marker@) {
            Some(s) => r matches Some(n) && n == ({
                let rest = m@.skip(s + marker@.len());
                match find(rest, end@) {
                    Some(e) => number_or_zero(rest.take(e)),
                    None => 0,
                }
            }),
            None => r is None,
        },
{
    let mk = chars_of(marker);
    let en = chars_of(end);
    match find_chars(m, mk.as_slice()) {
        Some(s) => {
            assert(first_at(m@, mk@, s as int));
            let n = m.len();
            let k = mk.len();
            assert(s + k <= n);
            let rest = slice_to_vec(m, s + k, n);
            assert(rest@ == m@.skip(s + mk@.len()));
            match find_chars(rest.as_slice(), en.as_slice()) {
                Some(e) => {
                    let digits = slice_to_vec(rest.as_slice(), 0, e);
                    assert(digits@ == rest@.take(e as int));
                    Some(number_or_zero_chars(digits.as_slice()))
                },
                None => Some(0),
            }
        },
        None => None,
    }
}

/// Reads the number of keys from a connection-test message (`Found <n> SSH keys ...`).
pub fn parse_found_count(message: &str) -> (r: usize)
    ensures
        r == found_count_spec(message@),
{
    let m = chars_of(message);
    match number_after(m.as_slice(), "Found ", " SSH keys") {
        Some(n) => n,
        None => 0,
    }
}

/// Reads the number of keys from a synchronisation message.
pub fn parse_keys_count(message: &str) -> (r: usize)
    ensures
        r == keys_count_spec(message@),
{
    let m = chars_of(message);
    if let Some(n) = number_after(m.as_slice(), "updated with ", " keys") {
        return n;
    }
    if let Some(n) = number_after(m.as_slice(), "Retrieved ", " keys") {
        return n;
    }
    let kw = chars_of(" keys");
    match find_chars(m.as_slice(), kw.as_slice()) {
        Some(k) => {
            let before = slice_to_vec(m.as_slice(), 0, k);
            assert(before@ == m@.take(k as int));
            match rfind_char(before.as_slice(), ' ') {
                Some(sp) => {
                    proof {
                        lemma_last_index_in_range(before@, ' ');
                    }
                    let digits = slice_to_vec(before.as_slice(), sp + 1, before.len());
                    assert(digits@ == before@.skip(sp + 1));
                    number_or_zero_chars(digits.as_slice())
                },
                None => 0,
            }
        },
        None => 0,
    }
}

/// A last position is a position of the sequence.
proof fn lemma_last_index_in_range(s: Seq<char>, c: char)
    ensures
        last_index_of(s, c) matches Some(i) ==> 0 <= i < s.len() && s[i] == c,
    decreases s.len(),
{
    if s.len() > 0 && s.last() != c {
        lemma_last_index_in_range(s.drop_last(), c);
    }
}

// ---------------------------------------------------------------------------
// Laws
// ---------------------------------------------------------------------------

/// The count shown after a connection test is the count that the test reported:
/// reading it back from `Found <n> SSH keys from flow '<flow>'` gives `n`, whatever
/// the flow's name.
pub proof fn lemma_found_count_round_trip(n: nat, flow: Seq<char>)
    requires
        n <= usize::MAX,
    ensures
        found_count_spec(found_message_spec(n, flow)) == n,
{
    reveal_strlit("Found ");
    reveal_strlit(" SSH keys from flow '");
    reveal_strlit(" SSH keys");
    reveal_strlit("'");
    let d = decimal(n);
    lemma_decimal_digits(n);
    let head = "Found "@;
    let sk = " SSH keys"@;
    let m = found_message_spec(n, flow);
    assert(m.subrange(0, 6) =~= head);
    lemma_find_at(m, head, 0);
    let rest = m.skip(6);
    assert(rest =~= d + (" SSH keys from flow '"@ + flow + "'"@));
    assert(rest.subrange(d.len() as int, d.len() as int + 9) =~= sk);
    assert forall|j: int| 0 <= j < d.len() implies !occurs_at(rest, sk, j) by {
        assert(rest[j] == d[j]);
        assert(is_digit(d[j]));
        if occurs_at(rest, sk, j) {
            assert(rest.subrange(j, j + 9)[0] == rest[j]);
        }
    }
    lemma_find_at(rest, sk, d.len() as int);
    assert(rest.take(d.len() as int) =~= d);
    lemma_parse_decimal(n);
}

/// The count shown after a synchronisation is the count that it reported: reading it
/// back from `Sync completed successfully with <n> keys` gives `n`.
pub proof fn lemma_sync_count_round_trip(n: nat)
    requires
        n <= usize::MAX,
    ensures
        keys_count_spec(sync_message_spec(n)) == n,
{
    reveal_strlit("Sync completed successfully with ");
    reveal_strlit(" keys");
    reveal_strlit("updated with ");
    reveal_strlit("Retrieved ");
    let d = decimal(n);
    lemma_decimal_digits(n);
    let pre = "Sync completed successfully with "@;
    let kw = " keys"@;
    let m = sync_message_spec(n);
    let k: int = (pre.len() + d.len()) as int;
    assert(m =~= pre + d + kw);
    lemma_decimal_lacks(n, 'a');
    lemma_decimal_lacks(n, 'R');
    lemma_decimal_lacks(n, ' ');
    assert(lacks(m, 'a')) by {
        assert forall|i: int| 0 <= i < m.len() implies #[trigger] m[i] != 'a' by {
            if pre.len() <= i < k {
                assert(m[i] == d[i - pre.len()]);
            }
        }
    }
    assert(lacks(m, 'R')) by {
        assert forall|i: int| 0 <= i < m.len() implies #[trigger] m[i] != 'R' by {
            if pre.len() <= i < k {
                assert(m[i] == d[i - pre.len()]);
            }
        }
    }
    lemma_find_absent(m, "updated with "@, 3);
    lemma_find_absent(m, "Retrieved "@, 0);
    assert(m.subrange(k, k + 5) =~= kw);
    assert forall|j: int| 0 <= j < k implies !occurs_at(m, kw, j) by {
        if occurs_at(m, kw, j) {
            assert(m.subrange(j, j + 5)[1] == m[j + 1]);
            if pre.len() <= j + 1 < k {
                assert(m[j + 1] == d[j + 1 - pre.len()]);
                assert(is_digit(d[j + 1 - pre.len()]));
            }
        }
    }
    lemma_find_at(m, kw, k);
    let before = m.take(k);
    assert(before =~= pre + d);
    lemma_last_index_after(pre, d, ' ');
    assert(before.skip(pre.len() as int) =~= d);
    lemma_parse_decimal(n);
}

} // verus!
