//! The activity log of the settings window: time-stamped entries, at most twenty of
//! them, and the text that shows the latest ones.
use vstd::prelude::*;
use crate::clock::{duration_secs, duration_subsec_millis, system_time_now, time_since_epoch};
use crate::keys::strings_view;
use crate::text::{append_str, char_seqs, chars_of, join, join_chars, owned, padded, push_char, push_padded, string_of};

verus! {

/// The most entries the log keeps.
pub const MAX_LOG_ENTRIES: usize = 20;

/// The most entries the activity panel shows.
pub const SHOWN_LOG_ENTRIES: usize = 5;

/// `HH:MM:SS.mmm`: the time of day (UTC) of a moment `secs` seconds and `millis`
/// milliseconds after the Unix epoch.
pub open spec fn timestamp_spec(secs: nat, millis: nat) -> Seq<char> {
    padded((secs / 3600) % 24, 2) + seq![':'] + padded((secs / 60) % 60, 2) + seq![':'] + padded(
        secs % 60,
        2,
    ) + seq!['.'] + padded(millis, 3)
}

/// A log entry: the timestamp, a space, the message.
pub open spec fn log_entry_spec(secs: nat, millis: nat, message: Seq<char>) -> Seq<char> {
    timestamp_spec(secs, millis) + seq![' '] + message
}

/// The log after one entry is added: the entry goes last, and when that makes more
/// than the allowed number, the oldest entry goes.
pub open spec fn appended_log(log: Seq<Seq<char>>, entry: Seq<char>) -> Seq<Seq<char>> {
    let pushed = log.push(entry);
    if pushed.len() > MAX_LOG_ENTRIES {
        pushed.drop_first()
    } else {
        pushed
    }
}

/// Adds `message` to the log with the timestamp of the given moment.
pub fn add_log_entry_at(operation_log: &mut Vec<String>, secs: u64, millis: u32, message: String)
    ensures
        strings_view(final(operation_log)@) == appended_log(
            strings_view(old(operation_log)@),
            log_entry_spec(secs as nat, millis as nat, message@),
        ),
        old(operation_log)@.len() <= MAX_LOG_ENTRIES ==> final(operation_log)@.len()
            <= MAX_LOG_ENTRIES,
        final(operation_log)@.last()@ == log_entry_spec(secs as nat, millis as nat, message@),
{
    let mut entry = String::new();
    push_padded(&mut entry, (secs / 3600) % 24, 2);
    push_char(&mut entry, ':');
    push_padded(&mut entry, (secs / 60) % 60, 2);
    push_char(&mut entry, ':');
    push_padded(&mut entry, secs % 60, 2);
    push_char(&mut entry, '.');
    push_padded(&mut entry, millis as u64, 3);
    push_char(&mut entry, ' ');
    append_str(&mut entry, message.as_str());
    assert(entry@ == log_entry_spec(secs as nat, millis as nat, message@));
    let ghost before = operation_log@;
    operation_log.push(entry);
    assert(strings_view(operation_log@) =~= strings_view(before).push(
        log_entry_spec(secs as nat, millis as nat, message@),
    ));
    if operation_log.len() > MAX_LOG_ENTRIES {
        let ghost pushed = operation_log@;
        operation_log.remove(0);
        assert(operation_log@ =~= pushed.drop_first());
        assert(strings_view(operation_log@) =~= strings_view(pushed).drop_first());
    }
}

/// Adds `message` to the log, stamped with the current time of day. The stamp is
/// that of whatever the system clock reads (a clock set before the Unix epoch
/// stamps `00:00:00.000`).
pub fn add_log_entry(operation_log: &mut Vec<String>, message: String)
    ensures
        exists|secs: u64, millis: u32|
            millis < 1000 && strings_view(final(operation_log)@) == #[trigger] appended_log(
                strings_view(old(operation_log)@),
                log_entry_spec(secs as nat, millis as nat, message@),
            ),
{
    let now = system_time_now();
    let (secs, millis) = match time_since_epoch(&now) {
        Some(d) => (duration_secs(&d), duration_subsec_millis(&d)),
        None => (0u64, 0u32),
    };
    add_log_entry_at(operation_log, secs, millis, message);
}

/// The text the activity panel shows: the latest entries, one per line, or
/// `No recent activity` when the log is empty.
pub open spec fn recent_activity_spec(log: Seq<Seq<char>>) -> Seq<char> {
    if log.len() == 0 {
        "No recent activity"@
    } else if log.len() > SHOWN_LOG_ENTRIES {
        join(log.skip(log.len() - SHOWN_LOG_ENTRIES), seq!['\n'])
    } else {
        join(log, seq!['\n'])
    }
}

/// The characters of each string, in order.
fn char_vecs(v: &Vec<String>) -> (r: Vec<Vec<char>>)
    ensures
        r@.len() == v@.len(),
        char_seqs(r@) == strings_view(v@),
{
    let mut r: Vec<Vec<char>> = Vec::new();
    let mut i: usize = 0;
    while i < v.len()
        invariant
            i <= v.len(),
            r@.len() == i,
            char_seqs(r@) =~= strings_view(v@).take(i as int),
        decreases v.len() - i,
    {
        let c = chars_of(v[i].as_str());
        let ghost before = r@;
        r.push(c);
        assert(r@ == before.push(c));
        assert(char_seqs(r@) =~= strings_view(v@).take(i as int + 1));
        i = i + 1;
    }
    assert(strings_view(v@).take(v@.len() as int) =~= strings_view(v@));
    r
}

/// The text of the activity panel.
pub fn recent_activity_text(operation_log: &Vec<String>) -> (r: String)
    ensures
        r@ == recent_activity_spec(strings_view(operation_log@)),
{
    if operation_log.len() == 0 {
        return owned("No recent activity");
    }
    let parts = char_vecs(operation_log);
    let from: usize = if operation_log.len() > SHOWN_LOG_ENTRIES {
        operation_log.len() - SHOWN_LOG_ENTRIES
    } else {
        0
    };
    let sep = vec!['\n'];
    let joined = join_chars(&parts, from, sep.as_slice());
    proof {
        assert(sep@ =~= seq!['\n']);
        if from == 0 {
            assert(char_seqs(parts@).skip(0) =~= char_seqs(parts@));
        }
    }
    string_of(joined.as_slice())
}

} // verus!
