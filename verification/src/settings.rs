//! Desktop client settings: their defaults, what a stored configuration is completed
//! with on loading, validation before saving, `~` expansion of the known_hosts path
//! and the auto-sync rules.
use vstd::prelude::*;
use crate::text::{append_str, chars_of, has_prefix, owned, parse_u32, parse_u32_chars, slice_to_vec, starts_with_chars, string_of};

verus! {

/// The settings of the desktop client, as stored in its configuration file.
#[derive(Debug)]
pub struct KhmSettings {
    pub host: String,
    pub flow: String,
    pub known_hosts: String,
    pub basic_auth: String,
    pub in_place: bool,
    pub auto_sync_interval_minutes: u32,
}

/// The known_hosts path used when none is configured.
pub open spec fn default_known_hosts_spec() -> Seq<char> {
    "~/.ssh/known_hosts"@
}

/// `~/.ssh/known_hosts`.
pub fn default_known_hosts_path() -> (r: String)
    ensures
        r@ == default_known_hosts_spec(),
{
    owned("~/.ssh/known_hosts")
}

impl Default for KhmSettings {
    /// No server and no flow, the default known_hosts path, in-place updates on and
    /// an auto-sync interval of an hour.
    fn default() -> (r: Self)
        ensures
            r.host@ == Seq::<char>::empty(),
            r.flow@ == Seq::<char>::empty(),
            r.known_hosts@ == default_known_hosts_spec(),
            r.basic_auth@ == Seq::<char>::empty(),
            r.in_place,
            r.auto_sync_interval_minutes == 60,
    {
        KhmSettings {
            host: String::new(),
            flow: String::new(),
            known_hosts: default_known_hosts_path(),
            basic_auth: String::new(),
            in_place: true,
            auto_sync_interval_minutes: 60,
        }
    }
}

/// Two settings hold the same values.
pub open spec fn same_settings(a: KhmSettings, b: KhmSettings) -> bool {
    &&& a.host@ == b.host@
    &&& a.flow@ == b.flow@
    &&& a.known_hosts@ == b.known_hosts@
    &&& a.basic_auth@ == b.basic_auth@
    &&& a.in_place == b.in_place
    &&& a.auto_sync_interval_minutes == b.auto_sync_interval_minutes
}

/// A server address and a flow are both set.
pub open spec fn is_configured_spec(s: KhmSettings) -> bool {
    s.host@.len() > 0 && s.flow@.len() > 0
}

/// Automatic synchronisation runs: the target is configured and the known_hosts file
/// is updated in place.
pub open spec fn auto_sync_spec(s: KhmSettings) -> bool {
    is_configured_spec(s) && s.in_place
}

impl KhmSettings {
    /// A field-by-field copy.
    pub fn duplicate(&self) -> (r: KhmSettings)
        ensures
            same_settings(r, *self),
    {
        KhmSettings {
            host: self.host.clone(),
            flow: self.flow.clone(),
            known_hosts: self.known_hosts.clone(),
            basic_auth: self.basic_auth.clone(),
            in_place: self.in_place,
            auto_sync_interval_minutes: self.auto_sync_interval_minutes,
        }
    }

    /// Whether a server address and a flow are both set (what saving, testing and a
    /// manual sync need).
    pub fn is_configured(&self) -> (r: bool)
        ensures
            r == is_configured_spec(*self),
    {
        !self.host.as_str().is_empty() && !self.flow.as_str().is_empty()
    }

    /// Whether automatic synchronisation is on.
    pub fn is_auto_sync_enabled(&self) -> (r: bool)
        ensures
            r == auto_sync_spec(*self),
    {
        self.is_configured() && self.in_place
    }

    /// Takes the interval typed into the settings window: a positive whole number of
    /// minutes replaces the interval; anything else leaves the settings as they are.
    pub fn apply_interval_text(&mut self, text: &str)
        ensures
            final(self).host == old(self).host,
            final(self).flow == old(self).flow,
            final(self).known_hosts == old(self).known_hosts,
            final(self).basic_auth == old(self).basic_auth,
            final(self).in_place == old(self).in_place,
            old(self).auto_sync_interval_minutes > 0 ==> final(self).auto_sync_interval_minutes > 0,
            final(self).auto_sync_interval_minutes == match parse_u32(text@) {
                Some(v) => if v > 0 {
                    v
                } else {
                    old(self).auto_sync_interval_minutes as nat
                },
                None => old(self).auto_sync_interval_minutes as nat,
            },
    {
        let t = chars_of(text);
        if let Some(v) = parse_u32_chars(t.as_slice()) {
            if v > 0 {
                self.auto_sync_interval_minutes = v;
            }
        }
    }
}

/// What loading gives: the stored settings with an empty known_hosts path replaced
/// by the default one, or the defaults when nothing could be read.
pub open spec fn loaded_spec(stored: Option<KhmSettings>, r: KhmSettings) -> bool {
    match stored {
        Some(s) => {
            &&& r.host@ == s.host@
            &&& r.flow@ == s.flow@
            &&& r.basic_auth@ == s.basic_auth@
            &&& r.in_place == s.in_place
            &&& r.auto_sync_interval_minutes == s.auto_sync_interval_minutes
            &&& r.known_hosts@ == if s.known_hosts@.len() == 0 {
                default_known_hosts_spec()
            } else {
                s.known_hosts@
            }
        },
        None => {
            &&& r.host@.len() == 0
            &&& r.flow@.len() == 0
            &&& r.basic_auth@.len() == 0
            &&& r.in_place
            &&& r.auto_sync_interval_minutes == 60
            &&& r.known_hosts@ == default_known_hosts_spec()
        },
    }
}

/// Completes the settings read from the configuration file (`None` when the file was
/// missing or unreadable).
pub fn complete_loaded_settings(stored: Option<KhmSettings>) -> (r: KhmSettings)
    ensures
        loaded_spec(stored, r),
        r.known_hosts@.len() > 0,
{
    proof {
        reveal_strlit("~/.ssh/known_hosts");
    }
    match stored {
        Some(mut s) => {
            if s.known_hosts.as_str().is_empty() {
                s.known_hosts = default_known_hosts_path();
            }
            s
        },
        None => KhmSettings::default(),
    }
}

/// The message given when settings are saved without a server or a flow.
pub open spec fn missing_fields_message() -> Seq<char> {
    "Host URL and Flow Name are required"@
}

/// Saves the settings through `save` when a server and a flow are set. Incomplete
/// settings are refused without calling `save`; a failure of `save` is reported
/// with `Failed to save settings: ` before its message.
pub fn save_settings_validated<F: FnOnce(&KhmSettings) -> Result<(), String>>(
    settings: &KhmSettings,
    save: F,
) -> (r: Result<(), String>)
    requires
        is_configured_spec(*settings) ==> call_requires(save, (settings,)),
    ensures
        !is_configured_spec(*settings) ==> (r matches Err(m) && m@ == missing_fields_message()),
        is_configured_spec(*settings) ==> exists|out: Result<(), String>|
            #[trigger] call_ensures(save, (settings,), out) && match out {
                Ok(()) => r is Ok,
                Err(e) => r matches Err(m) && m@ == "Failed to save settings: "@ + e@,
            },
{
    if !settings.is_configured() {
        return Err(owned("Host URL and Flow Name are required"));
    }
    let out = save(settings);
    let ghost given = out;
    assert(call_ensures(save, (settings,), given));
    match out {
        Ok(()) => Ok(()),
        Err(e) => {
            let mut m = owned("Failed to save settings: ");
            append_str(&mut m, e.as_str());
            Err(m)
        },
    }
}

// ---------------------------------------------------------------------------
// Paths
// ---------------------------------------------------------------------------

/// A path joined to a base directory as on Unix: an absolute path replaces the base;
/// a relative one follows it, after a `/` when the base is non-empty and does not
/// already end with one.
pub open spec fn joined_path(base: Seq<char>, path: Seq<char>) -> Seq<char> {
    if path.len() > 0 && path[0] == '/' {
        path
    } else if base.len() > 0 && base.last() != '/' {
        base + seq!['/'] + path
    } else {
        base + path
    }
}

/// Joins `path` to `base` (`Path::join` on Unix).
pub fn join_path(base: &str, path: &str) -> (r: String)
    ensures
        r@ == joined_path(base@, path@),
{
    let b = chars_of(base);
    let p = chars_of(path);
    if p.len() > 0 && p[0] == '/' {
        return string_of(p.as_slice());
    }
    let mut r = string_of(b.as_slice());
    if b.len() > 0 && b[b.len() - 1] != '/' {
        append_str(&mut r, "/");
        proof {
            reveal_strlit("/");
        }
    }
    append_str(&mut r, path);
    r
}

/// What `~` expansion gives when the home directory is `home`: a path beginning
/// with `~/` is taken relative to it; any other path, or any path when there is no
/// home directory, is kept.
pub open spec fn expanded_path(path: Seq<char>, home: Option<Seq<char>>) -> Seq<char> {
    if has_prefix(path, "~/"@) {
        match home {
            Some(h) => joined_path(h, path.skip(2)),
            None => path,
        }
    } else {
        path
    }
}

/// Expands a leading `~/` against the given home directory.
pub fn expand_path_with(path: &str, home: Option<&str>) -> (r: String)
    ensures
        r@ == expanded_path(path@, match home {
            Some(h) => Some(h@),
            None => None,
        }),
{
    let p = chars_of(path);
    if starts_with_chars(p.as_slice(), chars_of("~/").as_slice()) {
        proof {
            reveal_strlit("~/");
        }
        if let Some(h) = home {
            let rest = slice_to_vec(p.as_slice(), 2, p.len());
            let rest_s = string_of(rest.as_slice());
            assert(rest_s@ == path@.skip(2));
            return join_path(h, rest_s.as_str());
        }
    }
    owned(path)
}

/// The current user's home directory (`dirs::home_dir`), as text. It comes from the
/// environment and the user database, so nothing is claimed of it.
#[verifier::external_body]
fn home_directory() -> (r: Option<String>) {
    dirs::home_dir().map(|p| p.to_string_lossy().to_string())
}

/// What expanding `path` against whatever home directory the system reports may
/// give: a path without a leading `~/` unchanged; otherwise the path itself (no home
/// directory) or the rest of it joined to some directory.
pub open spec fn expansion_outcome(path: Seq<char>, r: Seq<char>) -> bool {
    &&& !has_prefix(path, "~/"@) ==> r == path
    &&& has_prefix(path, "~/"@) ==> r == path || exists|h: Seq<char>|
        r == #[trigger] joined_path(h, path.skip(2))
}

/// Expands a leading `~/` against the current user's home directory. A path without
/// that prefix is returned unchanged; otherwise the result is the expansion against
/// whatever home directory the system reports, or the path itself when it reports
/// none.
pub fn expand_path(path: &str) -> (r: String)
    ensures
        expansion_outcome(path@, r@),
{
    let p = chars_of(path);
    let tilde = chars_of("~/");
    if !starts_with_chars(p.as_slice(), tilde.as_slice()) {
        return owned(path);
    }
    let home = home_directory();
    match home {
        Some(h) => {
            let r = expand_path_with(path, Some(h.as_str()));
            assert(r@ == joined_path(h@, path@.skip(2)));
            r
        },
        None => owned(path),
    }
}

/// The number of keys a synchronisation reports: the keys in the known_hosts file
/// after it when the file is updated in place, otherwise the keys before it.
pub fn synced_key_count(in_place: bool, before: usize, after: usize) -> (r: usize)
    ensures
        r == if in_place {
            after
        } else {
            before
        },
{
    if in_place {
        after
    } else {
        before
    }
}

} // verus!
