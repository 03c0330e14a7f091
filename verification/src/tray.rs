//! The tray icon: the synchronisation status it keeps, its tooltip and the labels of
//! its menu.
use vstd::prelude::*;
use std::time::Instant;
use crate::clock::{duration_secs, instant_elapsed, instant_now};
use crate::settings::{auto_sync_spec, KhmSettings};
use crate::text::{append_str, decimal, owned, push_decimal};

verus! {

/// When the last synchronisation ran, how many keys it left, and how long until the
/// next one.
#[derive(Debug, Clone, Copy)]
pub struct SyncStatus {
    pub last_sync_time: Option<Instant>,
    pub last_sync_keys: Option<usize>,
    pub next_sync_in_seconds: Option<u64>,
}

impl Default for SyncStatus {
    /// Nothing synchronised yet.
    fn default() -> (r: Self)
        ensures
            r.last_sync_time is None,
            r.last_sync_keys is None,
            r.next_sync_in_seconds is None,
    {
        SyncStatus { last_sync_time: None, last_sync_keys: None, next_sync_in_seconds: None }
    }
}

impl SyncStatus {
    /// Records a synchronisation that has just completed with `keys` keys.
    pub fn record_sync(&mut self, keys: usize)
        ensures
            final(self).last_sync_time is Some,
            final(self).last_sync_keys == Some(keys),
            final(self).next_sync_in_seconds == old(self).next_sync_in_seconds,
    {
        self.last_sync_time = Some(instant_now());
        self.last_sync_keys = Some(keys);
    }
}

/// Seconds until the next automatic synchronisation, `elapsed` seconds after the last
/// one, with the given interval: what is left of the interval, or zero once it has
/// passed.
pub open spec fn next_sync_spec(interval_minutes: nat, elapsed: nat) -> nat {
    let interval = interval_minutes * 60;
    if elapsed < interval {
        (interval - elapsed) as nat
    } else {
        0
    }
}

/// Seconds until the next automatic synchronisation.
pub fn seconds_until_next_sync(interval_minutes: u32, elapsed_secs: u64) -> (r: u64)
    ensures
        r == next_sync_spec(interval_minutes as nat, elapsed_secs as nat),
        r <= interval_minutes * 60,
{
    let interval = interval_minutes as u64 * 60;
    if elapsed_secs < interval {
        interval - elapsed_secs
    } else {
        0
    }
}

/// Refreshes the countdown to the next automatic synchronisation. Nothing changes
/// while automatic synchronisation is off; with it on, the countdown is cleared when
/// no synchronisation has run yet, and otherwise set from the time that has passed
/// since the last one, whatever the clock reads.
pub fn update_sync_status(settings: &KhmSettings, sync_status: &mut SyncStatus)
    ensures
        final(sync_status).last_sync_time == old(sync_status).last_sync_time,
        final(sync_status).last_sync_keys == old(sync_status).last_sync_keys,
        !auto_sync_spec(*settings) ==> final(sync_status).next_sync_in_seconds
            == old(sync_status).next_sync_in_seconds,
        auto_sync_spec(*settings) && old(sync_status).last_sync_time is None
            ==> final(sync_status).next_sync_in_seconds is None,
        auto_sync_spec(*settings) && old(sync_status).last_sync_time is Some
            ==> (final(sync_status).next_sync_in_seconds matches Some(n)
            && n <= settings.auto_sync_interval_minutes * 60
            && exists|e: nat| n == #[trigger] next_sync_spec(settings.auto_sync_interval_minutes as nat, e)),
{
    if settings.is_auto_sync_enabled() {
        match sync_status.last_sync_time {
            Some(last) => {
                let passed = instant_elapsed(&last);
                let elapsed = duration_secs(&passed);
                let n = seconds_until_next_sync(settings.auto_sync_interval_minutes, elapsed);
                assert(n == next_sync_spec(settings.auto_sync_interval_minutes as nat, elapsed as nat));
                sync_status.next_sync_in_seconds = Some(n);
            },
            None => {
                sync_status.next_sync_in_seconds = None;
            },
        }
    }
}

/// The tooltip: the program's name, the server and flow, the last synchronisation and,
/// when known, the time until the next one (in minutes and seconds above a minute).
pub open spec fn tooltip_spec(
    host: Seq<char>,
    flow: Seq<char>,
    last_keys: Option<usize>,
    next: Option<u64>,
) -> Seq<char> {
    "KHM - SSH Key Manager\nHost: "@ + host + "\nFlow: "@ + flow + match last_keys {
        Some(k) => "\nLast sync: "@ + decimal(k as nat) + " keys"@,
        None => "\nLast sync: Never"@,
    } + match next {
        Some(s) => if s > 60 {
            "\nNext sync: "@ + decimal((s / 60) as nat) + "m "@ + decimal((s % 60) as nat) + "s"@
        } else {
            "\nNext sync: "@ + decimal(s as nat) + "s"@
        },
        None => Seq::<char>::empty(),
    }
}

/// The tooltip of the tray icon.
pub fn create_tooltip(settings: &KhmSettings, sync_status: &SyncStatus) -> (r: String)
    ensures
        r@ == tooltip_spec(
            settings.host@,
            settings.flow@,
            sync_status.last_sync_keys,
            sync_status.next_sync_in_seconds,
        ),
{
    let mut t = owned("KHM - SSH Key Manager\nHost: ");
    append_str(&mut t, settings.host.as_str());
    append_str(&mut t, "\nFlow: ");
    append_str(&mut t, settings.flow.as_str());
    let ghost head = t@;
    match sync_status.last_sync_keys {
        Some(k) => {
            append_str(&mut t, "\nLast sync: ");
            push_decimal(&mut t, k as u64);
            append_str(&mut t, " keys");
        },
        None => {
            append_str(&mut t, "\nLast sync: Never");
        },
    }
    let ghost mid = t@;
    match sync_status.next_sync_in_seconds {
        Some(s) => {
            if s > 60 {
                append_str(&mut t, "\nNext sync: ");
                push_decimal(&mut t, s / 60);
                append_str(&mut t, "m ");
                push_decimal(&mut t, s % 60);
                append_str(&mut t, "s");
            } else {
                append_str(&mut t, "\nNext sync: ");
                push_decimal(&mut t, s);
                append_str(&mut t, "s");
            }
        },
        None => {
            assert(t@ == mid + Seq::<char>::empty());
        },
    }
    t
}

/// `Host: <host>`, or `Host: Not configured`.
pub fn host_menu_label(settings: &KhmSettings) -> (r: String)
    ensures
        r@ == if settings.host@.len() == 0 {
            "Host: Not configured"@
        } else {
            "Host: "@ + settings.host@
        },
{
    if settings.host.as_str().is_empty() {
        owned("Host: Not configured")
    } else {
        let mut r = owned("Host: ");
        append_str(&mut r, settings.host.as_str());
        r
    }
}

/// `Flow: <flow>`, or `Flow: Not configured`.
pub fn flow_menu_label(settings: &KhmSettings) -> (r: String)
    ensures
        r@ == if settings.flow@.len() == 0 {
            "Flow: Not configured"@
        } else {
            "Flow: "@ + settings.flow@
        },
{
    if settings.flow.as_str().is_empty() {
        owned("Flow: Not configured")
    } else {
        let mut r = owned("Flow: ");
        append_str(&mut r, settings.flow.as_str());
        r
    }
}

/// `Auto sync: On (<n>min)` or `Auto sync: Off (<n>min)`.
pub fn auto_sync_menu_label(settings: &KhmSettings) -> (r: String)
    ensures
        r@ == "Auto sync: "@ + (if auto_sync_spec(*settings) {
            "On"@
        } else {
            "Off"@
        }) + " ("@ + decimal(settings.auto_sync_interval_minutes as nat) + "min)"@,
{
    let mut r = owned("Auto sync: ");
    if settings.is_auto_sync_enabled() {
        append_str(&mut r, "On");
    } else {
        append_str(&mut r, "Off");
    }
    append_str(&mut r, " (");
    push_decimal(&mut r, settings.auto_sync_interval_minutes as u64);
    append_str(&mut r, "min)");
    r
}

// ---------------------------------------------------------------------------
// The icon
// ---------------------------------------------------------------------------

/// The side of the square icon, in pixels.
pub const ICON_SIZE: usize = 32;

/// The colour of pixel `i` (row by row) of the icon: white in a two-pixel border,
/// blue inside; red, green, blue and opacity.
pub open spec fn icon_pixel(i: int) -> Seq<u8> {
    let x = i % 32;
    let y = i / 32;
    if x < 2 || x >= 30 || y < 2 || y >= 30 {
        seq![255u8, 255u8, 255u8, 255u8]
    } else {
        seq![64u8, 128u8, 255u8, 255u8]
    }
}

/// The RGBA bytes of the icon of the tray and of the settings window: a blue square
/// with a white border, four bytes per pixel, row by row.
pub fn icon_rgba() -> (r: Vec<u8>)
    ensures
        r@.len() == ICON_SIZE * ICON_SIZE * 4,
        forall|i: int, c: int|
            0 <= i < ICON_SIZE * ICON_SIZE && 0 <= c < 4 ==> #[trigger] r@[4 * i + c]
                == icon_pixel(i)[c],
{
    let mut r: Vec<u8> = Vec::new();
    let mut i: usize = 0;
    while i < ICON_SIZE * ICON_SIZE
        invariant
            i <= ICON_SIZE * ICON_SIZE,
            r@.len() == 4 * i,
            forall|j: int, c: int|
                0 <= j < i && 0 <= c < 4 ==> #[trigger] r@[4 * j + c] == icon_pixel(j)[c],
        decreases ICON_SIZE * ICON_SIZE - i,
    {
        let x = i % ICON_SIZE;
        let y = i / ICON_SIZE;
        let border = x < 2 || x >= 30 || y < 2 || y >= 30;
        let px: [u8; 4] = if border {
            [255, 255, 255, 255]
        } else {
            [64, 128, 255, 255]
        };
        assert(px@ == icon_pixel(i as int));
        let ghost before = r@;
        r.push(px[0]);
        r.push(px[1]);
        r.push(px[2]);
        r.push(px[3]);
        assert forall|j: int, c: int| 0 <= j < i + 1 && 0 <= c < 4 implies #[trigger] r@[4 * j + c]
            == icon_pixel(j)[c] by {
            if j < i {
                assert(r@[4 * j + c] == before[4 * j + c]);
            } else {
                assert(r@[4 * j + c] == px@[c]);
            }
        }
        i = i + 1;
    }
    r
}

} // verus!
