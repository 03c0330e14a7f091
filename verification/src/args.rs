//! Command-line options of the programs and the choice of what a run does.
use vstd::prelude::*;
use crate::keys::strings_view;
use crate::settings::{expand_path, expansion_outcome, KhmSettings};
use crate::text::owned;

verus! {

/// The options shared by every program: server, client and desktop settings.
#[derive(Debug)]
pub struct Args {
    pub server: bool,
    pub daemon: bool,
    pub settings_ui: bool,
    pub in_place: bool,
    pub flows: Vec<String>,
    pub ip: String,
    pub port: u16,
    pub db_host: String,
    pub db_name: String,
    pub db_user: Option<String>,
    pub db_password: Option<String>,
    pub host: Option<String>,
    pub flow: Option<String>,
    pub known_hosts: String,
    pub basic_auth: String,
}

/// The options of the command-line program (server and client, no GUI).
#[derive(Debug)]
pub struct CliArgs {
    pub server: bool,
    pub in_place: bool,
    pub flows: Vec<String>,
    pub ip: String,
    pub port: u16,
    pub db_host: String,
    pub db_name: String,
    pub db_user: Option<String>,
    pub db_password: Option<String>,
    pub host: Option<String>,
    pub flow: Option<String>,
    pub known_hosts: String,
    pub basic_auth: String,
}

/// The options of the desktop program.
#[derive(Debug, Clone, Copy)]
pub struct DesktopArgs {
    pub daemon: bool,
    pub settings_ui: bool,
}

impl From<CliArgs> for Args {
    /// The command-line options, with no daemon and no settings window.
    fn from(c: CliArgs) -> (r: Args) {
        Args {
            server: c.server,
            daemon: false,
            settings_ui: false,
            in_place: c.in_place,
            flows: c.flows,
            ip: c.ip,
            port: c.port,
            db_host: c.db_host,
            db_name: c.db_name,
            db_user: c.db_user,
            db_password: c.db_password,
            host: c.host,
            flow: c.flow,
            known_hosts: c.known_hosts,
            basic_auth: c.basic_auth,
        }
    }
}

impl vstd::std_specs::convert::FromSpecImpl<CliArgs> for Args {
    open spec fn obeys_from_spec() -> bool {
        true
    }

    open spec fn from_spec(c: CliArgs) -> Args {
        Args {
            server: c.server,
            daemon: false,
            settings_ui: false,
            in_place: c.in_place,
            flows: c.flows,
            ip: c.ip,
            port: c.port,
            db_host: c.db_host,
            db_name: c.db_name,
            db_user: c.db_user,
            db_password: c.db_password,
            host: c.host,
            flow: c.flow,
            known_hosts: c.known_hosts,
            basic_auth: c.basic_auth,
        }
    }
}

/// An optional text taken by its characters.
pub open spec fn opt_view(o: Option<String>) -> Option<Seq<char>> {
    match o {
        Some(s) => Some(s@),
        None => None,
    }
}

/// The fixed options that a program without server settings runs with: the
/// `default` flow, `127.0.0.1:8080`, the `khm` database on `127.0.0.1`, no
/// credentials.
pub open spec fn fixed_client_options(a: Args) -> bool {
    &&& !a.server
    &&& strings_view(a.flows@) == seq!["default"@]
    &&& a.ip@ == "127.0.0.1"@
    &&& a.port == 8080
    &&& a.db_host@ == "127.0.0.1"@
    &&& a.db_name@ == "khm"@
    &&& a.db_user is None
    &&& a.db_password is None
}

/// The single-element list `["default"]`.
fn default_flows() -> (r: Vec<String>)
    ensures
        strings_view(r@) == seq!["default"@],
{
    let mut r: Vec<String> = Vec::new();
    r.push(owned("default"));
    assert(strings_view(r@) =~= seq!["default"@]);
    r
}

impl DesktopArgs {
    /// The options the desktop program runs with: its two flags, client defaults
    /// and no server or flow.
    pub fn into_args(self) -> (r: Args)
        ensures
            fixed_client_options(r),
            r.daemon == self.daemon,
            r.settings_ui == self.settings_ui,
            !r.in_place,
            r.host is None,
            r.flow is None,
            r.known_hosts@ == "~/.ssh/known_hosts"@,
            r.basic_auth@ == Seq::<char>::empty(),
    {
        Args {
            server: false,
            daemon: self.daemon,
            settings_ui: self.settings_ui,
            in_place: false,
            flows: default_flows(),
            ip: owned("127.0.0.1"),
            port: 8080,
            db_host: owned("127.0.0.1"),
            db_name: owned("khm"),
            db_user: None,
            db_password: None,
            host: None,
            flow: None,
            known_hosts: owned("~/.ssh/known_hosts"),
            basic_auth: String::new(),
        }
    }
}

/// The options a synchronisation from the desktop settings runs the client with:
/// the settings' server, flow, credentials and in-place choice, the known_hosts path
/// with `~` expanded, and the fixed client options.
pub fn client_args_for(settings: &KhmSettings) -> (r: Args)
    ensures
        fixed_client_options(r),
        !r.daemon,
        !r.settings_ui,
        r.in_place == settings.in_place,
        opt_view(r.host) == Some(settings.host@),
        opt_view(r.flow) == Some(settings.flow@),
        r.basic_auth@ == settings.basic_auth@,
        expansion_outcome(settings.known_hosts@, r.known_hosts@),
{
    Args {
        server: false,
        daemon: false,
        settings_ui: false,
        in_place: settings.in_place,
        flows: default_flows(),
        ip: owned("127.0.0.1"),
        port: 8080,
        db_host: owned("127.0.0.1"),
        db_name: owned("khm"),
        db_user: None,
        db_password: None,
        host: Some(settings.host.clone()),
        flow: Some(settings.flow.clone()),
        known_hosts: expand_path(settings.known_hosts.as_str()),
        basic_auth: settings.basic_auth.clone(),
    }
}

/// What a run does.
#[derive(Debug, Clone, Copy, PartialEq, Eq, Structural)]
pub enum RunMode {
    SettingsWindow,
    Gui,
    Server,
    Client,
}

/// The choice of the full program: the settings window when asked for, then the
/// tray interface, then the server; otherwise the client, which needs a server
/// address and a flow. `None` when nothing can run.
pub fn program_mode(settings_ui: bool, gui: bool, args: &Args) -> (r: Option<RunMode>)
    ensures
        r == if settings_ui {
            Some(RunMode::SettingsWindow)
        } else if gui {
            Some(RunMode::Gui)
        } else if args.server {
            Some(RunMode::Server)
        } else if args.host is Some && args.flow is Some {
            Some(RunMode::Client)
        } else {
            None::<RunMode>
        },
{
    if settings_ui {
        Some(RunMode::SettingsWindow)
    } else if gui {
        Some(RunMode::Gui)
    } else {
        cli_mode(args)
    }
}

/// The choice of the command-line program: the server when asked for, else the
/// client when a server address and a flow are given; `None` otherwise.
pub fn cli_mode(args: &Args) -> (r: Option<RunMode>)
    ensures
        r == if args.server {
            Some(RunMode::Server)
        } else if args.host is Some && args.flow is Some {
            Some(RunMode::Client)
        } else {
            None::<RunMode>
        },
{
    if args.server {
        Some(RunMode::Server)
    } else if args.host.is_some() && args.flow.is_some() {
        Some(RunMode::Client)
    } else {
        None
    }
}

/// The choice of the desktop program: the settings window when asked for, else the
/// tray interface.
pub fn desktop_mode(args: &Args) -> (r: RunMode)
    ensures
        r == if args.settings_ui {
            RunMode::SettingsWindow
        } else {
            RunMode::Gui
        },
{
    if args.settings_ui {
        RunMode::SettingsWindow
    } else {
        RunMode::Gui
    }
}

} // verus!
