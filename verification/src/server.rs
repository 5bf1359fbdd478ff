//! The app-managed local Telegram Bot API server.
//!
//! The public Bot API caps file downloads at 20 MB, which is smaller than most
//! videos. A `telegram-bot-api` server run in `--local` mode lifts that to 2 GB
//! and writes downloaded files straight to disk.

use crate::config::{ServerConfig, ServerModel};
use crate::form::{norm, normed};
use crate::names::answered;
use crate::notes::prefixed;
use crate::number::{decimal, decimal_i64, decimal_int, push_decimal};
use crate::paths::{join, joined};
use crate::text::{copy_opt, opt_str_view, opt_view, trim, trimmed};
use vstd::prelude::*;

verus! {

/// The origin of a local server.
pub open spec fn local_url_text(port: u16) -> Seq<char> {
    "http://127.0.0.1:"@ + decimal(port as nat)
}

/// The origin a bot should talk to when the local server is running.
pub fn local_url(port: u16) -> (r: String)
    ensures
        r@ == local_url_text(port),
{
    let mut out = "http://127.0.0.1:".to_owned();
    push_decimal(&mut out, port as u64);
    out
}

/// Where the server's binary is looked for when no path is set: Homebrew's
/// places, then the usual system prefix.
pub open spec fn candidate(k: int) -> Seq<char> {
    if k == 0 {
        "/opt/homebrew/bin/telegram-bot-api"@
    } else if k == 1 {
        "/usr/local/bin/telegram-bot-api"@
    } else {
        "/usr/bin/telegram-bot-api"@
    }
}

/// How many such places there are.
pub const CANDIDATES: usize = 3;

/// Where the server's binary is looked for when no path is set.
fn candidate_path(k: usize) -> (r: &'static str)
    ensures
        r@ == candidate(k as int),
{
    if k == 0 {
        "/opt/homebrew/bin/telegram-bot-api"
    } else if k == 1 {
        "/usr/local/bin/telegram-bot-api"
    } else {
        "/usr/bin/telegram-bot-api"
    }
}

/// None of the first `n` places has the binary.
pub open spec fn none_below<F: Fn(&str) -> bool>(exists_at: F, n: int) -> bool {
    forall|k: int| 0 <= k < n ==> answered(exists_at, #[trigger] candidate(k), false)
}

/// Resolves the `telegram-bot-api` binary: the configured path and nothing else
/// where there is one; else the first of the usual places; else what a search
/// through `PATH` finds.
///
/// `exists_at` answers whether something stands at a path; `search` gives what a
/// search printed, where it succeeded.
pub fn locate_binary<F: Fn(&str) -> bool, G: Fn() -> Option<String>>(
    explicit: Option<&str>,
    exists_at: F,
    search: G,
) -> (r: Option<String>)
    requires
        forall|p: &str| #[trigger] exists_at.requires((p,)),
        search.requires(()),
    ensures
        match normed(opt_str_view(explicit)) {
            Some(path) => match r {
                Some(found) => found@ == path && answered(exists_at, path, true),
                None => answered(exists_at, path, false),
            },
            None => {
                ||| exists|k: int|
                    #![trigger candidate(k)]
                    0 <= k < CANDIDATES && opt_view(r) == Some(candidate(k)) && answered(
                        exists_at,
                        candidate(k),
                        true,
                    ) && none_below(exists_at, k)
                ||| none_below(exists_at, CANDIDATES as int) && exists|output: Option<String>| #[trigger]
                    search.ensures((), output) && opt_view(r) == normed(opt_view(output))
            },
        },
{
    if let Some(p) = explicit {
        let path = trim(p);
        if !path.is_empty() {
            return if exists_at(path) {
                assert(answered(exists_at, path@, true));
                Some(path.to_owned())
            } else {
                assert(answered(exists_at, path@, false));
                None
            };
        }
    }
    assert(normed(opt_str_view(explicit)) is None);
    let mut k: usize = 0;
    while k < CANDIDATES
        invariant
            k <= CANDIDATES,
            normed(opt_str_view(explicit)) is None,
            forall|p: &str| #[trigger] exists_at.requires((p,)),
            none_below(exists_at, k as int),
        decreases CANDIDATES - k,
    {
        let path = candidate_path(k);
        if exists_at(path) {
            assert(answered(exists_at, candidate(k as int), true));
            return Some(path.to_owned());
        }
        assert(answered(exists_at, candidate(k as int), false));
        k += 1;
    }
    let output = search();
    norm(output)
}

/// The server cannot log in without both credentials.
pub fn check_credentials(cfg: &ServerConfig) -> (r: Result<(), String>)
    ensures
        r is Ok <==> cfg@.api_id != 0 && trimmed(cfg@.api_hash).len() > 0,
        r matches Err(e) ==> e@ == "api_id and api_hash are required to run the local server"@,
{
    if cfg.api_id == 0 || trim(cfg.api_hash.as_str()).is_empty() {
        return Err("api_id and api_hash are required to run the local server".to_owned());
    }
    Ok(())
}

/// What is said when there is no binary.
pub const NOT_FOUND: &'static str = "telegram-bot-api not found — build it from source (https://tdlib.github.io/telegram-bot-api/build.html) and set its path in server settings";

/// Where the server keeps what it is still downloading.
pub fn temp_dir(data_dir: &str) -> (r: String)
    ensures
        r@ == joined(data_dir@, "temp"@),
{
    join(data_dir, "temp")
}

/// Where the server's own diagnostics go.
pub fn log_path(data_dir: &str) -> (r: String)
    ensures
        r@ == joined(data_dir@, "server.log"@),
{
    join(data_dir, "server.log")
}

/// The arguments that the server is started with. It writes downloads straight to
/// disk, and listens on this machine only.
pub open spec fn arguments(port: u16, data_dir: Seq<char>) -> Seq<Seq<char>> {
    seq![
        "--local"@,
        "--http-ip-address=127.0.0.1"@,
        "--http-port="@ + decimal(port as nat),
        "--dir="@ + data_dir,
        "--temp-dir="@ + joined(data_dir, "temp"@),
    ]
}

/// The texts of a list of strings.
pub open spec fn texts(list: Seq<String>) -> Seq<Seq<char>> {
    list.map_values(|s: String| s@)
}

/// The arguments that the server is started with. The credentials are not among
/// them: anyone on the machine can read those.
pub fn server_args(port: u16, data_dir: &str) -> (r: Vec<String>)
    ensures
        texts(r@) == arguments(port, data_dir@),
{
    let mut port_arg = "--http-port=".to_owned();
    push_decimal(&mut port_arg, port as u64);
    let temp = temp_dir(data_dir);
    let mut args: Vec<String> = Vec::new();
    args.push("--local".to_owned());
    args.push("--http-ip-address=127.0.0.1".to_owned());
    args.push(port_arg);
    args.push(prefixed("--dir=", data_dir));
    args.push(prefixed("--temp-dir=", temp.as_str()));
    assert(texts(args@) =~= arguments(port, data_dir@));
    args
}

/// The environment that hands the server its credentials.
pub fn server_env(cfg: &ServerConfig) -> (r: Vec<(&'static str, String)>)
    ensures
        r@.len() == 2,
        r@[0].0@ == "TELEGRAM_API_ID"@ && r@[0].1@ == decimal_int(cfg@.api_id as int),
        r@[1].0@ == "TELEGRAM_API_HASH"@ && r@[1].1@ == trimmed(cfg@.api_hash),
{
    let mut env: Vec<(&'static str, String)> = Vec::new();
    env.push(("TELEGRAM_API_ID", decimal_i64(cfg.api_id)));
    env.push(("TELEGRAM_API_HASH", trim(cfg.api_hash.as_str()).to_owned()));
    env
}

/// What is said when something else listens on the port already.
pub fn port_in_use(port: u16, error: &str) -> (r: String)
    ensures
        r@ == "port "@ + decimal(port as nat) + " is already in use ("@ + error@
            + ") - stop whatever is listening on it, or choose another port in server settings"@,
{
    let mut out = "port ".to_owned();
    push_decimal(&mut out, port as u64);
    out.append(" is already in use (");
    out.append(error);
    out.append(
        ") - stop whatever is listening on it, or choose another port in server settings",
    );
    out
}

/// What is said when the log cannot be opened.
pub fn log_failed(path: &str, error: &str) -> (r: String)
    ensures
        r@ == "could not open the server log at "@ + path@ + ": "@ + error@,
{
    let mut out = prefixed("could not open the server log at ", path);
    out.append(": ");
    out.append(error);
    out
}

/// What is said when the server did not come up, with the place to look for more.
pub fn with_details(error: &str, log: &str) -> (r: String)
    ensures
        r@ == error@ + " (details in "@ + log@ + ")"@,
{
    let mut out = error.to_owned();
    out.append(" (details in ");
    out.append(log);
    out.append(")");
    out
}

/// Seconds that a server may take to accept connections.
pub const READY_TIMEOUT: u64 = 10;

/// Milliseconds that one attempt to connect may take.
pub const PROBE_TIMEOUT: u64 = 200;

/// Milliseconds between two attempts to connect.
pub const PROBE_WAIT: u64 = 150;

/// How the server's process is.
pub enum Child {
    Running,
    /// It has exited, with this status.
    Exited(String),
    /// That could not be found out, for this reason.
    Unknown(String),
}

/// What to do while a server comes up.
pub enum WaitStep {
    /// Try to connect.
    Probe,
    /// Wait, then look at the process again.
    Sleep,
    Ready,
    Failed(String),
}

/// What a [`WaitStep`] holds.
pub enum WaitModel {
    Probe,
    Sleep,
    Ready,
    Failed(Seq<char>),
}

impl View for WaitStep {
    type V = WaitModel;

    open spec fn view(&self) -> WaitModel {
        match self {
            WaitStep::Probe => WaitModel::Probe,
            WaitStep::Sleep => WaitModel::Sleep,
            WaitStep::Ready => WaitModel::Ready,
            WaitStep::Failed(e) => WaitModel::Failed(e@),
        }
    }
}

/// What to do after a look at the process: one that has exited will never listen.
pub open spec fn looked_at(child: Child, port: u16) -> WaitModel {
    match child {
        Child::Running => WaitModel::Probe,
        Child::Exited(status) => WaitModel::Failed(
            "telegram-bot-api exited immediately ("@ + status@
                + ") — usually a wrong api_id/api_hash, or port "@ + decimal(port as nat)
                + " is already in use"@,
        ),
        Child::Unknown(error) => WaitModel::Failed(
            "could not check on telegram-bot-api: "@ + error@,
        ),
    }
}

/// What to do after a look at the process.
pub fn after_look(child: &Child, port: u16) -> (r: WaitStep)
    ensures
        r@ == looked_at(*child, port),
{
    match child {
        Child::Running => WaitStep::Probe,
        Child::Exited(status) => {
            let mut out = prefixed("telegram-bot-api exited immediately (", status.as_str());
            out.append(") — usually a wrong api_id/api_hash, or port ");
            push_decimal(&mut out, port as u64);
            out.append(" is already in use");
            WaitStep::Failed(out)
        },
        Child::Unknown(error) => WaitStep::Failed(
            prefixed("could not check on telegram-bot-api: ", error.as_str()),
        ),
    }
}

/// What to do after an attempt to connect; `late` says that the time is up.
pub open spec fn probed(connected: bool, late: bool, port: u16) -> WaitModel {
    if connected {
        WaitModel::Ready
    } else if late {
        WaitModel::Failed(
            "telegram-bot-api did not start listening on port "@ + decimal(port as nat)
                + " within "@ + decimal(READY_TIMEOUT as nat) + "s"@,
        )
    } else {
        WaitModel::Sleep
    }
}

/// What to do after an attempt to connect; `late` says that the time is up.
pub fn after_probe(connected: bool, late: bool, port: u16) -> (r: WaitStep)
    ensures
        r@ == probed(connected, late, port),
{
    if connected {
        return WaitStep::Ready;
    }
    if late {
        let mut out = "telegram-bot-api did not start listening on port ".to_owned();
        push_decimal(&mut out, port as u64);
        out.append(" within ");
        push_decimal(&mut out, READY_TIMEOUT);
        out.append("s");
        return WaitStep::Failed(out);
    }
    WaitStep::Sleep
}

/// What the settings window shows of the server. The `api_hash` is not in it.
pub struct ServerView {
    pub enabled: bool,
    pub bin_path: Option<String>,
    pub port: u16,
    pub api_id: i64,
    /// Whether an `api_hash` is stored.
    pub has_api_hash: bool,
    /// The binary that would be used.
    pub detected_bin: Option<String>,
    pub running: bool,
    /// Why the server is not running, if it should be.
    pub last_error: Option<String>,
}

/// What the settings window shows of the server: the port it would actually bind,
/// and of its secret only whether there is one.
pub fn server_view(
    cfg: &ServerConfig,
    detected_bin: Option<String>,
    running: bool,
    last_error: Option<String>,
) -> (r: ServerView)
    ensures
        r.enabled == cfg@.enabled,
        opt_view(r.bin_path) == cfg@.bin_path,
        r.port == cfg@.listening_port(),
        r.api_id == cfg@.api_id,
        r.has_api_hash == (cfg@.api_hash.len() > 0),
        r.detected_bin == detected_bin,
        r.running == running,
        r.last_error == last_error,
{
    ServerView {
        enabled: cfg.enabled,
        bin_path: copy_opt(&cfg.bin_path),
        port: cfg.effective_port(),
        api_id: cfg.api_id,
        has_api_hash: !cfg.api_hash.as_str().is_empty(),
        detected_bin,
        running,
        last_error,
    }
}

/// What the settings window posts. A blank `api_hash` keeps the stored one.
pub struct ServerForm {
    pub enabled: bool,
    pub bin_path: Option<String>,
    pub port: u16,
    pub api_id: i64,
    pub api_hash: Option<String>,
}

/// The secret that the form submits, trimmed, if it submits one.
pub fn submitted_hash(form: &ServerForm) -> (r: Option<String>)
    ensures
        opt_view(r) == normed(opt_view(form.api_hash)),
{
    norm(copy_opt(&form.api_hash))
}

/// The settings after a form was posted.
pub open spec fn posted(server: ServerModel, form: ServerForm) -> ServerModel {
    ServerModel {
        enabled: form.enabled,
        bin_path: normed(opt_view(form.bin_path)),
        port: form.port,
        api_id: form.api_id,
        api_hash: match normed(opt_view(form.api_hash)) {
            Some(hash) => hash,
            None => server.api_hash,
        },
    }
}

/// Applies a form to the settings.
pub fn apply_form(server: &ServerConfig, form: &ServerForm) -> (r: ServerConfig)
    ensures
        r@ == posted(server@, *form),
{
    let api_hash = match submitted_hash(form) {
        Some(hash) => hash,
        None => server.api_hash.clone(),
    };
    ServerConfig {
        enabled: form.enabled,
        bin_path: norm(copy_opt(&form.bin_path)),
        port: form.port,
        api_id: form.api_id,
        api_hash,
    }
}

/// What to do with a secret in the Keychain to undo a change.
pub enum SecretUndo {
    /// Nothing was changed.
    Keep,
    /// There was none: remove it, for an empty one would read as a stored one.
    Clear,
    /// Store this one again.
    Restore(String),
}

/// A secret in the Keychain after an undo.
pub open spec fn undone(stored: Seq<char>, undo: SecretUndo) -> Seq<char> {
    match undo {
        SecretUndo::Keep => stored,
        SecretUndo::Clear => Seq::empty(),
        SecretUndo::Restore(secret) => secret@,
    }
}

/// What to do with the `api_hash` in the Keychain when the config could not be
/// saved, so that it does not drift ahead of the config.
pub fn undo_hash(previous: &ServerConfig, form: &ServerForm) -> (r: SecretUndo)
    ensures
        match r {
            SecretUndo::Keep => normed(opt_view(form.api_hash)) is None,
            SecretUndo::Clear => normed(opt_view(form.api_hash)) is Some && previous@.api_hash.len()
                == 0,
            SecretUndo::Restore(hash) => normed(opt_view(form.api_hash)) is Some && hash@
                == previous@.api_hash && hash@.len() > 0,
        },
        undone(posted(previous@, *form).api_hash, r) == previous@.api_hash,
{
    match submitted_hash(form) {
        None => SecretUndo::Keep,
        Some(_) => if previous.api_hash.as_str().is_empty() {
            SecretUndo::Clear
        } else {
            SecretUndo::Restore(previous.api_hash.clone())
        },
    }
}

/// The settings are what the form says, field by field; the secret is the one that
/// was submitted, trimmed, or the one there was.
pub proof fn law_the_settings_are_what_the_form_says(server: ServerModel, form: ServerForm)
    ensures
        posted(server, form).enabled == form.enabled,
        posted(server, form).port == form.port,
        posted(server, form).api_id == form.api_id,
        posted(server, form).bin_path == match form.bin_path {
            Some(p) => if trimmed(p@).len() > 0 {
                Some(trimmed(p@))
            } else {
                None
            },
            None => None,
        },
        posted(server, form).api_hash == match form.api_hash {
            Some(h) => if trimmed(h@).len() > 0 {
                trimmed(h@)
            } else {
                server.api_hash
            },
            None => server.api_hash,
        },
{
}

/// A server is ready exactly when it accepts a connection; it has failed when its
/// process is gone or cannot be looked at, or when its time is up before that; and
/// otherwise it is waited for.
pub proof fn law_a_server_is_ready_when_it_answers(
    child: Child,
    connected: bool,
    late: bool,
    port: u16,
)
    ensures
        looked_at(child, port) is Probe <==> child is Running,
        looked_at(child, port) is Failed <==> !(child is Running),
        probed(connected, late, port) is Ready <==> connected,
        probed(connected, late, port) is Failed <==> !connected && late,
        probed(connected, late, port) is Sleep <==> !connected && !late,
{
}

/// The server listens on this machine only, at the port and in the folder it is
/// given.
pub proof fn law_the_server_stays_on_this_machine(port: u16, data_dir: Seq<char>)
    ensures
        arguments(port, data_dir).len() == 5,
        arguments(port, data_dir)[0] == "--local"@,
        arguments(port, data_dir)[1] == "--http-ip-address=127.0.0.1"@,
        arguments(port, data_dir)[2] == "--http-port="@ + decimal(port as nat),
        arguments(port, data_dir)[3] == "--dir="@ + data_dir,
        arguments(port, data_dir)[4] == "--temp-dir="@ + joined(data_dir, "temp"@),
{
}

/// The view of what to do next leaves nothing out.
pub proof fn law_a_wait_is_seen_whole(e: String)
    ensures
        WaitStep::Probe@ is Probe,
        WaitStep::Sleep@ is Sleep,
        WaitStep::Ready@ is Ready,
        WaitStep::Failed(e)@ == WaitModel::Failed(e@),
{
}

/// A place is passed over only where the binary is not in it.
pub proof fn law_no_place_is_passed_over<F: Fn(&str) -> bool>(exists_at: F, n: int, k: int)
    requires
        none_below(exists_at, n),
        0 <= k < n,
    ensures
        answered(exists_at, candidate(k), false),
{
}

/// A server that is not ready says what went wrong: that it ended, and how; that it
/// could not be looked at; or that it did not listen in time, and on which port.
pub proof fn law_a_server_says_why_it_failed(child: Child, port: u16, look: WaitStep, probe: WaitStep)
    requires
        call_ensures(after_look, (&child, port), look),
        call_ensures(after_probe, (false, true, port), probe),
    ensures
        child matches Child::Exited(status) ==> look@ == WaitModel::Failed(
            "telegram-bot-api exited immediately ("@ + status@
                + ") — usually a wrong api_id/api_hash, or port "@ + decimal(port as nat)
                + " is already in use"@,
        ),
        child matches Child::Unknown(error) ==> look@ == WaitModel::Failed(
            "could not check on telegram-bot-api: "@ + error@,
        ),
        probe@ == WaitModel::Failed(
            "telegram-bot-api did not start listening on port "@ + decimal(port as nat)
                + " within "@ + decimal(10) + "s"@,
        ),
{
}

/// The binary is looked for in the two places of Homebrew, and then in that of the
/// system.
pub proof fn law_the_places_have_an_order(k: int)
    requires
        0 <= k < CANDIDATES,
    ensures
        candidate(k) == seq![
            "/opt/homebrew/bin/telegram-bot-api"@,
            "/usr/local/bin/telegram-bot-api"@,
            "/usr/bin/telegram-bot-api"@,
        ][k],
{
}

/// The credentials are handed to the server as they are set, the hash without white
/// space around it.
pub proof fn law_the_server_gets_its_credentials(
    cfg: ServerConfig,
    env: Vec<(&'static str, String)>,
    checked: Result<(), String>,
)
    requires
        call_ensures(server_env, (&cfg,), env),
        call_ensures(check_credentials, (&cfg,), checked),
        checked is Ok,
    ensures
        env@.len() == 2,
        env@[0].0@ == "TELEGRAM_API_ID"@,
        env@[0].1@ == decimal_int(cfg.api_id as int),
        cfg.api_id != 0,
        env@[1].0@ == "TELEGRAM_API_HASH"@,
        env@[1].1@ == trimmed(cfg.api_hash@),
        env@[1].1@.len() > 0,
{
}

} // verus!
