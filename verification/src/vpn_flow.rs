//! The order of the steps that bring the VPN layer up and tear it down.
//! Each step is outside work (a directory, a file, a process, an elevated
//! helper); what to do next, what to log and how the run ends are decided
//! here, one answer at a time, by a transition from the current phase and
//! the answer to the next phase, and by the request that each phase makes.
//! While a helper runs, each look at its process (or at the exit-code file
//! an elevated helper writes) is likewise turned into the next step.
use vstd::prelude::*;
use crate::profile::{opt_text, texts};
use crate::text::{dec_text, extend_str, owned, push_dec, string_of, trim};
use crate::tun::{
    down_args_spec, down_report, down_report_spec, down_script, hev_binary, hev_config,
    hev_config_text, i32_text_value, launcher_refusal, launcher_refusal_spec, parse_i32,
    result_text, socks_target, socks_target_spec, tun_dns, tun_dns_spec, tun_down_args,
    tun_up_args, up_args_spec, up_report, up_report_spec, up_script,
};

verus! {

// ---------------------------------------------------------------------------
// Bringing the TUN up
// ---------------------------------------------------------------------------

/// What a bring-up is for: the core's listen address and resolvers, its
/// process id (for the bypass routes on Windows), the host system, and the
/// texts of the data directory and of the two files kept in it.
pub struct UpRequest {
    /// Whether this system has a TUN backend at all.
    pub supported: bool,
    pub for_windows: bool,
    pub bind_address: String,
    pub dns: String,
    pub aether_pid: u32,
    pub data: String,
    pub config_path: String,
    pub log_path: String,
}

/// Where a bring-up stands: the answer it waits for, or how it ended.
pub enum UpState {
    DataDir,
    UpCheck,
    Forwarder,
    Script { hev: String },
    Config { hev: String },
    Helper { hev: String },
    Iface,
    Finished { active: bool },
}

/// A bring-up's phase, its texts taken by their characters.
pub enum UpPhase {
    DataDir,
    UpCheck,
    Forwarder,
    Script { hev: Seq<char> },
    Config { hev: Seq<char> },
    Helper { hev: Seq<char> },
    Iface,
    Finished { active: bool },
}

impl View for UpState {
    type V = UpPhase;

    open spec fn view(&self) -> UpPhase {
        match self {
            UpState::DataDir => UpPhase::DataDir,
            UpState::UpCheck => UpPhase::UpCheck,
            UpState::Forwarder => UpPhase::Forwarder,
            UpState::Script { hev } => UpPhase::Script { hev: hev@ },
            UpState::Config { hev } => UpPhase::Config { hev: hev@ },
            UpState::Helper { hev } => UpPhase::Helper { hev: hev@ },
            UpState::Iface => UpPhase::Iface,
            UpState::Finished { active } => UpPhase::Finished { active: *active },
        }
    }
}

/// The answers the outside world gives, one per request.
pub enum UpEvent {
    /// The data directory exists, or why it cannot be made.
    DataDir(Result<(), String>),
    /// Whether the TUN layer is up already.
    UpCheck(bool),
    /// The forwarder's path, or why it cannot be used.
    Forwarder(Result<String, String>),
    /// Whether the bring-up script was found.
    Script(bool),
    /// The configuration file was written, or why not.
    ConfigWrite(Result<(), String>),
    /// What the privileged helper run amounted to.
    Helper(Result<String, String>),
    /// Whether the TUN layer is up after the helper ran.
    IfaceCheck(bool),
}

/// The outside work a bring-up asks for next.
pub enum UpAction {
    CreateDataDir,
    CheckUp,
    FindForwarder { exe: String, missing: String },
    FindScript { name: String },
    WriteConfig { path: String, text: String },
    RunHelper { args: Vec<String>, timeout_secs: u64 },
    CheckIface,
    Stop { active: bool },
}

/// A bring-up's request, its texts taken by their characters.
pub enum UpStep {
    CreateDataDir,
    CheckUp,
    FindForwarder { exe: Seq<char>, missing: Seq<char> },
    FindScript { name: Seq<char> },
    WriteConfig { path: Seq<char>, text: Seq<char> },
    RunHelper { args: Seq<Seq<char>>, timeout_secs: u64 },
    CheckIface,
    Stop { active: bool },
}

impl View for UpAction {
    type V = UpStep;

    open spec fn view(&self) -> UpStep {
        match self {
            UpAction::CreateDataDir => UpStep::CreateDataDir,
            UpAction::CheckUp => UpStep::CheckUp,
            UpAction::FindForwarder { exe, missing } => UpStep::FindForwarder {
                exe: exe@,
                missing: missing@,
            },
            UpAction::FindScript { name } => UpStep::FindScript { name: name@ },
            UpAction::WriteConfig { path, text } => UpStep::WriteConfig {
                path: path@,
                text: text@,
            },
            UpAction::RunHelper { args, timeout_secs } => UpStep::RunHelper {
                args: texts(args@),
                timeout_secs: *timeout_secs,
            },
            UpAction::CheckIface => UpStep::CheckIface,
            UpAction::Stop { active } => UpStep::Stop { active: *active },
        }
    }
}

pub open spec fn up_script_name(for_windows: bool) -> Seq<char> {
    if for_windows {
        "tun-up.ps1"@
    } else {
        "tun-up.sh"@
    }
}

pub open spec fn prompt_hint(for_windows: bool) -> Seq<char> {
    if for_windows {
        "UAC prompt expected"@
    } else {
        "polkit prompt expected"@
    }
}

/// The log line for a helper script that is not where it should be.
pub open spec fn script_missing_line(name: Seq<char>) -> Seq<char> {
    "[tun] VPN helper script missing: scripts/"@ + name
}

pub open spec fn unsupported_line() -> Seq<char> {
    "[tun] VPN mode is not supported on this OS \u{2014} proxy still works"@
}

/// The log line before the helper runs, naming the port the forwarder dials.
pub open spec fn bringing_up_line(req: UpRequest) -> Seq<char> {
    "[tun] bringing up aether0 via 127.0.0.1:"@ + dec_text(
        socks_target_spec(req.bind_address@).1 as nat,
    ) + " ("@ + prompt_hint(req.for_windows) + ")\u{2026}"@
}

/// How a bring-up begins: where the system has a TUN backend, by making
/// sure the data directory exists; elsewhere it ends at once, logged, with
/// the plain proxy.
pub open spec fn up_start(req: UpRequest) -> (UpPhase, Option<Seq<char>>) {
    if req.supported {
        (UpPhase::DataDir, None)
    } else {
        (UpPhase::Finished { active: false }, Some(unsupported_line()))
    }
}

/// The next phase of a bring-up, and the line to log, given the answer `e`
/// in phase `s`. A failed step ends the run with a plain proxy; an answer
/// to a question that was not asked ends it too, silently; a finished run
/// stays as it is.
pub open spec fn up_transition(req: UpRequest, s: UpPhase, e: UpEvent) -> (UpPhase, Option<Seq<char>>) {
    let stop = (UpPhase::Finished { active: false }, None::<Seq<char>>);
    match s {
        UpPhase::DataDir => match e {
            UpEvent::DataDir(Ok(())) => (UpPhase::UpCheck, None),
            UpEvent::DataDir(Err(why)) => (
                UpPhase::Finished { active: false },
                Some("[tun] cannot use data dir: "@ + why@),
            ),
            _ => stop,
        },
        UpPhase::UpCheck => match e {
            UpEvent::UpCheck(true) => (
                UpPhase::Finished { active: true },
                Some("[tun] aether0 already up"@),
            ),
            UpEvent::UpCheck(false) => (UpPhase::Forwarder, None),
            _ => stop,
        },
        UpPhase::Forwarder => match e {
            UpEvent::Forwarder(Ok(hev)) => (UpPhase::Script { hev: hev@ }, None),
            UpEvent::Forwarder(Err(why)) => (
                UpPhase::Finished { active: false },
                Some("[tun] "@ + why@),
            ),
            _ => stop,
        },
        UpPhase::Script { hev } => match e {
            UpEvent::Script(true) => (UpPhase::Config { hev }, None),
            UpEvent::Script(false) => (
                UpPhase::Finished { active: false },
                Some(script_missing_line(up_script_name(req.for_windows))),
            ),
            _ => stop,
        },
        UpPhase::Config { hev } => match e {
            UpEvent::ConfigWrite(Ok(())) => (UpPhase::Helper { hev }, Some(bringing_up_line(req))),
            UpEvent::ConfigWrite(Err(why)) => (
                UpPhase::Finished { active: false },
                Some("[tun] cannot write hev config: "@ + why@),
            ),
            _ => stop,
        },
        UpPhase::Helper { .. } => match e {
            UpEvent::Helper(Ok(_)) => (UpPhase::Iface, None),
            UpEvent::Helper(Err(why)) => (
                UpPhase::Finished { active: false },
                Some(up_report_spec(Err(why@), false).1),
            ),
            _ => stop,
        },
        UpPhase::Iface => match e {
            UpEvent::IfaceCheck(up) => (
                UpPhase::Finished { active: up },
                Some(up_report_spec(Ok(Seq::empty()), up).1),
            ),
            _ => stop,
        },
        UpPhase::Finished { active } => (UpPhase::Finished { active }, None),
    }
}

/// What a bring-up in phase `s` asks the outside world for.
pub open spec fn up_request(req: UpRequest, s: UpPhase) -> UpStep {
    match s {
        UpPhase::DataDir => UpStep::CreateDataDir,
        UpPhase::UpCheck => UpStep::CheckUp,
        UpPhase::Forwarder => if req.for_windows {
            UpStep::FindForwarder {
                exe: "hev.exe"@,
                missing: "tun2socks binary not found (run src-tauri/binaries/fetch-hev.ps1)"@,
            }
        } else {
            UpStep::FindForwarder {
                exe: "hev"@,
                missing: "tun2socks binary not found (run src-tauri/binaries/fetch-hev.sh)"@,
            }
        },
        UpPhase::Script { .. } => UpStep::FindScript { name: up_script_name(req.for_windows) },
        UpPhase::Config { .. } => UpStep::WriteConfig {
            path: req.config_path@,
            text: hev_config_text(
                socks_target_spec(req.bind_address@).0,
                socks_target_spec(req.bind_address@).1,
                req.log_path@,
                req.for_windows,
            ),
        },
        UpPhase::Helper { hev } => UpStep::RunHelper {
            args: up_args_spec(
                req.data@,
                hev,
                req.config_path@,
                tun_dns_spec(req.dns@),
                req.aether_pid,
                req.for_windows,
            ),
            timeout_secs: 120,
        },
        UpPhase::Iface => UpStep::CheckIface,
        UpPhase::Finished { active } => UpStep::Stop { active },
    }
}

/// The text of `a` followed by `b`.
fn joined(a: &str, b: &str) -> (r: String)
    ensures
        r@ == a@ + b@,
{
    let mut out: Vec<char> = Vec::new();
    extend_str(&mut out, a);
    extend_str(&mut out, b);
    string_of(&out)
}

fn bringing_up(req: &UpRequest) -> (r: String)
    ensures
        r@ == bringing_up_line(*req),
{
    let (_, port) = socks_target(req.bind_address.as_str());
    let mut out: Vec<char> = Vec::new();
    extend_str(&mut out, "[tun] bringing up aether0 via 127.0.0.1:");
    push_dec(&mut out, port as u64);
    extend_str(&mut out, " (");
    extend_str(&mut out, up_script(req.for_windows).1);
    extend_str(&mut out, ")\u{2026}");
    assert(out@ =~= bringing_up_line(*req));
    string_of(&out)
}

fn up_script_text(for_windows: bool) -> (r: String)
    ensures
        r@ == up_script_name(for_windows),
{
    owned(up_script(for_windows).0)
}

/// The first phase of a bring-up and its log line (see `up_start`).
pub fn up_begin(req: &UpRequest) -> (r: (UpState, Option<String>))
    ensures
        (r.0@, opt_text(r.1)) == up_start(*req),
{
    if req.supported {
        (UpState::DataDir, None)
    } else {
        (
            UpState::Finished { active: false },
            Some(owned("[tun] VPN mode is not supported on this OS \u{2014} proxy still works")),
        )
    }
}

/// The phase after the answer `event`, and the line to log (see
/// `up_transition`).
pub fn up_next(req: &UpRequest, state: UpState, event: UpEvent) -> (r: (UpState, Option<String>))
    ensures
        (r.0@, opt_text(r.1)) == up_transition(*req, state@, event),
{
    let stop = (UpState::Finished { active: false }, None);
    match state {
        UpState::DataDir => match event {
            UpEvent::DataDir(Ok(())) => (UpState::UpCheck, None),
            UpEvent::DataDir(Err(why)) => (
                UpState::Finished { active: false },
                Some(joined("[tun] cannot use data dir: ", why.as_str())),
            ),
            _ => stop,
        },
        UpState::UpCheck => match event {
            UpEvent::UpCheck(true) => (
                UpState::Finished { active: true },
                Some(owned("[tun] aether0 already up")),
            ),
            UpEvent::UpCheck(false) => (UpState::Forwarder, None),
            _ => stop,
        },
        UpState::Forwarder => match event {
            UpEvent::Forwarder(Ok(hev)) => (UpState::Script { hev }, None),
            UpEvent::Forwarder(Err(why)) => (
                UpState::Finished { active: false },
                Some(joined("[tun] ", why.as_str())),
            ),
            _ => stop,
        },
        UpState::Script { hev } => match event {
            UpEvent::Script(true) => (UpState::Config { hev }, None),
            UpEvent::Script(false) => {
                let name = up_script_text(req.for_windows);
                (
                    UpState::Finished { active: false },
                    Some(joined("[tun] VPN helper script missing: scripts/", name.as_str())),
                )
            },
            _ => stop,
        },
        UpState::Config { hev } => match event {
            UpEvent::ConfigWrite(Ok(())) => (UpState::Helper { hev }, Some(bringing_up(req))),
            UpEvent::ConfigWrite(Err(why)) => (
                UpState::Finished { active: false },
                Some(joined("[tun] cannot write hev config: ", why.as_str())),
            ),
            _ => stop,
        },
        UpState::Helper { .. } => match event {
            UpEvent::Helper(Ok(_)) => (UpState::Iface, None),
            UpEvent::Helper(Err(why)) => {
                let failed: Result<String, String> = Err(why);
                let (_, line) = up_report(&failed, false);
                (UpState::Finished { active: false }, Some(line))
            },
            _ => stop,
        },
        UpState::Iface => match event {
            UpEvent::IfaceCheck(up) => {
                let ran: Result<String, String> = Ok(String::new());
                let (_, line) = up_report(&ran, up);
                (UpState::Finished { active: up }, Some(line))
            },
            _ => stop,
        },
        UpState::Finished { active } => (UpState::Finished { active }, None),
    }
}

/// The outside work a bring-up in `state` asks for (see `up_request`).
pub fn up_action(req: &UpRequest, state: &UpState) -> (r: UpAction)
    ensures
        r@ == up_request(*req, state@),
{
    match state {
        UpState::DataDir => UpAction::CreateDataDir,
        UpState::UpCheck => UpAction::CheckUp,
        UpState::Forwarder => {
            let (exe, missing) = hev_binary(req.for_windows);
            UpAction::FindForwarder { exe: owned(exe), missing: owned(missing) }
        },
        UpState::Script { .. } => UpAction::FindScript { name: up_script_text(req.for_windows) },
        UpState::Config { .. } => {
            let (host, port) = socks_target(req.bind_address.as_str());
            let text = hev_config(host.as_str(), port, req.log_path.as_str(), req.for_windows);
            UpAction::WriteConfig { path: req.config_path.clone(), text }
        },
        UpState::Helper { hev } => {
            let dns = tun_dns(req.dns.as_str());
            let args = tun_up_args(
                req.data.as_str(),
                hev.as_str(),
                req.config_path.as_str(),
                dns.as_str(),
                req.aether_pid,
                req.for_windows,
            );
            UpAction::RunHelper { args, timeout_secs: 120 }
        },
        UpState::Iface => UpAction::CheckIface,
        UpState::Finished { active } => UpAction::Stop { active: *active },
    }
}

// ---------------------------------------------------------------------------
// Tearing the TUN down
// ---------------------------------------------------------------------------

/// What a tear-down is for: the host system and the data directory's text.
pub struct DownRequest {
    pub supported: bool,
    pub for_windows: bool,
    pub data: String,
}

/// Where a tear-down stands.
#[derive(Clone, Copy, Debug, PartialEq, Eq, Structural)]
pub enum DownState {
    Pid,
    Iface,
    Script,
    Helper,
    Finished,
}

/// The answers to a tear-down's requests.
pub enum DownEvent {
    /// Whether the forwarder's process is still running.
    PidAlive(bool),
    /// Whether the interface still exists.
    IfaceExists(bool),
    /// Whether the tear-down script was found.
    Script(bool),
    /// What the privileged helper run amounted to.
    Helper(Result<String, String>),
}

/// The outside work a tear-down asks for next.
pub enum DownAction {
    CheckPid,
    CheckIface,
    FindScript { name: String },
    RunHelper { args: Vec<String>, timeout_secs: u64 },
    Stop,
}

/// A tear-down's request, its texts taken by their characters.
pub enum DownStep {
    CheckPid,
    CheckIface,
    FindScript { name: Seq<char> },
    RunHelper { args: Seq<Seq<char>>, timeout_secs: u64 },
    Stop,
}

impl View for DownAction {
    type V = DownStep;

    open spec fn view(&self) -> DownStep {
        match self {
            DownAction::CheckPid => DownStep::CheckPid,
            DownAction::CheckIface => DownStep::CheckIface,
            DownAction::FindScript { name } => DownStep::FindScript { name: name@ },
            DownAction::RunHelper { args, timeout_secs } => DownStep::RunHelper {
                args: texts(args@),
                timeout_secs: *timeout_secs,
            },
            DownAction::Stop => DownStep::Stop,
        }
    }
}

pub open spec fn down_script_name(for_windows: bool) -> Seq<char> {
    if for_windows {
        "tun-down.ps1"@
    } else {
        "tun-down.sh"@
    }
}

/// How a tear-down begins: by looking for the forwarder's process, or not
/// at all where the system has no TUN backend.
pub open spec fn down_start(req: DownRequest) -> DownState {
    if req.supported {
        DownState::Pid
    } else {
        DownState::Finished
    }
}

/// The next phase of a tear-down, and the line to log. With neither the
/// forwarder running nor the interface present there is nothing to tear
/// down, and no prompt: the run ends before the helper. The interface is
/// only looked at when the forwarder is gone.
pub open spec fn down_transition(req: DownRequest, s: DownState, e: DownEvent) -> (
    DownState,
    Option<Seq<char>>,
) {
    let stop = (DownState::Finished, None::<Seq<char>>);
    match s {
        DownState::Pid => match e {
            DownEvent::PidAlive(true) => (DownState::Script, None),
            DownEvent::PidAlive(false) => (DownState::Iface, None),
            _ => stop,
        },
        DownState::Iface => match e {
            DownEvent::IfaceExists(true) => (DownState::Script, None),
            _ => stop,
        },
        DownState::Script => match e {
            DownEvent::Script(true) => (DownState::Helper, None),
            DownEvent::Script(false) => (
                DownState::Finished,
                Some(script_missing_line(down_script_name(req.for_windows))),
            ),
            _ => stop,
        },
        DownState::Helper => match e {
            DownEvent::Helper(r) => (DownState::Finished, Some(down_report_spec(result_text(r)))),
            _ => stop,
        },
        DownState::Finished => stop,
    }
}

/// What a tear-down in phase `s` asks the outside world for.
pub open spec fn down_request(req: DownRequest, s: DownState) -> DownStep {
    match s {
        DownState::Pid => DownStep::CheckPid,
        DownState::Iface => DownStep::CheckIface,
        DownState::Script => DownStep::FindScript { name: down_script_name(req.for_windows) },
        DownState::Helper => DownStep::RunHelper {
            args: down_args_spec(req.data@, req.for_windows),
            timeout_secs: if req.for_windows {
                60
            } else {
                30
            },
        },
        DownState::Finished => DownStep::Stop,
    }
}

fn down_script_text(for_windows: bool) -> (r: String)
    ensures
        r@ == down_script_name(for_windows),
{
    owned(down_script(for_windows))
}

/// The first phase of a tear-down (see `down_start`).
pub fn down_begin(req: &DownRequest) -> (r: DownState)
    ensures
        r == down_start(*req),
{
    if req.supported {
        DownState::Pid
    } else {
        DownState::Finished
    }
}

/// The phase after the answer `event`, and the line to log (see
/// `down_transition`).
pub fn down_next(req: &DownRequest, state: DownState, event: DownEvent) -> (r: (
    DownState,
    Option<String>,
))
    ensures
        (r.0, opt_text(r.1)) == down_transition(*req, state, event),
{
    let stop = (DownState::Finished, None);
    match state {
        DownState::Pid => match event {
            DownEvent::PidAlive(true) => (DownState::Script, None),
            DownEvent::PidAlive(false) => (DownState::Iface, None),
            _ => stop,
        },
        DownState::Iface => match event {
            DownEvent::IfaceExists(true) => (DownState::Script, None),
            _ => stop,
        },
        DownState::Script => match event {
            DownEvent::Script(true) => (DownState::Helper, None),
            DownEvent::Script(false) => {
                let name = down_script_text(req.for_windows);
                (
                    DownState::Finished,
                    Some(joined("[tun] VPN helper script missing: scripts/", name.as_str())),
                )
            },
            _ => stop,
        },
        DownState::Helper => match event {
            DownEvent::Helper(r) => (DownState::Finished, Some(down_report(&r))),
            _ => stop,
        },
        DownState::Finished => stop,
    }
}

/// The outside work a tear-down in `state` asks for (see `down_request`).
pub fn down_action(req: &DownRequest, state: DownState) -> (r: DownAction)
    ensures
        r@ == down_request(*req, state),
{
    match state {
        DownState::Pid => DownAction::CheckPid,
        DownState::Iface => DownAction::CheckIface,
        DownState::Script => DownAction::FindScript { name: down_script_text(req.for_windows) },
        DownState::Helper => DownAction::RunHelper {
            args: tun_down_args(req.data.as_str(), req.for_windows),
            timeout_secs: if req.for_windows {
                60
            } else {
                30
            },
        },
        DownState::Finished => DownAction::Stop,
    }
}

// ---------------------------------------------------------------------------
// Waiting for a helper
// ---------------------------------------------------------------------------

/// One look at a child process: exited (with its exit code, when it has
/// one), still running, or the look itself failed.
pub enum ChildPoll {
    Exited(Option<i32>),
    Running,
    Failed(String),
}

/// What a wait does after one look.
pub enum PollStep {
    /// Sleep a moment, then look again.
    Sleep,
    /// The process is done; go on.
    Proceed,
    /// Kill the process, and fail with the reason.
    Kill { reason: String },
    /// Fail with the reason.
    Fail { reason: String },
}

/// A wait's next step, its texts taken by their characters.
pub enum PollDecision {
    Sleep,
    Proceed,
    Kill { reason: Seq<char> },
    Fail { reason: Seq<char> },
}

impl View for PollStep {
    type V = PollDecision;

    open spec fn view(&self) -> PollDecision {
        match self {
            PollStep::Sleep => PollDecision::Sleep,
            PollStep::Proceed => PollDecision::Proceed,
            PollStep::Kill { reason } => PollDecision::Kill { reason: reason@ },
            PollStep::Fail { reason } => PollDecision::Fail { reason: reason@ },
        }
    }
}

/// Waiting on `pkexec`: go on once it has exited, kill it past the deadline.
pub open spec fn privileged_wait_spec(poll: ChildPoll, past_deadline: bool) -> PollDecision {
    match poll {
        ChildPoll::Exited(_) => PollDecision::Proceed,
        ChildPoll::Running => if past_deadline {
            PollDecision::Kill { reason: "privileged VPN step timed out"@ }
        } else {
            PollDecision::Sleep
        },
        ChildPoll::Failed(why) => PollDecision::Fail { reason: "waiting on pkexec: "@ + why@ },
    }
}

/// Waiting on the launcher that asks for elevation: once it has exited, a
/// refusal (see `launcher_refusal_spec`) ends the run; otherwise the
/// elevated helper's exit-code file is next. Past the deadline it is killed.
pub open spec fn launcher_wait_spec(poll: ChildPoll, past_deadline: bool) -> PollDecision {
    match poll {
        ChildPoll::Exited(code) => match launcher_refusal_spec(code) {
            Some(reason) => PollDecision::Fail { reason },
            None => PollDecision::Proceed,
        },
        ChildPoll::Running => if past_deadline {
            PollDecision::Kill { reason: "elevated VPN step timed out"@ }
        } else {
            PollDecision::Sleep
        },
        ChildPoll::Failed(why) => PollDecision::Fail {
            reason: "waiting on elevation prompt: "@ + why@,
        },
    }
}

/// What to do after one read of the exit-code file the elevated helper
/// writes last: its number once it holds one, a time-out past the
/// deadline, else another look.
pub open spec fn exit_file_wait_spec(text: Option<Seq<char>>, past_deadline: bool) -> Result<
    Option<i32>,
    Seq<char>,
> {
    match text {
        Some(t) if i32_text_value(trim(t)) is Some => Ok(i32_text_value(trim(t))),
        _ => if past_deadline {
            Err("elevated VPN step timed out"@)
        } else {
            Ok(None)
        },
    }
}

pub fn privileged_wait(poll: ChildPoll, past_deadline: bool) -> (r: PollStep)
    ensures
        r@ == privileged_wait_spec(poll, past_deadline),
{
    match poll {
        ChildPoll::Exited(_) => PollStep::Proceed,
        ChildPoll::Running => if past_deadline {
            PollStep::Kill { reason: owned("privileged VPN step timed out") }
        } else {
            PollStep::Sleep
        },
        ChildPoll::Failed(why) => PollStep::Fail {
            reason: joined("waiting on pkexec: ", why.as_str()),
        },
    }
}

pub fn launcher_wait(poll: ChildPoll, past_deadline: bool) -> (r: PollStep)
    ensures
        r@ == launcher_wait_spec(poll, past_deadline),
{
    match poll {
        ChildPoll::Exited(code) => match launcher_refusal(code) {
            Some(reason) => PollStep::Fail { reason },
            None => PollStep::Proceed,
        },
        ChildPoll::Running => if past_deadline {
            PollStep::Kill { reason: owned("elevated VPN step timed out") }
        } else {
            PollStep::Sleep
        },
        ChildPoll::Failed(why) => PollStep::Fail {
            reason: joined("waiting on elevation prompt: ", why.as_str()),
        },
    }
}

/// `Ok(Some(code))` to stop waiting with the helper's exit code, `Ok(None)`
/// to sleep and read again, `Err` for a time-out.
pub fn exit_file_wait(text: Option<String>, past_deadline: bool) -> (r: Result<Option<i32>, String>)
    ensures
        match r {
            Ok(c) => exit_file_wait_spec(opt_text(text), past_deadline) == Ok::<Option<i32>, Seq<char>>(c),
            Err(e) => exit_file_wait_spec(opt_text(text), past_deadline) == Err::<Option<i32>, Seq<char>>(e@),
        },
{
    let code = match &text {
        Some(t) => parse_i32(t.as_str()),
        None => None,
    };
    match code {
        Some(c) => Ok(Some(c)),
        None => if past_deadline {
            Err(owned("elevated VPN step timed out"))
        } else {
            Ok(None)
        },
    }
}

// ---------------------------------------------------------------------------
// Laws
// ---------------------------------------------------------------------------

/// How far a bring-up has got.
pub open spec fn up_rank(s: UpPhase) -> int {
    match s {
        UpPhase::DataDir => 0,
        UpPhase::UpCheck => 1,
        UpPhase::Forwarder => 2,
        UpPhase::Script { .. } => 3,
        UpPhase::Config { .. } => 4,
        UpPhase::Helper { .. } => 5,
        UpPhase::Iface => 6,
        UpPhase::Finished { .. } => 7,
    }
}

/// The phases a bring-up passes through from `s` on the answers `events`.
pub open spec fn up_trace(req: UpRequest, s: UpPhase, events: Seq<UpEvent>) -> Seq<UpPhase>
    decreases events.len(),
{
    if events.len() == 0 {
        seq![s]
    } else {
        let before = up_trace(req, s, events.drop_last());
        before.push(up_transition(req, before.last(), events.last()).0)
    }
}

/// Every answer moves a bring-up forward; a finished one stays finished
/// and logs nothing more.
pub proof fn law_bring_up_moves_forward(req: UpRequest, s: UpPhase, e: UpEvent)
    ensures
        !(s is Finished) ==> up_rank(up_transition(req, s, e).0) > up_rank(s),
        s is Finished ==> up_transition(req, s, e) == (s, None::<Seq<char>>),
{
}

proof fn lemma_up_trace_len(req: UpRequest, s: UpPhase, events: Seq<UpEvent>)
    ensures
        up_trace(req, s, events).len() == events.len() + 1,
        up_trace(req, s, events)[0] == s,
    decreases events.len(),
{
    if events.len() > 0 {
        lemma_up_trace_len(req, s, events.drop_last());
    }
}

proof fn lemma_up_trace_unfinished_before(req: UpRequest, s: UpPhase, events: Seq<UpEvent>, i: int, j: int)
    requires
        0 <= i <= j <= events.len(),
        !(up_trace(req, s, events)[j] is Finished),
    ensures
        !(up_trace(req, s, events)[i] is Finished),
    decreases events.len(),
{
    lemma_up_trace_len(req, s, events);
    let n = events.len() as int;
    if n > 0 {
        let before = up_trace(req, s, events.drop_last());
        lemma_up_trace_len(req, s, events.drop_last());
        assert(up_trace(req, s, events) == before.push(
            up_transition(req, before.last(), events.last()).0,
        ));
        if j == n {
            law_bring_up_moves_forward(req, before.last(), events.last());
            if i < n {
                lemma_up_trace_unfinished_before(req, s, events.drop_last(), i, n - 1);
            }
        } else {
            lemma_up_trace_unfinished_before(req, s, events.drop_last(), i, j);
        }
    }
}

proof fn lemma_up_trace_rises(req: UpRequest, s: UpPhase, events: Seq<UpEvent>, i: int, j: int)
    requires
        0 <= i < j <= events.len(),
        !(up_trace(req, s, events)[j - 1] is Finished),
    ensures
        up_rank(up_trace(req, s, events)[j]) > up_rank(up_trace(req, s, events)[i]),
        up_rank(up_trace(req, s, events)[j]) >= up_rank(s) + j,
    decreases events.len(),
{
    lemma_up_trace_len(req, s, events);
    let t = up_trace(req, s, events);
    let before = up_trace(req, s, events.drop_last());
    lemma_up_trace_len(req, s, events.drop_last());
    let n = events.len() as int;
    assert(t == before.push(up_transition(req, before.last(), events.last()).0));
    assert(forall|k: int| 0 <= k < n ==> #[trigger] t[k] == before[k]);
    if j < n {
        lemma_up_trace_rises(req, s, events.drop_last(), i, j);
    } else {
        law_bring_up_moves_forward(req, before.last(), events.last());
        if n - 1 > 0 {
            lemma_up_trace_unfinished_before(req, s, events.drop_last(), n - 2, n - 1);
            if i < n - 1 {
                lemma_up_trace_rises(req, s, events.drop_last(), i, n - 1);
            } else {
                lemma_up_trace_rises(req, s, events.drop_last(), 0, n - 1);
            }
        }
    }
}

/// The privileged helper, and with it the one administrator prompt, is
/// asked for at most once per bring-up: whatever the answers, no two of
/// the phases on the way request it.
pub proof fn law_bring_up_runs_helper_at_most_once(
    req: UpRequest,
    events: Seq<UpEvent>,
    i: int,
    j: int,
)
    requires
        0 <= i < j < up_trace(req, up_start(req).0, events).len(),
        up_request(req, up_trace(req, up_start(req).0, events)[i]) is RunHelper,
    ensures
        !(up_request(req, up_trace(req, up_start(req).0, events)[j]) is RunHelper),
{
    let s = up_start(req).0;
    lemma_up_trace_len(req, s, events);
    if up_trace(req, s, events)[j] is Helper {
        lemma_up_trace_unfinished_before(req, s, events, j - 1, j);
        lemma_up_trace_rises(req, s, events, i, j);
    }
}

/// A bring-up is over after at most seven answers, whatever they are.
pub proof fn law_bring_up_ends(req: UpRequest, events: Seq<UpEvent>)
    requires
        events.len() >= 7,
    ensures
        up_trace(req, up_start(req).0, events).last() is Finished,
{
    let s = up_start(req).0;
    lemma_up_trace_len(req, s, events);
    let n = events.len() as int;
    if !(up_trace(req, s, events)[n] is Finished) {
        lemma_up_trace_unfinished_before(req, s, events, n - 1, n);
        lemma_up_trace_rises(req, s, events, 0, n);
    }
}

/// A bring-up reports traffic through the TUN only when the layer was
/// found up: already up before anything was done, or up after a successful
/// helper run. Every failed step, a declined prompt among them, ends with
/// the plain proxy, logged, and never fails the connection.
pub proof fn law_bring_up_active_only_when_up(req: UpRequest, s: UpPhase, e: UpEvent)
    requires
        !(s is Finished),
        up_transition(req, s, e).0 == (UpPhase::Finished { active: true }),
    ensures
        (s is UpCheck && e == UpEvent::UpCheck(true)) || (s is Iface && e == UpEvent::IfaceCheck(true)),
{
}

/// How far a tear-down has got.
pub open spec fn down_rank(s: DownState) -> int {
    match s {
        DownState::Pid => 0,
        DownState::Iface => 1,
        DownState::Script => 2,
        DownState::Helper => 3,
        DownState::Finished => 4,
    }
}

/// Every answer moves a tear-down forward; a finished one stays finished.
pub proof fn law_bring_down_moves_forward(req: DownRequest, s: DownState, e: DownEvent)
    ensures
        s != DownState::Finished ==> down_rank(down_transition(req, s, e).0) > down_rank(s),
        s == DownState::Finished ==> down_transition(req, s, e) == (s, None::<Seq<char>>),
{
}

/// With the forwarder gone and no interface left, a tear-down ends without
/// the helper and without a prompt; with either still there it goes on to
/// the helper script.
pub proof fn law_bring_down_prompt_free_when_down(req: DownRequest, alive: bool, iface: bool)
    requires
        req.supported,
    ensures
        ({
            let first = down_transition(req, down_start(req), DownEvent::PidAlive(alive)).0;
            let second = if first == DownState::Iface {
                down_transition(req, first, DownEvent::IfaceExists(iface)).0
            } else {
                first
            };
            &&& (!alive && !iface) ==> second == DownState::Finished
            &&& (alive || iface) ==> second == DownState::Script
        }),
{
}

} // verus!
