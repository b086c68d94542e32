use crate::hex::{append_hex, hex_encode, law_hex_length};
use crate::keccak::{keccak256, keccak256_digest};
use vstd::prelude::*;
use vstd::string::*;
use vstd::utf8::*;

verus! {

/// The exit code with which a module reports that its configuration is invalid.
pub const INVALID_CONFIG_EXIT_CODE: u8 = 13;

/// The exit code with which a module reports that it could not start.
pub const STARTUP_ERROR_EXIT_CODE: u8 = 14;

/// The socket on which a module serves the requests of the host: the host name
/// is hashed so that any module name gives a valid path.
pub open spec fn client_socket_path(name: Seq<char>) -> Seq<char> {
    "/tmp/voyager-to-module-"@ + hex_encode(keccak256(encode_utf8(name))) + ".sock"@
}

/// The socket on which the host serves the requests of a module.
pub open spec fn server_socket_path(name: Seq<char>) -> Seq<char> {
    "/tmp/module-to-voyager-"@ + hex_encode(keccak256(encode_utf8(name))) + ".sock"@
}

/// The socket on which the module called `name` serves the host.
pub fn make_module_client_socket_path(name: &str) -> (path: String)
    ensures
        path@ == client_socket_path(name@),
        path@.len() == 92,
{
    let mut path = String::from_str("/tmp/voyager-to-module-");
    let digest = keccak256_digest(name.as_bytes());
    append_hex(&mut path, digest.as_slice());
    path.append(".sock");
    proof {
        law_hex_length(digest@);
        reveal_strlit("/tmp/voyager-to-module-");
        reveal_strlit(".sock");
    }
    path
}

/// The socket on which the host serves the module called `name`.
pub fn make_module_rpc_server_socket_path(name: &str) -> (path: String)
    ensures
        path@ == server_socket_path(name@),
        path@.len() == 92,
{
    let mut path = String::from_str("/tmp/module-to-voyager-");
    let digest = keccak256_digest(name.as_bytes());
    append_hex(&mut path, digest.as_slice());
    path.append(".sock");
    proof {
        law_hex_length(digest@);
        reveal_strlit("/tmp/module-to-voyager-");
        reveal_strlit(".sock");
    }
    path
}

/// How a module is started: the path of its executable, its configuration as
/// JSON text, and whether it is to be started at all.
#[derive(Debug, PartialEq, Eq, Hash)]
pub struct ModuleConfig {
    pub path: String,
    pub config: String,
    pub enabled: bool,
}

impl Clone for ModuleConfig {
    fn clone(&self) -> (r: Self)
        ensures
            r == *self,
    {
        ModuleConfig { path: self.path.clone(), config: self.config.clone(), enabled: self.enabled }
    }
}

/// A module whose configuration does not say otherwise is enabled.
pub fn default_enabled() -> (enabled: bool)
    ensures
        enabled,
{
    true
}

/// The configurations in `configs` that are enabled, in their order.
pub open spec fn enabled_configs(configs: Seq<ModuleConfig>) -> Seq<ModuleConfig> {
    configs.filter(|c: ModuleConfig| c.enabled)
}

/// The configurations of the modules that are to be started, in their order.
pub fn enabled_module_configs(configs: &Vec<ModuleConfig>) -> (enabled: Vec<ModuleConfig>)
    ensures
        enabled@ == enabled_configs(configs@),
{
    let ghost pred = |c: ModuleConfig| c.enabled;
    let mut out: Vec<ModuleConfig> = Vec::new();
    let n = configs.len();
    let mut i: usize = 0;
    while i < n
        invariant
            n == configs@.len(),
            i <= n,
            pred == (|c: ModuleConfig| c.enabled),
            out@ == configs@.subrange(0, i as int).filter(pred),
        decreases n - i,
    {
        proof {
            let pre = configs@.subrange(0, i as int + 1);
            assert(pre.drop_last() =~= configs@.subrange(0, i as int));
            assert(pre.last() == configs@[i as int]);
            reveal(Seq::filter);
        }
        if configs[i].enabled {
            out.push(configs[i].clone());
        }
        i = i + 1;
    }
    assert(configs@.subrange(0, n as int) =~= configs@);
    out
}

/// The arguments with which a module is asked for its info.
pub fn module_info_args(config: &ModuleConfig) -> (args: Vec<String>)
    ensures
        args@.len() == 2,
        args@[0]@ == "info"@,
        args@[1]@ == config.config@,
{
    let mut args: Vec<String> = Vec::new();
    args.push(String::from_str("info"));
    args.push(config.config.clone());
    args
}

/// The arguments with which the module called `name` is run.
pub fn module_run_args(name: &str, config: &ModuleConfig) -> (args: Vec<String>)
    ensures
        args@.len() == 4,
        args@[0]@ == "run"@,
        args@[1]@ == client_socket_path(name@),
        args@[2]@ == server_socket_path(name@),
        args@[3]@ == config.config@,
{
    let mut args: Vec<String> = Vec::new();
    args.push(String::from_str("run"));
    args.push(make_module_client_socket_path(name));
    args.push(make_module_rpc_server_socket_path(name));
    args.push(config.config.clone());
    args
}

/// The text that `String::from_utf8_lossy` makes of a byte string.
pub uninterp spec fn utf8_lossy(bytes: Seq<u8>) -> Seq<char>;

/// Decodes `bytes` with `String::from_utf8_lossy`. The contract claims that the
/// text is the value named `utf8_lossy` of the bytes, and that a valid UTF-8
/// string comes back as the characters it encodes; how invalid sequences are
/// replaced is left unsaid.
#[verifier::external_body]
fn decode_utf8_lossy(bytes: &[u8]) -> (text: String)
    ensures
        text@ == utf8_lossy(bytes@),
        valid_utf8(bytes@) ==> text@ == decode_utf8(bytes@),
{
    String::from_utf8_lossy(bytes).into_owned()
}

/// The error reported for a module whose `info` query exited without success.
pub open spec fn module_info_failure_message(
    path: Seq<char>,
    exit_code: Option<i32>,
    stdout: Seq<u8>,
) -> Seq<char> {
    if exit_code == Some(INVALID_CONFIG_EXIT_CODE as i32) {
        "invalid config for module at path "@ + path + ":\n"@ + utf8_lossy(stdout)
    } else {
        "unable to query info for module at path "@ + path + ":\n"@ + utf8_lossy(stdout)
    }
}

/// Judges how a module's `info` query ended: nothing is wrong when it exited
/// with success; otherwise the error names the module's path, says whether its
/// configuration was refused, and quotes what it printed.
pub fn module_info_failure(path: &str, success: bool, exit_code: Option<i32>, stdout: &[u8]) -> (r:
    Option<String>)
    ensures
        success ==> r is None,
        !success ==> (r matches Some(msg) && msg@ == module_info_failure_message(
            path@,
            exit_code,
            stdout@,
        )),
{
    if success {
        return None;
    }
    let invalid_config = match exit_code {
        Some(code) => code == INVALID_CONFIG_EXIT_CODE as i32,
        None => false,
    };
    let mut msg = if invalid_config {
        String::from_str("invalid config for module at path ")
    } else {
        String::from_str("unable to query info for module at path ")
    };
    msg.append(path);
    msg.append(":\n");
    let out = decode_utf8_lossy(stdout);
    msg.append(out.as_str());
    Some(msg)
}

/// Where the process of a running module stands.
#[derive(Debug, PartialEq, Eq, Hash, Clone, Copy)]
pub enum SupervisorPhase {
    /// Its process is being started.
    Spawning,
    /// Its process runs and is awaited.
    Running,
    /// The host shut down and the process was killed; nothing follows.
    Stopped,
}

/// What happened to the process of a module.
#[derive(Debug, PartialEq, Eq, Hash, Clone, Copy)]
pub enum SupervisorEvent {
    /// The process could not be started.
    SpawnFailed,
    /// The process was started.
    Spawned,
    /// The host is shutting down.
    Cancelled,
    /// The process exited, with this code if it had one.
    ChildExited { code: Option<i32> },
    /// Waiting for the process failed.
    WaitFailed,
}

/// What the host does next about the process of a module.
#[derive(Debug, PartialEq, Eq, Hash, Clone, Copy)]
pub enum SupervisorAction {
    /// Wait a second and try to start the process again.
    RetrySpawn,
    /// Wait until the process exits or the host shuts down.
    AwaitChild,
    /// Kill the process and wait for it; supervision ends.
    KillChild,
    /// Wait a second and start the process anew; if `cancel_all` is set, first
    /// tell the whole host to shut down.
    Restart { cancel_all: bool },
    /// The event does not apply in this phase.
    Ignore,
}

/// The supervision of one module's process: how many times it has been
/// restarted, and where it stands.
#[derive(Debug, PartialEq, Eq, Hash, Clone, Copy)]
pub struct ModuleSupervisor {
    pub attempt: u64,
    pub phase: SupervisorPhase,
}

/// One step of supervision: the phase and restart count that follow an event,
/// and what to do about it.
pub open spec fn supervisor_step(s: ModuleSupervisor, e: SupervisorEvent) -> (
    ModuleSupervisor,
    SupervisorAction,
) {
    match (s.phase, e) {
        (SupervisorPhase::Spawning, SupervisorEvent::SpawnFailed) => (s, SupervisorAction::RetrySpawn),
        (SupervisorPhase::Spawning, SupervisorEvent::Spawned) => (
            ModuleSupervisor { phase: SupervisorPhase::Running, ..s },
            SupervisorAction::AwaitChild,
        ),
        (SupervisorPhase::Running, SupervisorEvent::Cancelled) => (
            ModuleSupervisor { phase: SupervisorPhase::Stopped, ..s },
            SupervisorAction::KillChild,
        ),
        (SupervisorPhase::Running, SupervisorEvent::ChildExited { code }) => (
            ModuleSupervisor { attempt: (s.attempt + 1) as u64, phase: SupervisorPhase::Spawning },
            SupervisorAction::Restart {
                cancel_all: code == Some(INVALID_CONFIG_EXIT_CODE as i32),
            },
        ),
        (SupervisorPhase::Running, SupervisorEvent::WaitFailed) => (
            ModuleSupervisor { attempt: (s.attempt + 1) as u64, phase: SupervisorPhase::Spawning },
            SupervisorAction::Restart { cancel_all: false },
        ),
        _ => (s, SupervisorAction::Ignore),
    }
}

impl ModuleSupervisor {
    /// Supervision of a module whose process is about to be started for the
    /// first time.
    pub fn new() -> (s: Self)
        ensures
            s.attempt == 0,
            s.phase == SupervisorPhase::Spawning,
    {
        ModuleSupervisor { attempt: 0, phase: SupervisorPhase::Spawning }
    }

    /// Takes in what happened to the process and says what to do next.
    pub fn step(&mut self, event: SupervisorEvent) -> (action: SupervisorAction)
        requires
            old(self).attempt < u64::MAX,
        ensures
            (*final(self), action) == supervisor_step(*old(self), event),
    {
        match (self.phase, event) {
            (SupervisorPhase::Spawning, SupervisorEvent::SpawnFailed) => SupervisorAction::RetrySpawn,
            (SupervisorPhase::Spawning, SupervisorEvent::Spawned) => {
                self.phase = SupervisorPhase::Running;
                SupervisorAction::AwaitChild
            },
            (SupervisorPhase::Running, SupervisorEvent::Cancelled) => {
                self.phase = SupervisorPhase::Stopped;
                SupervisorAction::KillChild
            },
            (SupervisorPhase::Running, SupervisorEvent::ChildExited { code }) => {
                self.attempt = self.attempt + 1;
                self.phase = SupervisorPhase::Spawning;
                let cancel_all = match code {
                    Some(c) => c == INVALID_CONFIG_EXIT_CODE as i32,
                    None => false,
                };
                SupervisorAction::Restart { cancel_all }
            },
            (SupervisorPhase::Running, SupervisorEvent::WaitFailed) => {
                self.attempt = self.attempt + 1;
                self.phase = SupervisorPhase::Spawning;
                SupervisorAction::Restart { cancel_all: false }
            },
            _ => SupervisorAction::Ignore,
        }
    }
}

} // verus!
