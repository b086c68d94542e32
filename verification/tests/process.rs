use voyager_message::context::ModuleRpcClient;
use voyager_message::hex::encode_hex;
use voyager_message::process::{
    default_enabled, enabled_module_configs, make_module_client_socket_path,
    make_module_rpc_server_socket_path, module_info_args, module_info_failure, module_run_args,
    ModuleConfig, ModuleSupervisor, SupervisorAction, SupervisorEvent, SupervisorPhase,
    INVALID_CONFIG_EXIT_CODE, STARTUP_ERROR_EXIT_CODE,
};

const KECCAK_EMPTY: &str = "c5d2460186f7233c927e7db2dcc703c0e500b653ca82273b7bfad8045d85a470";
const KECCAK_ABC: &str = "4e03657aea45a94fc7d47ba826c8d667c0d1e6e33a64a036ec44f58fa12d6c45";

fn config(path: &str, enabled: bool) -> ModuleConfig {
    ModuleConfig { path: path.to_string(), config: "{\"a\":1}".to_string(), enabled }
}

#[test]
fn hex_is_lowercase_two_digits_per_byte() {
    assert_eq!(encode_hex(&[]), "");
    assert_eq!(encode_hex(&[0x00, 0x0f, 0xa0, 0xff]), "000fa0ff");
    assert_eq!(encode_hex(&[0xbe, 0xef]).len(), 4);
}

#[test]
fn socket_paths_hash_the_name() {
    assert_eq!(
        make_module_client_socket_path(""),
        format!("/tmp/voyager-to-module-{KECCAK_EMPTY}.sock")
    );
    assert_eq!(
        make_module_rpc_server_socket_path("abc"),
        format!("/tmp/module-to-voyager-{KECCAK_ABC}.sock")
    );
    assert_eq!(
        ModuleRpcClient::make_socket_path("abc"),
        format!("/tmp/voyager-to-module-{KECCAK_ABC}.sock")
    );
    let client = ModuleRpcClient::new("abc");
    assert_eq!(client.name(), "abc");
    assert_eq!(client.socket_path(), ModuleRpcClient::make_socket_path("abc"));
}

#[test]
fn client_and_server_sockets_differ() {
    let a = make_module_client_socket_path("chain/union-1");
    let b = make_module_rpc_server_socket_path("chain/union-1");
    assert_ne!(a, b);
    assert_eq!(a.len(), 92);
    assert_eq!(b.len(), 92);
    assert_eq!(ModuleRpcClient::new("x").socket_path().len(), 92);
}

#[test]
fn exit_codes() {
    assert_eq!(INVALID_CONFIG_EXIT_CODE, 13);
    assert_eq!(STARTUP_ERROR_EXIT_CODE, 14);
}

#[test]
fn modules_are_enabled_by_default() {
    assert!(default_enabled());
}

#[test]
fn disabled_modules_are_skipped_in_order() {
    let configs = vec![config("a", true), config("b", false), config("c", true), config("d", false)];
    let enabled = enabled_module_configs(&configs);
    let paths: Vec<&str> = enabled.iter().map(|c| c.path.as_str()).collect();
    assert_eq!(paths, vec!["a", "c"]);
    assert!(enabled_module_configs(&vec![]).is_empty());
    let twice = enabled_module_configs(&enabled);
    assert_eq!(twice, enabled);
}

#[test]
fn process_arguments() {
    let c = config("/bin/module", true);
    assert_eq!(module_info_args(&c), vec!["info".to_string(), "{\"a\":1}".to_string()]);
    assert_eq!(
        module_run_args("abc", &c),
        vec![
            "run".to_string(),
            format!("/tmp/voyager-to-module-{KECCAK_ABC}.sock"),
            format!("/tmp/module-to-voyager-{KECCAK_ABC}.sock"),
            "{\"a\":1}".to_string(),
        ]
    );
}

#[test]
fn module_info_outcomes() {
    assert_eq!(module_info_failure("/m", true, Some(0), b"{}"), None);
    assert_eq!(
        module_info_failure("/m", false, Some(13), b"bad config"),
        Some("invalid config for module at path /m:\nbad config".to_string())
    );
    assert_eq!(
        module_info_failure("/m", false, Some(1), b"oops"),
        Some("unable to query info for module at path /m:\noops".to_string())
    );
    assert_eq!(
        module_info_failure("/m", false, None, b"\xffx"),
        Some("unable to query info for module at path /m:\n\u{FFFD}x".to_string())
    );
}

#[test]
fn supervisor_restarts_and_stops() {
    let mut s = ModuleSupervisor::new();
    assert_eq!(s.step(SupervisorEvent::SpawnFailed), SupervisorAction::RetrySpawn);
    assert_eq!(s.step(SupervisorEvent::Spawned), SupervisorAction::AwaitChild);
    assert_eq!(s.phase, SupervisorPhase::Running);
    assert_eq!(
        s.step(SupervisorEvent::ChildExited { code: Some(1) }),
        SupervisorAction::Restart { cancel_all: false }
    );
    assert_eq!(s.attempt, 1);
    assert_eq!(s.phase, SupervisorPhase::Spawning);
    assert_eq!(s.step(SupervisorEvent::Spawned), SupervisorAction::AwaitChild);
    assert_eq!(
        s.step(SupervisorEvent::ChildExited { code: Some(13) }),
        SupervisorAction::Restart { cancel_all: true }
    );
    assert_eq!(s.attempt, 2);
    assert_eq!(s.step(SupervisorEvent::Spawned), SupervisorAction::AwaitChild);
    assert_eq!(s.step(SupervisorEvent::WaitFailed), SupervisorAction::Restart { cancel_all: false });
    assert_eq!(s.attempt, 3);
    assert_eq!(s.step(SupervisorEvent::Spawned), SupervisorAction::AwaitChild);
    assert_eq!(s.step(SupervisorEvent::Cancelled), SupervisorAction::KillChild);
    assert_eq!(s.phase, SupervisorPhase::Stopped);
    let before = s;
    assert_eq!(s.step(SupervisorEvent::ChildExited { code: Some(13) }), SupervisorAction::Ignore);
    assert_eq!(s.step(SupervisorEvent::Spawned), SupervisorAction::Ignore);
    assert_eq!(s, before);
}

#[test]
fn exit_without_code_does_not_cancel() {
    let mut s = ModuleSupervisor::new();
    s.step(SupervisorEvent::Spawned);
    assert_eq!(
        s.step(SupervisorEvent::ChildExited { code: None }),
        SupervisorAction::Restart { cancel_all: false }
    );
}

#[test]
fn different_names_get_different_sockets() {
    assert_ne!(make_module_client_socket_path("a"), make_module_client_socket_path("b"));
    assert_ne!(make_module_rpc_server_socket_path("a"), make_module_rpc_server_socket_path("b"));
}

#[test]
fn only_cancellation_stops_supervision() {
    let events = [
        SupervisorEvent::SpawnFailed,
        SupervisorEvent::Spawned,
        SupervisorEvent::ChildExited { code: Some(13) },
        SupervisorEvent::WaitFailed,
        SupervisorEvent::ChildExited { code: None },
    ];
    for first in events {
        for second in events {
            let mut s = ModuleSupervisor::new();
            s.step(first);
            s.step(second);
            assert_ne!(s.phase, SupervisorPhase::Stopped);
        }
    }
}
