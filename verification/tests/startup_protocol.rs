//! Pool construction: the conflict check, spawning, and readiness polling.

use kobold_dispatch::config::ServerConfig;
use kobold_dispatch::startup::ProbeOutcome;
use kobold_dispatch::startup::StartupError;
use kobold_dispatch::startup::StartupMachine;
use kobold_dispatch::startup::StartupPhase;
use kobold_dispatch::startup::server_args;

#[test]
fn conflict_before_spawn_fails_with_no_processes() {
    let mut machine = StartupMachine::new(2, 5001);
    assert_eq!(machine.phase, StartupPhase::ConflictProbe);
    // One target port already answers: a foreign server.
    let round = vec![ProbeOutcome::Online, ProbeOutcome::Refused];
    let ok = machine.on_conflict_probe(&round);
    assert!(!ok);
    assert_eq!(machine.phase, StartupPhase::Failed(StartupError::Conflict));
    // Nothing was spawned: no dispatcher-owned process can be running.
    assert_eq!(machine.spawned, 0);
}

#[test]
fn silent_ports_let_spawning_begin() {
    let mut machine = StartupMachine::new(2, 5001);
    let round = vec![ProbeOutcome::Refused, ProbeOutcome::Refused];
    assert!(machine.on_conflict_probe(&round));
    assert_eq!(machine.phase, StartupPhase::Spawning);
    assert_eq!(machine.next_spawn_port(), 5001);
    machine.on_spawn_ok();
    assert_eq!(machine.next_spawn_port(), 5002);
    machine.on_spawn_ok();
    assert_eq!(machine.phase, StartupPhase::Grace);
}

#[test]
fn spawn_failure_abandons_construction() {
    let mut machine = StartupMachine::new(3, 5001);
    assert!(machine.on_conflict_probe(&vec![
        ProbeOutcome::Refused,
        ProbeOutcome::Refused,
        ProbeOutcome::Refused,
    ]));
    machine.on_spawn_ok();
    machine.on_spawn_failed();
    assert_eq!(machine.phase, StartupPhase::Failed(StartupError::SpawnFailed));
    assert_eq!(machine.spawned, 1);
}

#[test]
fn polling_retries_until_all_answer() {
    let mut machine = StartupMachine::new(2, 6000);
    assert!(machine.on_conflict_probe(&vec![ProbeOutcome::Refused, ProbeOutcome::Refused]));
    machine.on_spawn_ok();
    machine.on_spawn_ok();
    machine.on_grace_elapsed();
    assert_eq!(machine.phase, StartupPhase::Polling);
    // A refused connection is "not ready yet": keep polling.
    machine.on_poll_round(&vec![ProbeOutcome::Online, ProbeOutcome::Refused]);
    assert_eq!(machine.phase, StartupPhase::Polling);
    machine.on_poll_round(&vec![ProbeOutcome::Online, ProbeOutcome::Online]);
    assert_eq!(machine.phase, StartupPhase::Ready);
}

#[test]
fn fatal_probe_mid_poll_abandons_construction() {
    let mut machine = StartupMachine::new(1, 7000);
    assert!(machine.on_conflict_probe(&vec![ProbeOutcome::Refused]));
    machine.on_spawn_ok();
    machine.on_grace_elapsed();
    machine.on_poll_round(&vec![ProbeOutcome::Fatal]);
    assert_eq!(machine.phase, StartupPhase::Failed(StartupError::FatalProbe));
}

#[test]
fn spawn_arguments_encode_the_configuration() {
    let config = ServerConfig {
        executable_file: b"/opt/kobold/server".to_vec(),
        model_file: b"/models/m.bin".to_vec(),
        context_size: 2048,
        threads: 4,
        blas_batch_size: -1,
        blasthreads: Some(2),
        instances: 2,
        port: 5001,
        custom_args: vec![b"--flag".to_vec()],
    };
    let args = server_args(&config, 5002);
    let expected: Vec<Vec<u8>> = vec![
        b"--skiplauncher".to_vec(),
        b"--model".to_vec(),
        b"/models/m.bin".to_vec(),
        b"--host".to_vec(),
        b"127.0.0.1".to_vec(),
        b"--port".to_vec(),
        b"5002".to_vec(),
        b"--threads".to_vec(),
        b"4".to_vec(),
        b"--blasbatchsize".to_vec(),
        b"-1".to_vec(),
        b"--contextsize".to_vec(),
        b"2048".to_vec(),
        b"--blasthreads".to_vec(),
        b"2".to_vec(),
        b"--flag".to_vec(),
    ];
    assert_eq!(args, expected);
}
