//! Tests driving the setup, prove, and verify state machines with
//! synthetic events.

use wrapper::error::ErrorKind;
use wrapper::params::{
    new_replica_id, new_setup_params_with_defaults, PersistentTau, ReplicaId, Tau,
};
use wrapper::store::{PersistentAux, StoreConfig, TemporaryAux};
use wrapper::vanilla::{
    prove_inner, setup_inner, verify_inner, Action, Event, ProveState, SetupState, VerifyState,
};

fn bytes(s: &str) -> Vec<u8> {
    s.as_bytes().to_vec()
}

fn sample_store_config() -> StoreConfig {
    StoreConfig {
        path: bytes("./sample"),
        id: bytes("tree-d"),
        size: None,
        rows_to_discard: 4,
    }
}

fn sample_tau() -> Tau {
    Tau { comm_d: vec![1; 32], comm_r: vec![2; 32] }
}

fn sample_p_aux() -> PersistentAux {
    PersistentAux { comm_c: vec![1, 2, 3, 4], comm_r_last: vec![5, 6, 7, 8] }
}

fn sample_t_aux() -> TemporaryAux {
    TemporaryAux {
        labels: vec![sample_store_config()],
        tree_d_config: sample_store_config(),
        tree_r_last_config: sample_store_config(),
        tree_c_config: sample_store_config(),
    }
}

fn write_path(a: &Action) -> Vec<u8> {
    match a {
        Action::WriteFile { path, .. } => path.clone(),
        _ => panic!("expected a write action"),
    }
}

#[test]
fn setup_flow_persists_all_artifacts_in_order() {
    let sp = new_setup_params_with_defaults(32);
    let scfg = sample_store_config();
    let rid = new_replica_id();
    let (mut flow, first) = setup_inner(bytes("./sample/sample.dat"), sp, scfg, rid)
        .expect("setup flow should open");

    assert_eq!(write_path(&first), bytes("./sample/params/sample.store_conf"));

    let a = flow.step(Event::Completed);
    assert_eq!(write_path(&a), bytes("./sample/params/sample.p_sp"));

    let a = flow.step(Event::Completed);
    assert_eq!(write_path(&a), bytes("./sample/params/sample.replica_id"));
    match &a {
        Action::WriteFile { bytes: b, .. } => assert_eq!(b.len(), 32),
        _ => panic!("expected a write action"),
    }

    let a = flow.step(Event::Completed);
    assert!(matches!(a, Action::EngineSetup { .. }));

    let a = flow.step(Event::Completed);
    match &a {
        Action::CreateReplica { src, dest } => {
            assert_eq!(src, &bytes("./sample/sample.dat"));
            assert_eq!(dest, &bytes("./sample/sample.replica"));
        },
        _ => panic!("expected the replica creation"),
    }

    let a = flow.step(Event::Completed);
    assert!(matches!(a, Action::EngineReplicate { .. }));

    let a = flow.step(Event::Replicated {
        tau: sample_tau(),
        p_aux: sample_p_aux(),
        t_aux: sample_t_aux(),
    });
    assert_eq!(write_path(&a), bytes("./sample/params/sample.p_tau"));

    let a = flow.step(Event::Completed);
    assert_eq!(write_path(&a), bytes("./sample/params/sample.p_aux"));

    let a = flow.step(Event::Completed);
    assert_eq!(write_path(&a), bytes("./sample/params/sample.t_aux"));

    let a = flow.step(Event::Completed);
    match a {
        Action::Done { payload } => assert_eq!(payload, bytes("./sample/sample.replica")),
        _ => panic!("expected the flow to finish with the replica path"),
    }
    assert_eq!(flow.state, SetupState::Finished);
}

#[test]
fn setup_flow_reports_engine_failures_as_engine_errors() {
    let sp = new_setup_params_with_defaults(32);
    let (mut flow, _) = setup_inner(bytes("s.dat"), sp, sample_store_config(), new_replica_id())
        .expect("setup flow should open");
    flow.step(Event::Completed);
    flow.step(Event::Completed);
    flow.step(Event::Completed);
    // now awaiting the engine's setup
    let a = flow.step(Event::Failed { msg: bytes("graph too large") });
    match a {
        Action::Fail { error } => {
            assert_eq!(error.kind, ErrorKind::Engine);
            assert_eq!(error.msg, bytes("graph too large"));
        },
        _ => panic!("expected a failure"),
    }
    assert_eq!(flow.state, SetupState::Failed);
}

#[test]
fn prove_without_setup_artifacts_is_an_io_error() {
    let sp = new_setup_params_with_defaults(32);
    let (mut flow, first) = prove_inner(
        bytes("./nowhere/missing.replica"),
        sp,
        new_replica_id(),
        vec![7; 32],
        0,
        1,
    )
    .expect("prove flow should open");
    match &first {
        Action::ReadFile { path } => {
            assert_eq!(path, &bytes("./nowhere/params/missing.p_tau"))
        },
        _ => panic!("expected the commitments to be reloaded first"),
    }
    // the artifact is missing: the performer reports the read failure
    let a = flow.step(Event::Failed { msg: bytes("No such file or directory") });
    match a {
        Action::Fail { error } => assert_eq!(error.kind, ErrorKind::Io),
        _ => panic!("expected a failure"),
    }
    assert_eq!(flow.state, ProveState::Failed);
}

#[test]
fn prove_flow_assembles_engine_inputs_from_artifacts() {
    let sp = new_setup_params_with_defaults(32);
    let seed = vec![9; 32];
    let (mut flow, _) = prove_inner(
        bytes("./sample/sample.replica"),
        sp,
        new_replica_id(),
        seed.clone(),
        0,
        1,
    )
    .expect("prove flow should open");

    let tau_text = PersistentTau { comm_d: vec![1; 32], comm_r: vec![2; 32] }.into_json();
    let a = flow.step(Event::Bytes { bytes: tau_text });
    match &a {
        Action::ReadFile { path } => assert_eq!(path, &bytes("./sample/params/sample.t_aux")),
        _ => panic!("expected the temporary aux to be reloaded"),
    }

    let a = flow.step(Event::Bytes { bytes: sample_t_aux().into_json() });
    match &a {
        Action::ReadFile { path } => assert_eq!(path, &bytes("./sample/params/sample.p_aux")),
        _ => panic!("expected the persistent aux to be reloaded"),
    }

    let a = flow.step(Event::Bytes { bytes: sample_p_aux().into_json() });
    match &a {
        Action::EngineProve { seed: s, tau, p_aux, partitions, k, .. } => {
            assert_eq!(s, &seed);
            assert_eq!(tau.comm_d, vec![1; 32]);
            assert_eq!(p_aux.comm_c, vec![1, 2, 3, 4]);
            assert_eq!(*k, 0);
            assert_eq!(*partitions, 1);
        },
        _ => panic!("expected the prover to be invoked"),
    }

    let a = flow.step(Event::ProofText { bytes: bytes("[proof]") });
    match a {
        Action::Done { payload } => assert_eq!(payload, bytes("[proof]")),
        _ => panic!("expected the proof to be delivered"),
    }
    assert_eq!(flow.state, ProveState::Finished);
}

#[test]
fn prove_flow_rejects_malformed_artifacts_as_codec_errors() {
    let sp = new_setup_params_with_defaults(32);
    let (mut flow, _) = prove_inner(bytes("s.replica"), sp, new_replica_id(), vec![0; 32], 0, 1)
        .expect("prove flow should open");
    let a = flow.step(Event::Bytes { bytes: bytes("not json") });
    match a {
        Action::Fail { error } => assert_eq!(error.kind, ErrorKind::Codec),
        _ => panic!("expected a failure"),
    }
}

#[test]
fn verify_flow_reports_a_negative_verdict_as_rejection_not_error() {
    let sp = new_setup_params_with_defaults(32);
    let (mut flow, _) = verify_inner(
        bytes("s.replica"),
        sp,
        new_replica_id(),
        vec![0; 32],
        0,
        bytes("[proof]"),
    )
    .expect("verify flow should open");
    let tau_text = PersistentTau { comm_d: vec![1; 32], comm_r: vec![2; 32] }.into_json();
    let a = flow.step(Event::Bytes { bytes: tau_text });
    match &a {
        Action::EngineVerify { proof_text, .. } => assert_eq!(proof_text, &bytes("[proof]")),
        _ => panic!("expected the verifier to be invoked"),
    }
    let a = flow.step(Event::Verified { pass: false });
    assert!(matches!(a, Action::Rejected));
    assert_eq!(flow.state, VerifyState::Finished);
}

#[test]
fn verify_flow_accepts_a_positive_verdict() {
    let sp = new_setup_params_with_defaults(32);
    let (mut flow, _) = verify_inner(
        bytes("s.replica"),
        sp,
        new_replica_id(),
        vec![0; 32],
        0,
        bytes("[proof]"),
    )
    .expect("verify flow should open");
    let tau_text = PersistentTau { comm_d: vec![3; 32], comm_r: vec![4; 32] }.into_json();
    flow.step(Event::Bytes { bytes: tau_text });
    let a = flow.step(Event::Verified { pass: true });
    match a {
        Action::Done { payload } => assert_eq!(payload.len(), 0),
        _ => panic!("expected an empty success payload"),
    }
    assert_eq!(flow.state, VerifyState::Finished);
}

#[test]
fn replica_id_raw_bytes_are_little_endian_limbs() {
    let id = ReplicaId { limbs: vec![1, 0, 0, 256] };
    let raw = wrapper::util::replica_id_to_bytes(&id);
    assert_eq!(raw.len(), 32);
    assert_eq!(raw[0], 1);
    assert_eq!(&raw[1..24], &[0; 23]);
    assert_eq!(raw[24], 0);
    assert_eq!(raw[25], 1);
    assert_eq!(&raw[26..32], &[0; 6]);
}
