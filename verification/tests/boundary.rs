//! Tests of the boundary adapter's validation and string conventions.

use wrapper::boundary::{
    count_node_num_request, count_node_num_result, error_response, generate_challenge,
    generate_replica_id, generate_sample_file, generate_setup_params, generate_store_config,
    initialize_target_dir, ok_response, porep_prove, porep_setup, porep_verify,
    rejected_response, verify_with_proof,
};
use wrapper::error::{Error, ErrorKind};
use wrapper::params::{
    chal_seed_from_json, replica_id_from_json, setup_params_from_json,
};
use wrapper::store::store_cfg_from_json;

fn bytes(s: &str) -> Vec<u8> {
    s.as_bytes().to_vec()
}

#[test]
fn invalid_text_gives_an_encoding_error_and_no_work() {
    let bad = vec![0xff, 0xfe, b'x'];

    let e = initialize_target_dir(bad.clone()).unwrap_err();
    assert_eq!(e.kind, ErrorKind::Encoding);

    let e = generate_sample_file(4, bad.clone()).unwrap_err();
    assert_eq!(e.kind, ErrorKind::Encoding);

    assert!(count_node_num_request(bad.clone()).is_none());

    let e = generate_store_config(4, bad.clone()).unwrap_err();
    assert_eq!(e.kind, ErrorKind::Encoding);

    let e = porep_setup(bad.clone(), bytes("{}"), bytes("{}"), bytes("[]")).unwrap_err();
    assert_eq!(e.kind, ErrorKind::Encoding);

    let e = porep_prove(bad.clone(), bytes("{}"), bytes("[]"), bytes("[]"), bytes("p"))
        .unwrap_err();
    assert_eq!(e.kind, ErrorKind::Encoding);

    let e = porep_verify(bad.clone(), bytes("{}"), bytes("[]"), bytes("[]"), bytes("p"))
        .unwrap_err();
    assert_eq!(e.kind, ErrorKind::Encoding);
}

#[test]
fn responses_follow_the_string_convention() {
    assert_eq!(ok_response(), Vec::<u8>::new());

    let e = Error::new(ErrorKind::Io, bytes("missing artifact"));
    assert_eq!(error_response(&e), bytes("Io: missing artifact"));

    let e = Error::new(ErrorKind::Encoding, bytes("bad text"));
    assert_eq!(error_response(&e), bytes("Encoding: bad text"));

    let e = Error::new(ErrorKind::Codec, bytes("truncated"));
    assert_eq!(error_response(&e), bytes("Codec: truncated"));

    let e = Error::new(ErrorKind::Engine, bytes("mismatch"));
    assert_eq!(error_response(&e), bytes("Engine: mismatch"));

    let e = Error::new(ErrorKind::Other, bytes("unknown"));
    assert_eq!(error_response(&e), bytes("Other: unknown"));

    assert_eq!(rejected_response(), bytes("verification failed"));
}

#[test]
fn generated_values_decode_under_their_own_codec() {
    let id_text = generate_replica_id();
    replica_id_from_json(&id_text).expect("a generated replica id decodes");

    let sp_text = generate_setup_params(64);
    let sp = setup_params_from_json(&sp_text).expect("generated setup params decode");
    assert_eq!(sp.nodes, 64);
    assert_eq!(sp.degree, 6);
    assert_eq!(sp.expansion_degree, 8);

    let chal_text = generate_challenge();
    let seed = chal_seed_from_json(&chal_text).expect("a generated challenge decodes");
    assert_eq!(seed.len(), 32);

    let cfg_text = generate_store_config(32, bytes("./sample")).expect("store config generates");
    let cfg = store_cfg_from_json(&cfg_text).expect("a generated store config decodes");
    assert_eq!(cfg.path, bytes("./sample"));
    assert_eq!(cfg.id, bytes("tree-d"));
    assert_eq!(cfg.size, None);
    assert_eq!(cfg.rows_to_discard, 4);
}

#[test]
fn node_count_is_reported_in_the_boundary_range() {
    assert_eq!(count_node_num_result(0), 0);
    assert_eq!(count_node_num_result(1024), 32);
    // a count beyond the 32-bit boundary range wraps, as the boundary's
    // width dictates
    assert_eq!(count_node_num_result(32 * (1u64 << 32)), 0);
}

#[test]
fn sample_file_request_carries_the_sample_data() {
    let (path, data) = generate_sample_file(4, bytes("s.dat")).expect("request should pass");
    assert_eq!(path, bytes("s.dat"));
    assert_eq!(data.len(), 4 * 32);
}

#[test]
fn setup_request_rejects_malformed_parameters() {
    let e = porep_setup(bytes("s.dat"), bytes("{}"), bytes("{}"), bytes("[]")).unwrap_err();
    assert_eq!(e.kind, ErrorKind::Codec);
}

#[test]
fn full_setup_request_opens_the_flow() {
    let sp_text = generate_setup_params(32);
    let cfg_text = generate_store_config(32, bytes("./sample")).unwrap();
    let rid_text = generate_replica_id();
    let (flow, _first) = porep_setup(bytes("./sample/sample.dat"), sp_text, cfg_text, rid_text)
        .expect("the setup request should open the flow");
    assert_eq!(flow.replica_path, bytes("./sample/sample.replica"));
}

#[test]
fn verify_request_hands_back_the_proof_path() {
    let sp_text = generate_setup_params(32);
    let rid_text = generate_replica_id();
    let chal_text = generate_challenge();
    let (req, proof_path) = porep_verify(
        bytes("./sample/sample.replica"),
        sp_text,
        rid_text,
        chal_text,
        bytes("./sample/proof.json"),
    )
    .expect("the verify request should pass");
    assert_eq!(proof_path, bytes("./sample/proof.json"));
    let (flow, _action) =
        verify_with_proof(req, bytes("[p]")).expect("the verify flow should open");
    assert_eq!(flow.replica_path, bytes("./sample/sample.replica"));
}
