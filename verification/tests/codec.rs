//! Round-trip and exact-form tests for the parameter codec.

use wrapper::error::ErrorKind;
use wrapper::params::{
    chal_seed_from_json, default_setup, new_porep_id, new_setup_params_with_defaults,
    p_tau_from_json, replica_id_from_json, replica_id_into_json, setup_params_from_json,
    setup_params_into_json, LayerChallenges, PersistentTau, SetupParams,
};
use wrapper::store::{p_aux_from_json, store_cfg_from_json, t_aux_from_json};

fn bytes(s: &str) -> Vec<u8> {
    s.as_bytes().to_vec()
}

#[test]
fn test_serde_setup_params() {
    let dot = bytes(".");
    let (_, lhs) = default_setup(64, &dot, new_porep_id());

    let data = setup_params_into_json(&lhs);

    let rhs = setup_params_from_json(&data).expect("error deserialize the SetupParams from json");

    assert_eq!(lhs.nodes, rhs.nodes);
    assert_eq!(lhs.degree, rhs.degree);
    assert_eq!(lhs.expansion_degree, rhs.expansion_degree);
    assert_eq!(&lhs.porep_id, &rhs.porep_id);
    assert_eq!(lhs.layer_challenges.layers, rhs.layer_challenges.layers);
    assert_eq!(lhs.layer_challenges.max_count, rhs.layer_challenges.max_count);
}

#[test]
fn test_serde_replica_id() {
    let sample_replica_id_data =
        r#"[6868552744863790462,18061126747641064871,15229175371992025091,5445982386805143806]"#;

    let replica_id = replica_id_from_json(&bytes(sample_replica_id_data))
        .expect("error restore replica ID object");
    let another_replica_id_data = replica_id_into_json(&replica_id);

    assert_eq!(bytes(sample_replica_id_data), another_replica_id_data);
}

#[test]
fn test_serde_replicate_outputs() {
    let sample_tau_data = r#"{"comm_d":[47,253,158,87,141,16,90,22,36,36,99,164,198,37,99,1,56,137,103,149,86,151,239,199,164,211,19,207,238,145,27,2],"comm_r":[86,191,113,180,80,26,122,13,59,114,233,214,250,72,193,162,99,72,196,77,137,250,225,79,56,106,225,169,218,66,51,15]}"#;
    let sample_p_aux_data = r#"{"comm_c":[17267550153351710043,10886907006776105359,3945427731707610239,4099319404227195],"comm_r_last":[7436427305259939742,6382606002039802184,15244580351193237470,3087863950776047946]}"#;
    let sample_t_aux_data = r#"{"labels":{"labels":[{"path":"./sample","id":"layer-1","size":32,"rows_to_discard":4},{"path":"./sample","id":"layer-2","size":32,"rows_to_discard":4},{"path":"./sample","id":"layer-3","size":32,"rows_to_discard":4},{"path":"./sample","id":"layer-4","size":32,"rows_to_discard":4},{"path":"./sample","id":"layer-5","size":32,"rows_to_discard":4},{"path":"./sample","id":"layer-6","size":32,"rows_to_discard":4},{"path":"./sample","id":"layer-7","size":32,"rows_to_discard":4},{"path":"./sample","id":"layer-8","size":32,"rows_to_discard":4},{"path":"./sample","id":"layer-9","size":32,"rows_to_discard":4},{"path":"./sample","id":"layer-10","size":32,"rows_to_discard":4},{"path":"./sample","id":"layer-11","size":32,"rows_to_discard":4}],"_h":null},"tree_d_config":{"path":"./sample","id":"tree-d","size":63,"rows_to_discard":4},"tree_r_last_config":{"path":"./sample","id":"tree-r-last","size":63,"rows_to_discard":4},"tree_c_config":{"path":"./sample","id":"tree-c","size":63,"rows_to_discard":4},"_g":null}"#;

    let p_tau = p_tau_from_json(&bytes(sample_tau_data)).expect("error restore PersistentTau object");
    let tau = p_tau.as_tau().expect("as_tau: type convert failed");
    let p_aux =
        p_aux_from_json(&bytes(sample_p_aux_data)).expect("error restore PersistentAux object");
    let t_aux =
        t_aux_from_json(&bytes(sample_t_aux_data)).expect("error restore TemporaryAux object");

    let another_p_tau = tau.to_persistent();
    let another_p_tau_data = another_p_tau.into_json();
    let another_p_aux_data = p_aux.into_json();
    let another_t_aux_data = t_aux.into_json();

    assert_eq!(bytes(sample_tau_data), another_p_tau_data);
    assert_eq!(bytes(sample_p_aux_data), another_p_aux_data);
    assert_eq!(bytes(sample_t_aux_data), another_t_aux_data);
}

#[test]
fn setup_params_exact_form() {
    let sp = SetupParams {
        nodes: 4,
        degree: 6,
        expansion_degree: 8,
        porep_id: vec![0; 32],
        layer_challenges: LayerChallenges { layers: 11, max_count: 1 },
    };
    let expected = r#"{"nodes":4,"degree":6,"expansion_degree":8,"porep_id":[0,0,0,0,0,0,0,0,0,0,0,0,0,0,0,0,0,0,0,0,0,0,0,0,0,0,0,0,0,0,0,0],"layer_challenges":{"layers":11,"max_count":1}}"#;
    assert_eq!(bytes(expected), setup_params_into_json(&sp));
}

#[test]
fn setup_params_defaults() {
    let sp = new_setup_params_with_defaults(1024);
    assert_eq!(sp.nodes, 1024);
    assert_eq!(sp.degree, 6);
    assert_eq!(sp.expansion_degree, 8);
    assert_eq!(sp.porep_id.len(), 32);
    assert_eq!(sp.layer_challenges.layers, 11);
    assert_eq!(sp.layer_challenges.max_count, 1);
}

#[test]
fn malformed_text_is_a_codec_error() {
    let e = setup_params_from_json(&bytes(r#"{"nodes":4"#)).unwrap_err();
    assert_eq!(e.kind, ErrorKind::Codec);
    let e = setup_params_from_json(&bytes(r#"{"nodes":04,"degree":6}"#)).unwrap_err();
    assert_eq!(e.kind, ErrorKind::Codec);
    let e = replica_id_from_json(&bytes("[1,2,3]")).unwrap_err();
    assert_eq!(e.kind, ErrorKind::Codec);
    let e = store_cfg_from_json(&bytes(r#"{"path":1}"#)).unwrap_err();
    assert_eq!(e.kind, ErrorKind::Codec);
}

#[test]
fn wrong_width_digest_is_an_engine_error() {
    let p_tau = PersistentTau { comm_d: vec![1, 2, 3], comm_r: vec![0; 32] };
    let e = p_tau.as_tau().unwrap_err();
    assert_eq!(e.kind, ErrorKind::Engine);
}

#[test]
fn store_config_null_size_round_trip() {
    let text = bytes(r#"{"path":"./out","id":"tree-d","size":null,"rows_to_discard":2}"#);
    let cfg = store_cfg_from_json(&text).expect("store config should decode");
    assert_eq!(cfg.size, None);
    assert_eq!(cfg.rows_to_discard, 2);
    assert_eq!(text, cfg.into_json());
}

#[test]
fn only_the_canonical_form_is_accepted() {
    // the same record with an extra space is rejected: decoding accepts
    // exactly what encoding produces
    let spaced = bytes(
        r#"{"nodes": 4,"degree":6,"expansion_degree":8,"porep_id":[0,0,0,0,0,0,0,0,0,0,0,0,0,0,0,0,0,0,0,0,0,0,0,0,0,0,0,0,0,0,0,0],"layer_challenges":{"layers":11,"max_count":1}}"#,
    );
    assert!(setup_params_from_json(&spaced).is_err());

    // trailing bytes are rejected too
    let mut doc = setup_params_into_json(&SetupParams {
        nodes: 4,
        degree: 6,
        expansion_degree: 8,
        porep_id: vec![0; 32],
        layer_challenges: LayerChallenges { layers: 11, max_count: 1 },
    });
    doc.push(b' ');
    assert!(setup_params_from_json(&doc).is_err());
}

#[test]
fn seed_texts_must_hold_exactly_thirty_two_bytes() {
    let e = chal_seed_from_json(&bytes("[1,2,3]")).unwrap_err();
    assert_eq!(e.kind, ErrorKind::Codec);
    let e = chal_seed_from_json(&bytes("[300]")).unwrap_err();
    assert_eq!(e.kind, ErrorKind::Codec);
    let ok = chal_seed_from_json(&bytes(
        "[0,1,2,3,4,5,6,7,8,9,10,11,12,13,14,15,16,17,18,19,20,21,22,23,24,25,26,27,28,29,30,31]",
    ))
    .expect("a full seed decodes");
    assert_eq!(ok.len(), 32);
}
