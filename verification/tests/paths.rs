//! Tests of the deterministic artifact-path derivation.

use wrapper::error::ErrorKind;
use wrapper::params::default_rows_to_discard;
use wrapper::util::{
    count_nodes, init_output_dir, mk_default_layout, target_file_name, target_param_file_name,
    InitDirStep,
};

fn bytes(s: &str) -> Vec<u8> {
    s.as_bytes().to_vec()
}

#[test]
fn test_output_file_name() {
    let example1 = target_file_name(&bytes("./sample/sample.dat"), &bytes("./another_example"), &bytes("txt"))
        .expect("error create the output filename");
    assert_eq!(bytes("./another_example/sample.txt"), example1);
    let example2 = target_file_name(&example1, &bytes("./another_example"), &bytes("store_conf"))
        .expect("error create the output filename");
    assert_eq!(bytes("./another_example/sample.store_conf"), example2);
}

#[test]
fn param_file_name_is_rooted_in_params_dir() {
    let p = target_param_file_name(&bytes("./sample/sample.replica"), &bytes("p_tau"))
        .expect("error create the param filename");
    assert_eq!(bytes("./sample/params/sample.p_tau"), p);
    let p = target_param_file_name(&bytes("sample.replica"), &bytes("t_aux"))
        .expect("error create the param filename");
    assert_eq!(bytes("params/sample.t_aux"), p);
}

#[test]
fn path_derivation_is_deterministic() {
    let a = target_file_name(&bytes("a/b.dat"), &bytes("out"), &bytes("replica")).unwrap();
    let b = target_file_name(&bytes("a/b.dat"), &bytes("out"), &bytes("replica")).unwrap();
    assert_eq!(a, b);
    let c = target_param_file_name(&bytes("out/b.replica"), &bytes("p_sp")).unwrap();
    let d = target_param_file_name(&bytes("out/b.replica"), &bytes("p_sp")).unwrap();
    assert_eq!(c, d);
}

#[test]
fn missing_file_name_is_rejected() {
    let e = target_file_name(&bytes(""), &bytes("out"), &bytes("txt")).unwrap_err();
    assert_eq!(e.kind, ErrorKind::Io);
    let e = target_file_name(&bytes("a/.."), &bytes("out"), &bytes("txt")).unwrap_err();
    assert_eq!(e.kind, ErrorKind::Io);
    let e = target_param_file_name(&bytes("/"), &bytes("p_sp")).unwrap_err();
    assert_eq!(e.kind, ErrorKind::Io);
}

#[test]
fn hidden_file_names_keep_their_leading_dot() {
    let p = target_file_name(&bytes("dir/.hidden"), &bytes("out"), &bytes("txt")).unwrap();
    assert_eq!(bytes("out/.hidden.txt"), p);
}

#[test]
fn node_counting_divides_by_node_width() {
    assert_eq!(count_nodes(0), 0);
    assert_eq!(count_nodes(1024), 32);
    assert_eq!(count_nodes(1055), 32);
    assert_eq!(count_nodes(1056), 33);
}

#[test]
fn default_cache_depth_matches_tree_height() {
    assert_eq!(default_rows_to_discard(1), 0);
    assert_eq!(default_rows_to_discard(4), 1);
    assert_eq!(default_rows_to_discard(32), 4);
    assert_eq!(default_rows_to_discard(1024), 7);
}

#[test]
fn clearing_initialization_repeats() {
    // with the clear flag the decision succeeds no matter the prior state
    assert_eq!(init_output_dir(false, true).unwrap(), InitDirStep::CreateOnly);
    assert_eq!(init_output_dir(true, true).unwrap(), InitDirStep::ClearThenCreate);
}

#[test]
fn existing_directory_without_clear_flag_is_refused() {
    let e = init_output_dir(true, false).unwrap_err();
    assert_eq!(e.kind, ErrorKind::Io);
    assert_eq!(init_output_dir(false, false).unwrap(), InitDirStep::CreateOnly);
}

#[test]
fn the_reserved_layout_sits_under_the_output_dir() {
    assert_eq!(mk_default_layout(&bytes("./sample")), bytes("./sample/params"));
    assert_eq!(mk_default_layout(&bytes("dir/")), bytes("dir/params"));
    assert_eq!(mk_default_layout(&bytes("")), bytes("params"));
}
