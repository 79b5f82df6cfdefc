//! The boundary adapter: marshaling decisions and string conventions of
//! the foreign-function surface.
//!
//! Every foreign string input arrives as a copied byte buffer and is
//! validated as well-formed text before anything else; a validation failure
//! short-circuits the operation before any side effect.  Every response is
//! a byte string: the empty string for a completed action, a payload for a
//! producing operation, and an error's diagnostic text for any failure.

use vstd::prelude::*;
use vstd::utf8::valid_utf8;

use crate::error::{spec_describe, Error, ErrorKind, WrapResult};
use crate::json::{copy_bytes, is_plain, plain_text};
use crate::params::{
    bytes32_into_json, chal_seed_from_json, enc_bytes32, enc_replica_id, enc_setup_params,
    new_chal_seed, new_replica_id, new_setup_params_with_defaults, new_store_cfg_with_defaults,
    replica_id_from_json, replica_id_into_json, setup_params_from_json, spec_rows_to_discard,
    DEFAULT_BASE_DEGREE, DEFAULT_EXP_DEGREE, DEFAULT_LAYER, DEFAULT_MAX_COUNT, LayerChallenges,
    ReplicaId, SetupParams,
};
use crate::store::{enc_store_config, store_cfg_from_json, StoreConfig};
use crate::util::gen_sample_data;
use crate::vanilla::{prove_inner, setup_inner, verify_inner, Action, ProveFlow, VerifyFlow, SetupFlow};

verus! {

/// Relies on std's `str::from_utf8`: it accepts a byte buffer exactly when
/// the buffer is well-formed UTF-8.
#[verifier::external_body]
pub fn utf8_check(b: &Vec<u8>) -> (r: bool)
    ensures
        r == valid_utf8(b@),
{
    core::str::from_utf8(b.as_slice()).is_ok()
}

/// The success response of an action-only operation: the empty string.
pub fn ok_response() -> (r: Vec<u8>)
    ensures
        r@.len() == 0,
{
    Vec::new()
}

/// The failure response of any operation: the error's diagnostic text,
/// which is never empty, so a caller can always tell it from an action's
/// success response.
pub fn error_response(e: &Error) -> (r: Vec<u8>)
    ensures
        r@ == spec_describe(*e),
        r@.len() > 0,
{
    e.describe()
}

/// The response to a negative verification verdict.  Its text is
/// `verification failed`, which no error response equals, since every
/// error response opens with its kind tag.
pub fn rejected_response() -> (r: Vec<u8>)
    ensures
        r@ == rejected_text(),
        r@.len() > 0,
{
    let v: Vec<u8> = vec![
        118, 101, 114, 105, 102, 105, 99, 97, 116, 105, 111, 110, 32, 102, 97, 105, 108, 101,
        100,
    ];
    proof {
        assert(v@ =~= rejected_text());
    }
    v
}

/// The bytes of `verification failed`.
pub open spec fn rejected_text() -> Seq<u8> {
    seq![
        118u8, 101u8, 114u8, 105u8, 102u8, 105u8, 99u8, 97u8, 116u8, 105u8, 111u8, 110u8, 32u8,
        102u8, 97u8, 105u8, 108u8, 101u8, 100u8,
    ]
}

/// Validates the directory argument of the directory-initialization
/// operation.  Returns the path exactly when it is well-formed text;
/// otherwise an `Encoding` failure, before any side effect.
pub fn initialize_target_dir(dir: Vec<u8>) -> (r: WrapResult<Vec<u8>>)
    ensures
        r is Ok <==> valid_utf8(dir@),
        r matches Ok(d) ==> d@ == dir@,
        r matches Err(e) ==> e.kind == ErrorKind::Encoding,
{
    if !utf8_check(&dir) {
        return Err(crate::error::err_encoding());
    }
    Ok(dir)
}

/// Validates the arguments of the sample-file operation and produces the
/// sample contents: `expected_size` nodes of randomly drawn domain
/// elements.  An ill-encoded path gives an `Encoding` failure before any
/// side effect.
pub fn generate_sample_file(expected_size: u32, path: Vec<u8>) -> (r: WrapResult<
    (Vec<u8>, Vec<u8>),
>)
    ensures
        r is Ok <==> valid_utf8(path@) && expected_size * 32 <= usize::MAX,
        r matches Ok(p) ==> p.0@ == path@ && p.1@.len() == expected_size * 32,
        r matches Err(e) ==> (e.kind == ErrorKind::Encoding && !valid_utf8(path@)) || (e.kind
            == ErrorKind::Other && valid_utf8(path@)),
{
    if !utf8_check(&path) {
        return Err(crate::error::err_encoding());
    }
    if (expected_size as u64) > (usize::MAX as u64) / 32 {
        return Err(crate::error::err_oversize());
    }
    proof {
        assert(expected_size as u64 * 32 <= usize::MAX as u64) by (nonlinear_arith)
            requires
                expected_size as u64 <= (usize::MAX as u64) / 32;
    }
    let data = gen_sample_data(expected_size as u64);
    Ok((path, data))
}

/// Draws a fresh replica identity and returns it in interchange form.
pub fn generate_replica_id() -> (r: Vec<u8>)
    ensures
        exists|id: ReplicaId| id.wf() && r@ == enc_replica_id(id),
{
    let id = new_replica_id();
    let r = replica_id_into_json(&id);
    proof {
        assert(id.wf() && r@ == enc_replica_id(id));
    }
    r
}

/// Validates the path argument of the node-counting operation.  The
/// operation signals failure by the count zero, so an ill-encoded path is
/// reported as `None` rather than as text.
pub fn count_node_num_request(path: Vec<u8>) -> (r: Option<Vec<u8>>)
    ensures
        r is Some <==> valid_utf8(path@),
        r matches Some(p) ==> p@ == path@,
{
    if !utf8_check(&path) {
        return None;
    }
    Some(path)
}

/// The node count reported across the boundary for a file of `len` bytes:
/// the number of whole nodes, reduced to the 32-bit range of the boundary.
pub fn count_node_num_result(len: u64) -> (r: u32)
    ensures
        r == (len / 32) % 4294967296,
{
    let n = crate::util::count_nodes(len);
    (n % 4294967296) as u32
}

/// Builds setup parameters with the default graph shape for `node_num`
/// nodes and returns them in interchange form.
pub fn generate_setup_params(node_num: u32) -> (r: Vec<u8>)
    ensures
        exists|sp: SetupParams|
            sp.wf() && sp.nodes == node_num && sp.degree == DEFAULT_BASE_DEGREE
                && sp.expansion_degree == DEFAULT_EXP_DEGREE && sp.layer_challenges
                == (LayerChallenges { layers: DEFAULT_LAYER, max_count: DEFAULT_MAX_COUNT })
                && r@ == enc_setup_params(sp),
{
    let sp = new_setup_params_with_defaults(node_num as u64);
    let r = crate::params::setup_params_into_json(&sp);
    proof {
        assert(sp.wf() && r@ == enc_setup_params(sp));
    }
    r
}

/// Builds the default store configuration for `node_num` nodes under
/// `dir` and returns it in interchange form.  An ill-encoded directory
/// gives an `Encoding` failure; one that cannot stand in interchange text
/// gives a `Codec` failure.
pub fn generate_store_config(node_num: u32, dir: Vec<u8>) -> (r: WrapResult<Vec<u8>>)
    ensures
        r is Ok <==> valid_utf8(dir@) && plain_text(dir@),
        r matches Ok(p) ==> exists|c: StoreConfig|
            c.wf() && c.path@ == dir@ && c.id@ == crate::params::cache_key_comm_d_tree() && c.size is None
                && c.rows_to_discard == spec_rows_to_discard(node_num as u64) && p@
                == enc_store_config(c),
        r matches Err(e) ==> (e.kind == ErrorKind::Encoding && !valid_utf8(dir@)) || (e.kind
            == ErrorKind::Codec && valid_utf8(dir@) && !plain_text(dir@)),
{
    if !utf8_check(&dir) {
        return Err(crate::error::err_encoding());
    }
    if !is_plain(&dir) {
        return Err(crate::error::err_unencodable());
    }
    let cfg = new_store_cfg_with_defaults(node_num as u64, &dir);
    let r = cfg.into_json();
    proof {
        assert(cfg.wf() && r@ == enc_store_config(cfg));
    }
    Ok(r)
}

/// Draws a fresh challenge seed and returns it in interchange form.
pub fn generate_challenge() -> (r: Vec<u8>)
    ensures
        exists|b: Seq<u8>| b.len() == 32 && r@ == enc_bytes32(b),
{
    let seed = new_chal_seed();
    let r = bytes32_into_json(&seed);
    proof {
        assert(seed@.len() == 32 && r@ == enc_bytes32(seed@));
    }
    r
}


/// No well-formed setup parameters are encoded in `b`.
pub open spec fn no_sp_in(b: Seq<u8>) -> bool {
    forall|sp: SetupParams| sp.wf() ==> b != enc_setup_params(sp)
}

/// No well-formed store configuration is encoded in `b`.
pub open spec fn no_scfg_in(b: Seq<u8>) -> bool {
    forall|c: StoreConfig| c.wf() ==> b != enc_store_config(c)
}

/// No well-formed replica identity is encoded in `b`.
pub open spec fn no_rid_in(b: Seq<u8>) -> bool {
    forall|id: ReplicaId| id.wf() ==> b != enc_replica_id(id)
}

/// No 32-byte value is encoded in `b`.
pub open spec fn no_seed_in(b: Seq<u8>) -> bool {
    forall|s: Seq<u8>| s.len() == 32 ==> b != enc_bytes32(s)
}

/// Starts the setup operation: validates every foreign string in order,
/// restores the typed parameters, and opens the setup flow.  The flow's
/// first action and every later one are handed to the application by
/// `SetupFlow::step`; on success the operation's payload is the replica
/// path.
pub fn porep_setup(
    src_path: Vec<u8>,
    sp_data: Vec<u8>,
    scfg_data: Vec<u8>,
    rid_data: Vec<u8>,
) -> (r: WrapResult<(SetupFlow, Action)>)
    ensures
        r matches Ok(p) ==> {
            &&& p.0.inv()
            &&& p.0.state == crate::vanilla::SetupState::WriteStoreConf
            &&& p.0.src_path@ == src_path@
            &&& sp_data@ == enc_setup_params(p.0.sp)
            &&& scfg_data@ == enc_store_config(p.0.scfg)
            &&& rid_data@ == enc_replica_id(p.0.replica_id)
            &&& (p.1 matches Action::WriteFile { path, bytes } && path@ == p.0.param_path(
                crate::util::ext_store_conf(),
            ) && bytes@ == enc_store_config(p.0.scfg))
        },
        r matches Err(e) ==> match e.kind {
            ErrorKind::Encoding => !(valid_utf8(src_path@) && valid_utf8(sp_data@) && valid_utf8(
                scfg_data@,
            ) && valid_utf8(rid_data@)),
            ErrorKind::Codec => no_sp_in(sp_data@) || no_scfg_in(scfg_data@) || no_rid_in(
                rid_data@,
            ),
            ErrorKind::Io => !crate::util::valid_base(crate::util::base_name_of(src_path@)),
            _ => false,
        },
{
    if !utf8_check(&src_path) || !utf8_check(&sp_data) || !utf8_check(&scfg_data) || !utf8_check(
        &rid_data,
    ) {
        return Err(crate::error::err_encoding());
    }
    let sp = match setup_params_from_json(&sp_data) {
        Ok(v) => v,
        Err(e) => {
            return Err(e);
        },
    };
    let scfg = match store_cfg_from_json(&scfg_data) {
        Ok(v) => v,
        Err(e) => {
            return Err(e);
        },
    };
    let rid = match replica_id_from_json(&rid_data) {
        Ok(v) => v,
        Err(e) => {
            return Err(e);
        },
    };
    setup_inner(src_path, sp, scfg, rid)
}

/// Starts the prove operation: validates every foreign string in order,
/// restores the typed parameters, and opens the prove flow for the single
/// partition.  The returned path is where the application must write the
/// proof that the flow's final action delivers.
pub fn porep_prove(
    replica_path: Vec<u8>,
    sp_data: Vec<u8>,
    rid_data: Vec<u8>,
    chal_data: Vec<u8>,
    proof_path: Vec<u8>,
) -> (r: WrapResult<(ProveFlow, Action, Vec<u8>)>)
    ensures
        r matches Ok(p) ==> {
            &&& p.0.inv()
            &&& p.0.state == crate::vanilla::ProveState::LoadTau
            &&& p.0.replica_path@ == replica_path@
            &&& sp_data@ == enc_setup_params(p.0.sp)
            &&& rid_data@ == enc_replica_id(p.0.replica_id)
            &&& chal_data@ == enc_bytes32(p.0.seed@)
            &&& p.0.k == 0
            &&& p.0.partitions == 1
            &&& p.2@ == proof_path@
            &&& (p.1 matches Action::ReadFile { path } && path@ == p.0.param_path(
                crate::util::ext_p_tau(),
            ))
        },
        r matches Err(e) ==> match e.kind {
            ErrorKind::Encoding => !(valid_utf8(replica_path@) && valid_utf8(sp_data@)
                && valid_utf8(rid_data@) && valid_utf8(chal_data@) && valid_utf8(proof_path@)),
            ErrorKind::Codec => no_sp_in(sp_data@) || no_rid_in(rid_data@) || no_seed_in(
                chal_data@,
            ),
            ErrorKind::Io => !crate::util::valid_base(crate::util::base_name_of(replica_path@)),
            _ => false,
        },
{
    if !utf8_check(&replica_path) || !utf8_check(&sp_data) || !utf8_check(&rid_data)
        || !utf8_check(&chal_data) || !utf8_check(&proof_path) {
        return Err(crate::error::err_encoding());
    }
    let sp = match setup_params_from_json(&sp_data) {
        Ok(v) => v,
        Err(e) => {
            return Err(e);
        },
    };
    let rid = match replica_id_from_json(&rid_data) {
        Ok(v) => v,
        Err(e) => {
            return Err(e);
        },
    };
    let chal = match chal_seed_from_json(&chal_data) {
        Ok(v) => v,
        Err(e) => {
            return Err(e);
        },
    };
    match prove_inner(replica_path, sp, rid, chal, 0, 1) {
        Ok((flow, action)) => Ok((flow, action, proof_path)),
        Err(e) => Err(e),
    }
}

/// The validated inputs of one verify operation, ready for the proof text.
#[derive(Debug)]
pub struct VerifyRequest {
    pub replica_path: Vec<u8>,
    pub sp: SetupParams,
    pub replica_id: ReplicaId,
    pub seed: Vec<u8>,
}

impl VerifyRequest {
    pub open spec fn wf(&self) -> bool {
        self.sp.wf() && self.replica_id.wf() && self.seed@.len() == 32
    }
}

/// Starts the verify operation: validates every foreign string in order
/// and restores the typed parameters.  The returned path is where the
/// application must read the proof text before opening the flow with
/// `verify_with_proof`.
pub fn porep_verify(
    replica_path: Vec<u8>,
    sp_data: Vec<u8>,
    rid_data: Vec<u8>,
    chal_data: Vec<u8>,
    proof_path: Vec<u8>,
) -> (r: WrapResult<(VerifyRequest, Vec<u8>)>)
    ensures
        r matches Ok(p) ==> {
            &&& p.0.wf()
            &&& p.0.replica_path@ == replica_path@
            &&& sp_data@ == enc_setup_params(p.0.sp)
            &&& rid_data@ == enc_replica_id(p.0.replica_id)
            &&& chal_data@ == enc_bytes32(p.0.seed@)
            &&& p.1@ == proof_path@
            &&& crate::util::valid_base(crate::util::base_name_of(replica_path@))
        },
        r matches Err(e) ==> match e.kind {
            ErrorKind::Encoding => !(valid_utf8(replica_path@) && valid_utf8(sp_data@)
                && valid_utf8(rid_data@) && valid_utf8(chal_data@) && valid_utf8(proof_path@)),
            ErrorKind::Codec => no_sp_in(sp_data@) || no_rid_in(rid_data@) || no_seed_in(
                chal_data@,
            ),
            ErrorKind::Io => !crate::util::valid_base(crate::util::base_name_of(replica_path@)),
            _ => false,
        },
{
    if !utf8_check(&replica_path) || !utf8_check(&sp_data) || !utf8_check(&rid_data)
        || !utf8_check(&chal_data) || !utf8_check(&proof_path) {
        return Err(crate::error::err_encoding());
    }
    let sp = match setup_params_from_json(&sp_data) {
        Ok(v) => v,
        Err(e) => {
            return Err(e);
        },
    };
    let rid = match replica_id_from_json(&rid_data) {
        Ok(v) => v,
        Err(e) => {
            return Err(e);
        },
    };
    let chal = match chal_seed_from_json(&chal_data) {
        Ok(v) => v,
        Err(e) => {
            return Err(e);
        },
    };
    let e = crate::util::mk_ext_p_tau();
    match crate::util::target_param_file_name(&replica_path, &e) {
        Ok(_) => {},
        Err(err) => {
            return Err(err);
        },
    }
    Ok((VerifyRequest { replica_path, sp, replica_id: rid, seed: chal }, proof_path))
}

/// Opens the verify flow once the application has read the proof text.
/// The request's shape is rechecked here, so the call needs nothing of its
/// caller.
pub fn verify_with_proof(req: VerifyRequest, proof_text: Vec<u8>) -> (r: WrapResult<
    (VerifyFlow, Action),
>)
    ensures
        r matches Ok(p) ==> {
            &&& p.0.inv()
            &&& p.0.state == crate::vanilla::VerifyState::LoadTau
            &&& p.0.replica_path@ == req.replica_path@
            &&& crate::params::sp_eq(p.0.sp, req.sp)
            &&& crate::params::rid_eq(p.0.replica_id, req.replica_id)
            &&& p.0.seed@ == req.seed@
            &&& p.0.k == 0
            &&& p.0.proof_text == Some(proof_text)
            &&& (p.1 matches Action::ReadFile { path } && path@ == p.0.param_path(
                crate::util::ext_p_tau(),
            ))
        },
        r matches Err(e) ==> e.kind == ErrorKind::Io && !crate::util::valid_base(
            crate::util::base_name_of(req.replica_path@),
        ) || e.kind == ErrorKind::Other && !req.wf(),
{
    if req.sp.porep_id.len() != 32 || req.replica_id.limbs.len() != 4 || req.seed.len() != 32 {
        return Err(crate::error::err_bad_request());
    }
    verify_inner(req.replica_path, req.sp, req.replica_id, req.seed, 0, proof_text)
}

} // verus!
