//! The workflow orchestrator: setup, prove, and verify as explicit state
//! machines.
//!
//! Every operation alternates decisions with outside work (file reads and
//! writes, calls into the proving engine) that only the embedding
//! application can perform.  A flow hands the application one `Action` at a
//! time; the application performs it and hands back an `Event`.  All
//! sequencing, path derivation, codec work, and error classification happen
//! here, verified; the application's part is reduced to carrying actions
//! out.

use vstd::prelude::*;

use crate::error::{Error, ErrorKind, WrapResult};
use crate::json::copy_bytes;
use crate::params::{
    enc_p_tau, enc_setup_params, p_tau_from_json, rid_eq, setup_params_into_json, sp_eq,
    tau_eq, PersistentTau, ReplicaId, SetupParams, Tau,
};
use crate::store::{
    enc_p_aux, enc_store_config, enc_t_aux, p_aux_from_json, p_aux_wf_check, paux_eq, sc_eq,
    t_aux_from_json, t_aux_wf_check, taux_eq, PersistentAux, StoreConfig, TemporaryAux,
};
use crate::util::{
    base_name_of, ext_p_aux, ext_p_sp, ext_p_tau, ext_replica, ext_replica_id, ext_store_conf,
    ext_t_aux, le_bytes_of_limbs, lemma_target_base, mk_ext_p_aux, mk_ext_p_sp, mk_ext_p_tau,
    mk_ext_replica, mk_ext_replica_id, mk_ext_store_conf, mk_ext_t_aux, replica_id_to_bytes,
    spec_target_file_name, spec_target_param_file_name, target_file_name, target_param_file_name,
    valid_base,
};

verus! {

/// One piece of outside work that the application must perform for a flow.
#[derive(Debug)]
pub enum Action {
    /// Write `bytes` to the file at `path`, creating or truncating it.
    WriteFile { path: Vec<u8>, bytes: Vec<u8> },
    /// Read the whole file at `path`.
    ReadFile { path: Vec<u8> },
    /// Copy the source file at `src` into a new file at `dest` and map it
    /// as the mutable replica buffer.
    CreateReplica { src: Vec<u8>, dest: Vec<u8> },
    /// Derive the engine's public parameters from the setup parameters.
    EngineSetup { sp: SetupParams },
    /// Run the engine's replication over the mapped replica buffer.
    EngineReplicate { replica_id: ReplicaId, scfg: StoreConfig, replica_path: Vec<u8> },
    /// Run the engine's prover for all partitions.
    EngineProve {
        sp: SetupParams,
        replica_id: ReplicaId,
        seed: Vec<u8>,
        tau: Tau,
        p_aux: PersistentAux,
        t_aux: TemporaryAux,
        replica_path: Vec<u8>,
        k: u64,
        partitions: u64,
    },
    /// Run the engine's verifier.
    EngineVerify {
        sp: SetupParams,
        replica_id: ReplicaId,
        seed: Vec<u8>,
        tau: Tau,
        proof_text: Vec<u8>,
        k: u64,
    },
    /// The flow finished; `payload` is its result.
    Done { payload: Vec<u8> },
    /// The flow finished with a negative verification verdict.
    Rejected,
    /// The flow failed.
    Fail { error: Error },
}

/// What came back from the last action.
#[derive(Debug)]
pub enum Event {
    /// The action completed with nothing to return.
    Completed,
    /// The file's contents.
    Bytes { bytes: Vec<u8> },
    /// The outputs of the engine's replication.
    Replicated { tau: Tau, p_aux: PersistentAux, t_aux: TemporaryAux },
    /// The serialized proof produced by the engine's prover.
    ProofText { bytes: Vec<u8> },
    /// The engine's verification verdict.
    Verified { pass: bool },
    /// The action failed; `msg` is the performer's diagnostic text.
    Failed { msg: Vec<u8> },
}

// ------------------------------------------------------------------
// Setup
// ------------------------------------------------------------------

/// Where a setup flow stands: which artifact write or engine call it is
/// waiting on.
#[derive(Clone, Copy, PartialEq, Eq, Structural, Debug)]
pub enum SetupState {
    WriteStoreConf,
    WriteSetupParams,
    WriteReplicaId,
    AwaitEngineSetup,
    AwaitReplicaFile,
    AwaitReplicate,
    WriteTau,
    WritePAux,
    WriteTAux,
    Finished,
    Failed,
}

/// The setup operation: persists the inputs, drives the engine through
/// setup and replication, and persists the outputs.
#[derive(Debug)]
pub struct SetupFlow {
    pub state: SetupState,
    pub src_path: Vec<u8>,
    pub replica_path: Vec<u8>,
    pub sp: SetupParams,
    pub scfg: StoreConfig,
    pub replica_id: ReplicaId,
    pub p_aux: Option<PersistentAux>,
    pub t_aux: Option<TemporaryAux>,
}

impl SetupFlow {
    /// The data carried by the flow is well formed and the replica path is
    /// the canonical artifact path of the source under the store
    /// directory.
    pub open spec fn inv(&self) -> bool {
        &&& self.sp.wf()
        &&& self.scfg.wf()
        &&& self.replica_id.wf()
        &&& valid_base(base_name_of(self.replica_path@))
        &&& self.replica_path@ == spec_target_file_name(
            self.src_path@,
            self.scfg.path@,
            ext_replica(),
        )
        &&& (self.state == SetupState::WriteTau || self.state == SetupState::WritePAux
            ==> self.p_aux is Some && self.p_aux->0.wf())
        &&& (self.state == SetupState::WriteTau || self.state == SetupState::WritePAux
            || self.state == SetupState::WriteTAux ==> self.t_aux is Some && self.t_aux->0.wf())
    }

    /// The canonical path of the parameter artifact with extension `ext`.
    pub open spec fn param_path(&self, ext: Seq<u8>) -> Seq<u8> {
        spec_target_param_file_name(self.replica_path@, ext)
    }
}

/// Starts a setup flow: derives the replica path and issues the first
/// persistence step.  Fails exactly when no usable file name can be
/// derived from the source path.
pub fn setup_inner(src_path: Vec<u8>, sp: SetupParams, scfg: StoreConfig, replica_id: ReplicaId)
    -> (r: WrapResult<(SetupFlow, Action)>)
    requires
        sp.wf(),
        scfg.wf(),
        replica_id.wf(),
    ensures
        r matches Ok(p) ==> {
            &&& p.0.inv()
            &&& p.0.state == SetupState::WriteStoreConf
            &&& p.0.src_path@ == src_path@
            &&& p.0.sp == sp
            &&& p.0.scfg == scfg
            &&& p.0.replica_id == replica_id
            &&& (p.1 matches Action::WriteFile { path, bytes } && path@ == p.0.param_path(
                ext_store_conf(),
            ) && bytes@ == enc_store_config(scfg))
        },
        r is Ok <==> valid_base(base_name_of(src_path@)),
        r matches Err(e) ==> e.kind == ErrorKind::Io,
{
    let er = mk_ext_replica();
    let replica_path = match target_file_name(&src_path, &scfg.path, &er) {
        Ok(p) => p,
        Err(e) => {
            return Err(e);
        },
    };
    proof {
        lemma_target_base(src_path@, scfg.path@, ext_replica());
    }
    let esc = mk_ext_store_conf();
    let sc_path = match target_param_file_name(&replica_path, &esc) {
        Ok(p) => p,
        Err(e) => {
            proof {
                assert(false);
            }
            return Err(e);
        },
    };
    let bytes = scfg.into_json();
    let flow = SetupFlow {
        state: SetupState::WriteStoreConf,
        src_path,
        replica_path,
        sp,
        scfg,
        replica_id,
        p_aux: None,
        t_aux: None,
    };
    Ok((flow, Action::WriteFile { path: sc_path, bytes }))
}

impl SetupFlow {
    /// Advances the flow on the outcome of the last action.
    ///
    /// A failed write or read is reported as an `Io` failure and a failed
    /// engine step as an `Engine` failure.  The engine is only invoked
    /// after the three input artifacts were persisted, and the flow only
    /// finishes after the three output artifacts were persisted; on
    /// success the payload is the replica path.
    pub fn step(&mut self, event: Event) -> (a: Action)
        requires
            old(self).inv(),
            old(self).state != SetupState::Finished,
            old(self).state != SetupState::Failed,
        ensures
            final(self).inv(),
            final(self).replica_path@ == old(self).replica_path@,
            event matches Event::Failed { msg } ==> ({
                &&& final(self).state == SetupState::Failed
                &&& (a matches Action::Fail { error } && error.msg@ == msg@ && (match old(
                    self,
                ).state {
                    SetupState::AwaitEngineSetup => error.kind == ErrorKind::Engine,
                    SetupState::AwaitReplicate => error.kind == ErrorKind::Engine,
                    _ => error.kind == ErrorKind::Io,
                }))
            }),
            event is Completed ==> match old(self).state {
                SetupState::WriteStoreConf => ({
                    &&& final(self).state == SetupState::WriteSetupParams
                    &&& (a matches Action::WriteFile { path, bytes } && path@ == old(
                        self,
                    ).param_path(ext_p_sp()) && bytes@ == enc_setup_params(old(self).sp))
                }),
                SetupState::WriteSetupParams => ({
                    &&& final(self).state == SetupState::WriteReplicaId
                    &&& (a matches Action::WriteFile { path, bytes } && path@ == old(
                        self,
                    ).param_path(ext_replica_id()) && bytes@ == le_bytes_of_limbs(
                        old(self).replica_id.limbs@,
                    ))
                }),
                SetupState::WriteReplicaId => ({
                    &&& final(self).state == SetupState::AwaitEngineSetup
                    &&& (a matches Action::EngineSetup { sp } && sp_eq(sp, old(self).sp))
                }),
                SetupState::AwaitEngineSetup => ({
                    &&& final(self).state == SetupState::AwaitReplicaFile
                    &&& (a matches Action::CreateReplica { src, dest } && src@ == old(
                        self,
                    ).src_path@ && dest@ == old(self).replica_path@)
                }),
                SetupState::AwaitReplicaFile => ({
                    &&& final(self).state == SetupState::AwaitReplicate
                    &&& (a matches Action::EngineReplicate { replica_id, scfg, replica_path }
                        && rid_eq(replica_id, old(self).replica_id) && sc_eq(
                        scfg,
                        old(self).scfg,
                    ) && replica_path@ == old(self).replica_path@)
                }),
                SetupState::WriteTau => ({
                    &&& final(self).state == SetupState::WritePAux
                    &&& (a matches Action::WriteFile { path, bytes } && path@ == old(
                        self,
                    ).param_path(ext_p_aux()) && bytes@ == enc_p_aux(old(self).p_aux->0))
                }),
                SetupState::WritePAux => ({
                    &&& final(self).state == SetupState::WriteTAux
                    &&& (a matches Action::WriteFile { path, bytes } && path@ == old(
                        self,
                    ).param_path(ext_t_aux()) && bytes@ == enc_t_aux(old(self).t_aux->0))
                }),
                SetupState::WriteTAux => ({
                    &&& final(self).state == SetupState::Finished
                    &&& (a matches Action::Done { payload } && payload@ == old(
                        self,
                    ).replica_path@)
                }),
                _ => final(self).state == SetupState::Failed,
            },
            event matches Event::Replicated { tau, p_aux, t_aux } ==> (old(self).state
                == SetupState::AwaitReplicate && p_aux.wf() && t_aux.wf() ==> final(self).state
                == SetupState::WriteTau && final(self).p_aux == Some(p_aux) && final(self).t_aux
                == Some(t_aux) && (a matches Action::WriteFile { path, bytes } && path@ == old(
                self,
            ).param_path(ext_p_tau()) && bytes@ == enc_p_tau(
                PersistentTau { comm_d: tau.comm_d, comm_r: tau.comm_r },
            ))),
            event matches Event::Replicated { tau, p_aux, t_aux } ==> (old(self).state
                == SetupState::AwaitReplicate && !(p_aux.wf() && t_aux.wf())
                ==> final(self).state == SetupState::Failed && (a matches Action::Fail { error }
                && error.kind == ErrorKind::Engine)),
    {
        match event {
            Event::Failed { msg } => {
                let kind = match self.state {
                    SetupState::AwaitEngineSetup => ErrorKind::Engine,
                    SetupState::AwaitReplicate => ErrorKind::Engine,
                    _ => ErrorKind::Io,
                };
                self.state = SetupState::Failed;
                Action::Fail { error: Error::new(kind, msg) }
            },
            Event::Completed => {
                match self.state {
                    SetupState::WriteStoreConf => {
                        let e = mk_ext_p_sp();
                        match target_param_file_name(&self.replica_path, &e) {
                            Ok(path) => {
                                let bytes = setup_params_into_json(&self.sp);
                                self.state = SetupState::WriteSetupParams;
                                Action::WriteFile { path, bytes }
                            },
                            Err(err) => {
                                proof {
                                    assert(false);
                                }
                                self.state = SetupState::Failed;
                                Action::Fail { error: err }
                            },
                        }
                    },
                    SetupState::WriteSetupParams => {
                        let e = mk_ext_replica_id();
                        match target_param_file_name(&self.replica_path, &e) {
                            Ok(path) => {
                                let bytes = replica_id_to_bytes(&self.replica_id);
                                self.state = SetupState::WriteReplicaId;
                                Action::WriteFile { path, bytes }
                            },
                            Err(err) => {
                                proof {
                                    assert(false);
                                }
                                self.state = SetupState::Failed;
                                Action::Fail { error: err }
                            },
                        }
                    },
                    SetupState::WriteReplicaId => {
                        self.state = SetupState::AwaitEngineSetup;
                        Action::EngineSetup { sp: self.sp.duplicate() }
                    },
                    SetupState::AwaitEngineSetup => {
                        self.state = SetupState::AwaitReplicaFile;
                        Action::CreateReplica {
                            src: copy_bytes(&self.src_path),
                            dest: copy_bytes(&self.replica_path),
                        }
                    },
                    SetupState::AwaitReplicaFile => {
                        self.state = SetupState::AwaitReplicate;
                        Action::EngineReplicate {
                            replica_id: self.replica_id.duplicate(),
                            scfg: self.scfg.duplicate(),
                            replica_path: copy_bytes(&self.replica_path),
                        }
                    },
                    SetupState::WriteTau => {
                        let e = mk_ext_p_aux();
                        match target_param_file_name(&self.replica_path, &e) {
                            Ok(path) => {
                                let bytes = match &self.p_aux {
                                    Some(p) => p.into_json(),
                                    None => {
                                        proof {
                                            assert(false);
                                        }
                                        Vec::new()
                                    },
                                };
                                self.state = SetupState::WritePAux;
                                Action::WriteFile { path, bytes }
                            },
                            Err(err) => {
                                proof {
                                    assert(false);
                                }
                                self.state = SetupState::Failed;
                                Action::Fail { error: err }
                            },
                        }
                    },
                    SetupState::WritePAux => {
                        let e = mk_ext_t_aux();
                        match target_param_file_name(&self.replica_path, &e) {
                            Ok(path) => {
                                let bytes = match &self.t_aux {
                                    Some(t) => t.into_json(),
                                    None => {
                                        proof {
                                            assert(false);
                                        }
                                        Vec::new()
                                    },
                                };
                                self.state = SetupState::WriteTAux;
                                Action::WriteFile { path, bytes }
                            },
                            Err(err) => {
                                proof {
                                    assert(false);
                                }
                                self.state = SetupState::Failed;
                                Action::Fail { error: err }
                            },
                        }
                    },
                    SetupState::WriteTAux => {
                        self.state = SetupState::Finished;
                        Action::Done { payload: copy_bytes(&self.replica_path) }
                    },
                    _ => {
                        self.state = SetupState::Failed;
                        Action::Fail { error: crate::error::err_unexpected() }
                    },
                }
            },
            Event::Replicated { tau, p_aux, t_aux } => {
                match self.state {
                    SetupState::AwaitReplicate => {
                        if !p_aux_wf_check(&p_aux) || !t_aux_wf_check(&t_aux) {
                            self.state = SetupState::Failed;
                            return Action::Fail { error: crate::error::err_bad_digest() };
                        }
                        let e = mk_ext_p_tau();
                        match target_param_file_name(&self.replica_path, &e) {
                            Ok(path) => {
                                let p_tau = PersistentTau { comm_d: tau.comm_d, comm_r: tau.comm_r };
                                let bytes = p_tau.into_json();
                                self.p_aux = Some(p_aux);
                                self.t_aux = Some(t_aux);
                                self.state = SetupState::WriteTau;
                                Action::WriteFile { path, bytes }
                            },
                            Err(err) => {
                                proof {
                                    assert(false);
                                }
                                self.state = SetupState::Failed;
                                Action::Fail { error: err }
                            },
                        }
                    },
                    _ => {
                        self.state = SetupState::Failed;
                        Action::Fail { error: crate::error::err_unexpected() }
                    },
                }
            },
            _ => {
                self.state = SetupState::Failed;
                Action::Fail { error: crate::error::err_unexpected() }
            },
        }
    }
}


// ------------------------------------------------------------------
// Prove
// ------------------------------------------------------------------

/// The commitments decoded from artifact text.
pub open spec fn tau_decodes_to(b: Seq<u8>, t: Tau) -> bool {
    exists|pt: PersistentTau|
        b == enc_p_tau(pt) && pt.comm_d@ == t.comm_d@ && pt.comm_r@ == t.comm_r@
}

/// No commitment record at all is encoded in `b`.
pub open spec fn no_tau_in(b: Seq<u8>) -> bool {
    forall|pt: PersistentTau| b != enc_p_tau(pt)
}

/// A commitment record is encoded in `b`, but with digests of the wrong
/// width.
pub open spec fn bad_tau_in(b: Seq<u8>) -> bool {
    exists|pt: PersistentTau|
        b == enc_p_tau(pt) && !(pt.comm_d@.len() == 32 && pt.comm_r@.len() == 32)
}

/// No well-formed temporary auxiliary record is encoded in `b`.
pub open spec fn no_t_aux_in(b: Seq<u8>) -> bool {
    forall|x: TemporaryAux| x.wf() ==> b != enc_t_aux(x)
}

/// No well-formed auxiliary-commitment record is encoded in `b`.
pub open spec fn no_p_aux_in(b: Seq<u8>) -> bool {
    forall|x: PersistentAux| x.wf() ==> b != enc_p_aux(x)
}

/// Where a prove flow stands: which artifact it is loading, or the engine
/// call it is waiting on.
#[derive(Clone, Copy, PartialEq, Eq, Structural, Debug)]
pub enum ProveState {
    LoadTau,
    LoadTAux,
    LoadPAux,
    AwaitProve,
    Finished,
    Failed,
}

/// The prove operation: reloads the persisted artifacts, assembles the
/// engine's inputs, and runs the prover.  A missing or unreadable artifact
/// is fatal, never worked around.
#[derive(Debug)]
pub struct ProveFlow {
    pub state: ProveState,
    pub replica_path: Vec<u8>,
    pub sp: SetupParams,
    pub replica_id: ReplicaId,
    pub seed: Vec<u8>,
    pub k: u64,
    pub partitions: u64,
    pub tau: Option<Tau>,
    pub t_aux: Option<TemporaryAux>,
}

impl ProveFlow {
    pub open spec fn inv(&self) -> bool {
        &&& self.sp.wf()
        &&& self.replica_id.wf()
        &&& self.seed@.len() == 32
        &&& valid_base(base_name_of(self.replica_path@))
        &&& (self.state == ProveState::LoadTAux || self.state == ProveState::LoadPAux
            ==> self.tau is Some && self.tau->0.wf())
        &&& (self.state == ProveState::LoadPAux ==> self.t_aux is Some && self.t_aux->0.wf())
    }

    /// The canonical path of the parameter artifact with extension `ext`.
    pub open spec fn param_path(&self, ext: Seq<u8>) -> Seq<u8> {
        spec_target_param_file_name(self.replica_path@, ext)
    }
}

/// Starts a prove flow for a replica that setup produced earlier: the first
/// step reloads the persisted commitments.  Fails exactly when no usable
/// file name can be derived from the replica path.
pub fn prove_inner(
    replica_path: Vec<u8>,
    sp: SetupParams,
    replica_id: ReplicaId,
    chal_seed: Vec<u8>,
    k: u64,
    partitions: u64,
) -> (r: WrapResult<(ProveFlow, Action)>)
    requires
        sp.wf(),
        replica_id.wf(),
        chal_seed@.len() == 32,
    ensures
        r matches Ok(p) ==> {
            &&& p.0.inv()
            &&& p.0.state == ProveState::LoadTau
            &&& p.0.replica_path@ == replica_path@
            &&& sp_eq(p.0.sp, sp)
            &&& rid_eq(p.0.replica_id, replica_id)
            &&& p.0.seed@ == chal_seed@
            &&& p.0.k == k
            &&& p.0.partitions == partitions
            &&& (p.1 matches Action::ReadFile { path } && path@ == p.0.param_path(ext_p_tau()))
        },
        r is Ok <==> valid_base(base_name_of(replica_path@)),
        r matches Err(e) ==> e.kind == ErrorKind::Io,
{
    let e = mk_ext_p_tau();
    let tau_path = match target_param_file_name(&replica_path, &e) {
        Ok(p) => p,
        Err(err) => {
            return Err(err);
        },
    };
    let flow = ProveFlow {
        state: ProveState::LoadTau,
        replica_path,
        sp,
        replica_id,
        seed: chal_seed,
        k,
        partitions,
        tau: None,
        t_aux: None,
    };
    Ok((flow, Action::ReadFile { path: tau_path }))
}

impl ProveFlow {
    /// Advances the flow on the outcome of the last action.
    ///
    /// A missing or unreadable artifact fails the flow with an `Io` error
    /// before the engine is ever involved; malformed artifact text fails it
    /// with a `Codec` error; digests of the wrong width with an `Engine`
    /// error.  The prover is only invoked once all three artifacts were
    /// reloaded, and on success the payload is the serialized proof.
    pub fn step(&mut self, event: Event) -> (a: Action)
        requires
            old(self).inv(),
            old(self).state != ProveState::Finished,
            old(self).state != ProveState::Failed,
        ensures
            final(self).inv(),
            final(self).replica_path@ == old(self).replica_path@,
            event matches Event::Failed { msg } ==> ({
                &&& final(self).state == ProveState::Failed
                &&& (a matches Action::Fail { error } && error.msg@ == msg@ && (match old(
                    self,
                ).state {
                    ProveState::AwaitProve => error.kind == ErrorKind::Engine,
                    _ => error.kind == ErrorKind::Io,
                }))
            }),
            event matches Event::Bytes { bytes } ==> match old(self).state {
                ProveState::LoadTau => match a {
                    Action::ReadFile { path } => ({
                        &&& final(self).state == ProveState::LoadTAux
                        &&& path@ == old(self).param_path(ext_t_aux())
                        &&& final(self).tau is Some
                        &&& tau_decodes_to(bytes@, final(self).tau->0)
                    }),
                    Action::Fail { error } => ({
                        &&& final(self).state == ProveState::Failed
                        &&& (error.kind == ErrorKind::Codec && no_tau_in(bytes@) || error.kind
                            == ErrorKind::Engine && bad_tau_in(bytes@))
                    }),
                    _ => false,
                },
                ProveState::LoadTAux => match a {
                    Action::ReadFile { path } => ({
                        &&& final(self).state == ProveState::LoadPAux
                        &&& path@ == old(self).param_path(ext_p_aux())
                        &&& final(self).t_aux is Some
                        &&& bytes@ == enc_t_aux(final(self).t_aux->0)
                        &&& final(self).tau == old(self).tau
                    }),
                    Action::Fail { error } => ({
                        &&& final(self).state == ProveState::Failed
                        &&& error.kind == ErrorKind::Codec
                        &&& no_t_aux_in(bytes@)
                    }),
                    _ => false,
                },
                ProveState::LoadPAux => match a {
                    Action::EngineProve {
                        sp,
                        replica_id,
                        seed,
                        tau,
                        p_aux,
                        t_aux,
                        replica_path,
                        k,
                        partitions,
                    } => ({
                        &&& final(self).state == ProveState::AwaitProve
                        &&& sp_eq(sp, old(self).sp)
                        &&& rid_eq(replica_id, old(self).replica_id)
                        &&& seed@ == old(self).seed@
                        &&& tau == old(self).tau->0
                        &&& p_aux.wf() && bytes@ == enc_p_aux(p_aux)
                        &&& t_aux == old(self).t_aux->0
                        &&& replica_path@ == old(self).replica_path@
                        &&& k == old(self).k
                        &&& partitions == old(self).partitions
                    }),
                    Action::Fail { error } => ({
                        &&& final(self).state == ProveState::Failed
                        &&& error.kind == ErrorKind::Codec
                        &&& no_p_aux_in(bytes@)
                    }),
                    _ => false,
                },
                _ => final(self).state == ProveState::Failed,
            },
            event matches Event::ProofText { bytes } ==> match old(self).state {
                ProveState::AwaitProve => ({
                    &&& final(self).state == ProveState::Finished
                    &&& (a matches Action::Done { payload } && payload@ == bytes@)
                }),
                _ => final(self).state == ProveState::Failed,
            },
            event is Completed || event is Replicated || event is Verified ==> final(self).state
                == ProveState::Failed,
    {
        match event {
            Event::Failed { msg } => {
                let kind = match self.state {
                    ProveState::AwaitProve => ErrorKind::Engine,
                    _ => ErrorKind::Io,
                };
                self.state = ProveState::Failed;
                Action::Fail { error: Error::new(kind, msg) }
            },
            Event::Bytes { bytes } => {
                match self.state {
                    ProveState::LoadTau => {
                        let p_tau = match p_tau_from_json(&bytes) {
                            Ok(pt) => pt,
                            Err(err) => {
                                self.state = ProveState::Failed;
                                return Action::Fail { error: err };
                            },
                        };
                        let tau = match p_tau.as_tau() {
                            Ok(t) => t,
                            Err(err) => {
                                proof {
                                    assert(bad_tau_in(bytes@)) by {
                                        assert(bytes@ == enc_p_tau(p_tau) && !(p_tau.comm_d@.len()
                                            == 32 && p_tau.comm_r@.len() == 32));
                                    }
                                }
                                self.state = ProveState::Failed;
                                return Action::Fail { error: err };
                            },
                        };
                        let e = mk_ext_t_aux();
                        match target_param_file_name(&self.replica_path, &e) {
                            Ok(path) => {
                                self.tau = Some(tau);
                                self.state = ProveState::LoadTAux;
                                Action::ReadFile { path }
                            },
                            Err(err) => {
                                proof {
                                    assert(false);
                                }
                                self.state = ProveState::Failed;
                                Action::Fail { error: err }
                            },
                        }
                    },
                    ProveState::LoadTAux => {
                        let t_aux = match t_aux_from_json(&bytes) {
                            Ok(t) => t,
                            Err(err) => {
                                self.state = ProveState::Failed;
                                return Action::Fail { error: err };
                            },
                        };
                        let e = mk_ext_p_aux();
                        match target_param_file_name(&self.replica_path, &e) {
                            Ok(path) => {
                                self.t_aux = Some(t_aux);
                                self.state = ProveState::LoadPAux;
                                Action::ReadFile { path }
                            },
                            Err(err) => {
                                proof {
                                    assert(false);
                                }
                                self.state = ProveState::Failed;
                                Action::Fail { error: err }
                            },
                        }
                    },
                    ProveState::LoadPAux => {
                        let p_aux = match p_aux_from_json(&bytes) {
                            Ok(p) => p,
                            Err(err) => {
                                self.state = ProveState::Failed;
                                return Action::Fail { error: err };
                            },
                        };
                        let tau = match self.tau.take() {
                            Some(t) => t,
                            None => {
                                proof {
                                    assert(false);
                                }
                                self.state = ProveState::Failed;
                                return Action::Fail { error: crate::error::err_unexpected() };
                            },
                        };
                        let t_aux = match self.t_aux.take() {
                            Some(t) => t,
                            None => {
                                proof {
                                    assert(false);
                                }
                                self.state = ProveState::Failed;
                                return Action::Fail { error: crate::error::err_unexpected() };
                            },
                        };
                        self.state = ProveState::AwaitProve;
                        Action::EngineProve {
                            sp: self.sp.duplicate(),
                            replica_id: self.replica_id.duplicate(),
                            seed: copy_bytes(&self.seed),
                            tau,
                            p_aux,
                            t_aux,
                            replica_path: copy_bytes(&self.replica_path),
                            k: self.k,
                            partitions: self.partitions,
                        }
                    },
                    _ => {
                        self.state = ProveState::Failed;
                        Action::Fail { error: crate::error::err_unexpected() }
                    },
                }
            },
            Event::ProofText { bytes } => {
                match self.state {
                    ProveState::AwaitProve => {
                        self.state = ProveState::Finished;
                        Action::Done { payload: bytes }
                    },
                    _ => {
                        self.state = ProveState::Failed;
                        Action::Fail { error: crate::error::err_unexpected() }
                    },
                }
            },
            _ => {
                self.state = ProveState::Failed;
                Action::Fail { error: crate::error::err_unexpected() }
            },
        }
    }
}

// ------------------------------------------------------------------
// Verify
// ------------------------------------------------------------------

/// Where a verify flow stands.
#[derive(Clone, Copy, PartialEq, Eq, Structural, Debug)]
pub enum VerifyState {
    LoadTau,
    AwaitVerify,
    Finished,
    Failed,
}

/// The verify operation: reloads the persisted commitments, assembles the
/// public inputs, and asks the engine for a verdict.  A negative verdict
/// is a normal outcome, distinct from a failure.
#[derive(Debug)]
pub struct VerifyFlow {
    pub state: VerifyState,
    pub replica_path: Vec<u8>,
    pub sp: SetupParams,
    pub replica_id: ReplicaId,
    pub seed: Vec<u8>,
    pub k: u64,
    pub proof_text: Option<Vec<u8>>,
}

impl VerifyFlow {
    pub open spec fn inv(&self) -> bool {
        &&& self.sp.wf()
        &&& self.replica_id.wf()
        &&& self.seed@.len() == 32
        &&& valid_base(base_name_of(self.replica_path@))
        &&& (self.state == VerifyState::LoadTau ==> self.proof_text is Some)
    }

    /// The canonical path of the parameter artifact with extension `ext`.
    pub open spec fn param_path(&self, ext: Seq<u8>) -> Seq<u8> {
        spec_target_param_file_name(self.replica_path@, ext)
    }
}

/// Starts a verify flow: the first step reloads the persisted commitments.
/// Fails exactly when no usable file name can be derived from the replica
/// path.
pub fn verify_inner(
    replica_path: Vec<u8>,
    sp: SetupParams,
    replica_id: ReplicaId,
    chal_seed: Vec<u8>,
    k: u64,
    proof_text: Vec<u8>,
) -> (r: WrapResult<(VerifyFlow, Action)>)
    requires
        sp.wf(),
        replica_id.wf(),
        chal_seed@.len() == 32,
    ensures
        r matches Ok(p) ==> {
            &&& p.0.inv()
            &&& p.0.state == VerifyState::LoadTau
            &&& p.0.replica_path@ == replica_path@
            &&& sp_eq(p.0.sp, sp)
            &&& rid_eq(p.0.replica_id, replica_id)
            &&& p.0.seed@ == chal_seed@
            &&& p.0.k == k
            &&& p.0.proof_text == Some(proof_text)
            &&& (p.1 matches Action::ReadFile { path } && path@ == p.0.param_path(ext_p_tau()))
        },
        r is Ok <==> valid_base(base_name_of(replica_path@)),
        r matches Err(e) ==> e.kind == ErrorKind::Io,
{
    let e = mk_ext_p_tau();
    let tau_path = match target_param_file_name(&replica_path, &e) {
        Ok(p) => p,
        Err(err) => {
            return Err(err);
        },
    };
    let flow = VerifyFlow {
        state: VerifyState::LoadTau,
        replica_path,
        sp,
        replica_id,
        seed: chal_seed,
        k,
        proof_text: Some(proof_text),
    };
    Ok((flow, Action::ReadFile { path: tau_path }))
}

impl VerifyFlow {
    /// Advances the flow on the outcome of the last action.
    ///
    /// A missing or unreadable artifact fails the flow with an `Io` error;
    /// malformed commitment text with a `Codec` error; an engine failure
    /// with an `Engine` error.  A negative verdict finishes the flow as
    /// `Rejected`, which is not a failure.
    pub fn step(&mut self, event: Event) -> (a: Action)
        requires
            old(self).inv(),
            old(self).state != VerifyState::Finished,
            old(self).state != VerifyState::Failed,
        ensures
            final(self).inv(),
            final(self).replica_path@ == old(self).replica_path@,
            event matches Event::Failed { msg } ==> ({
                &&& final(self).state == VerifyState::Failed
                &&& (a matches Action::Fail { error } && error.msg@ == msg@ && (match old(
                    self,
                ).state {
                    VerifyState::AwaitVerify => error.kind == ErrorKind::Engine,
                    _ => error.kind == ErrorKind::Io,
                }))
            }),
            event matches Event::Bytes { bytes } ==> match old(self).state {
                VerifyState::LoadTau => match a {
                    Action::EngineVerify { sp, replica_id, seed, tau, proof_text, k } => ({
                        &&& final(self).state == VerifyState::AwaitVerify
                        &&& sp_eq(sp, old(self).sp)
                        &&& rid_eq(replica_id, old(self).replica_id)
                        &&& seed@ == old(self).seed@
                        &&& tau_decodes_to(bytes@, tau)
                        &&& proof_text == old(self).proof_text->0
                        &&& k == old(self).k
                    }),
                    Action::Fail { error } => ({
                        &&& final(self).state == VerifyState::Failed
                        &&& (error.kind == ErrorKind::Codec && no_tau_in(bytes@) || error.kind
                            == ErrorKind::Engine && bad_tau_in(bytes@))
                    }),
                    _ => false,
                },
                _ => final(self).state == VerifyState::Failed,
            },
            event matches Event::Verified { pass } ==> match old(self).state {
                VerifyState::AwaitVerify => ({
                    &&& final(self).state == VerifyState::Finished
                    &&& (pass ==> (a matches Action::Done { payload } && payload@.len() == 0))
                    &&& (!pass ==> a is Rejected)
                }),
                _ => final(self).state == VerifyState::Failed,
            },
            event is Completed || event is Replicated || event is ProofText ==> final(self).state
                == VerifyState::Failed,
    {
        match event {
            Event::Failed { msg } => {
                let kind = match self.state {
                    VerifyState::AwaitVerify => ErrorKind::Engine,
                    _ => ErrorKind::Io,
                };
                self.state = VerifyState::Failed;
                Action::Fail { error: Error::new(kind, msg) }
            },
            Event::Bytes { bytes } => {
                match self.state {
                    VerifyState::LoadTau => {
                        let p_tau = match p_tau_from_json(&bytes) {
                            Ok(pt) => pt,
                            Err(err) => {
                                self.state = VerifyState::Failed;
                                return Action::Fail { error: err };
                            },
                        };
                        let tau = match p_tau.as_tau() {
                            Ok(t) => t,
                            Err(err) => {
                                proof {
                                    assert(bad_tau_in(bytes@)) by {
                                        assert(bytes@ == enc_p_tau(p_tau) && !(p_tau.comm_d@.len()
                                            == 32 && p_tau.comm_r@.len() == 32));
                                    }
                                }
                                self.state = VerifyState::Failed;
                                return Action::Fail { error: err };
                            },
                        };
                        let proof_text = match self.proof_text.take() {
                            Some(p) => p,
                            None => {
                                proof {
                                    assert(false);
                                }
                                self.state = VerifyState::Failed;
                                return Action::Fail { error: crate::error::err_unexpected() };
                            },
                        };
                        self.state = VerifyState::AwaitVerify;
                        Action::EngineVerify {
                            sp: self.sp.duplicate(),
                            replica_id: self.replica_id.duplicate(),
                            seed: copy_bytes(&self.seed),
                            tau,
                            proof_text,
                            k: self.k,
                        }
                    },
                    _ => {
                        self.state = VerifyState::Failed;
                        Action::Fail { error: crate::error::err_unexpected() }
                    },
                }
            },
            Event::Verified { pass } => {
                match self.state {
                    VerifyState::AwaitVerify => {
                        self.state = VerifyState::Finished;
                        if pass {
                            Action::Done { payload: Vec::new() }
                        } else {
                            Action::Rejected
                        }
                    },
                    _ => {
                        self.state = VerifyState::Failed;
                        Action::Fail { error: crate::error::err_unexpected() }
                    },
                }
            },
            _ => {
                self.state = VerifyState::Failed;
                Action::Fail { error: crate::error::err_unexpected() }
            },
        }
    }
}

} // verus!
