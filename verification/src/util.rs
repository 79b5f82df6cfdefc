//! The file layout manager: deterministic artifact paths, directory
//! lifecycle decisions, node counting, and the randomness source.
//!
//! Paths are handled as raw bytes.  The base name of a path is everything
//! after its last separator; the parent is everything up to and including
//! that separator.  Replacing an extension splits the base name at its last
//! dot, except a dot in the first position, which marks a hidden file and
//! is kept.

use vstd::prelude::*;

use crate::error::{Error, ErrorKind, WrapResult};

use rand::Rng;
use filecoin_hashers::Domain;

verus! {

/// Width in bytes of one data node; file sizes are measured in these units.
pub const NODE_SIZE: u64 = 32;

/// The bytes of `params`.
pub open spec fn params_dir_name() -> Seq<u8> {
    seq![112u8, 97u8, 114u8, 97u8, 109u8, 115u8]
}

/// Builds the bytes of `params`.
pub fn mk_params_dir_name() -> (r: Vec<u8>)
    ensures
        r@ == params_dir_name(),
{
    let v: Vec<u8> = vec![112, 97, 114, 97, 109, 115];
    proof {
        assert(v@ =~= params_dir_name());
    }
    v
}

/// The bytes of `replica`.
pub open spec fn ext_replica() -> Seq<u8> {
    seq![114u8, 101u8, 112u8, 108u8, 105u8, 99u8, 97u8]
}

/// Builds the bytes of `replica`.
pub fn mk_ext_replica() -> (r: Vec<u8>)
    ensures
        r@ == ext_replica(),
{
    let v: Vec<u8> = vec![114, 101, 112, 108, 105, 99, 97];
    proof {
        assert(v@ =~= ext_replica());
    }
    v
}

/// The bytes of `store_conf`.
pub open spec fn ext_store_conf() -> Seq<u8> {
    seq![115u8, 116u8, 111u8, 114u8, 101u8, 95u8, 99u8, 111u8, 110u8, 102u8]
}

/// Builds the bytes of `store_conf`.
pub fn mk_ext_store_conf() -> (r: Vec<u8>)
    ensures
        r@ == ext_store_conf(),
{
    let v: Vec<u8> = vec![115, 116, 111, 114, 101, 95, 99, 111, 110, 102];
    proof {
        assert(v@ =~= ext_store_conf());
    }
    v
}

/// The bytes of `p_sp`.
pub open spec fn ext_p_sp() -> Seq<u8> {
    seq![112u8, 95u8, 115u8, 112u8]
}

/// Builds the bytes of `p_sp`.
pub fn mk_ext_p_sp() -> (r: Vec<u8>)
    ensures
        r@ == ext_p_sp(),
{
    let v: Vec<u8> = vec![112, 95, 115, 112];
    proof {
        assert(v@ =~= ext_p_sp());
    }
    v
}

/// The bytes of `replica_id`.
pub open spec fn ext_replica_id() -> Seq<u8> {
    seq![114u8, 101u8, 112u8, 108u8, 105u8, 99u8, 97u8, 95u8, 105u8, 100u8]
}

/// Builds the bytes of `replica_id`.
pub fn mk_ext_replica_id() -> (r: Vec<u8>)
    ensures
        r@ == ext_replica_id(),
{
    let v: Vec<u8> = vec![114, 101, 112, 108, 105, 99, 97, 95, 105, 100];
    proof {
        assert(v@ =~= ext_replica_id());
    }
    v
}

/// The bytes of `p_tau`.
pub open spec fn ext_p_tau() -> Seq<u8> {
    seq![112u8, 95u8, 116u8, 97u8, 117u8]
}

/// Builds the bytes of `p_tau`.
pub fn mk_ext_p_tau() -> (r: Vec<u8>)
    ensures
        r@ == ext_p_tau(),
{
    let v: Vec<u8> = vec![112, 95, 116, 97, 117];
    proof {
        assert(v@ =~= ext_p_tau());
    }
    v
}

/// The bytes of `p_aux`.
pub open spec fn ext_p_aux() -> Seq<u8> {
    seq![112u8, 95u8, 97u8, 117u8, 120u8]
}

/// Builds the bytes of `p_aux`.
pub fn mk_ext_p_aux() -> (r: Vec<u8>)
    ensures
        r@ == ext_p_aux(),
{
    let v: Vec<u8> = vec![112, 95, 97, 117, 120];
    proof {
        assert(v@ =~= ext_p_aux());
    }
    v
}

/// The bytes of `t_aux`.
pub open spec fn ext_t_aux() -> Seq<u8> {
    seq![116u8, 95u8, 97u8, 117u8, 120u8]
}

/// Builds the bytes of `t_aux`.
pub fn mk_ext_t_aux() -> (r: Vec<u8>)
    ensures
        r@ == ext_t_aux(),
{
    let v: Vec<u8> = vec![116, 95, 97, 117, 120];
    proof {
        assert(v@ =~= ext_t_aux());
    }
    v
}


// ------------------------------------------------------------------
// Randomness (trusted wrappers)
// ------------------------------------------------------------------

/// Relies on rand's `OsRng`: 32 bytes drawn from the operating system's
/// randomness source.  Nothing can be promised of their values.
#[verifier::external_body]
pub fn rand_bytes() -> (r: Vec<u8>)
    ensures
        r@.len() == 32,
{
    let a: [u8; 32] = rand::rngs::OsRng.gen();
    a.to_vec()
}

/// Relies on filecoin_hashers' `PoseidonDomain::random`: a uniformly drawn
/// valid domain element, handed back as its four 64-bit limbs.  Nothing can
/// be promised of their values.
#[verifier::external_body]
pub fn random_domain_limbs() -> (r: Vec<u64>)
    ensures
        r@.len() == 4,
{
    let rng = &mut rand::thread_rng();
    let d = filecoin_hashers::poseidon::PoseidonDomain::random(rng);
    ((d.0).0).to_vec()
}

/// The eight little-endian bytes of one limb.
pub open spec fn le8(n: u64) -> Seq<u8> {
    seq![
        (n % 256) as u8,
        ((n / 256) % 256) as u8,
        ((n / 65536) % 256) as u8,
        ((n / 16777216) % 256) as u8,
        ((n / 4294967296) % 256) as u8,
        ((n / 1099511627776) % 256) as u8,
        ((n / 281474976710656) % 256) as u8,
        ((n / 72057594037927936) % 256) as u8,
    ]
}

/// The 32 little-endian bytes of a four-limb domain element.
pub open spec fn le_bytes_of_limbs(l: Seq<u64>) -> Seq<u8>
    recommends
        l.len() == 4,
{
    le8(l[0]) + le8(l[1]) + le8(l[2]) + le8(l[3])
}

/// Appends the eight little-endian bytes of `n`.
pub fn write_le8(out: &mut Vec<u8>, n: u64)
    ensures
        final(out)@ == old(out)@ + le8(n),
{
    out.push((n % 256) as u8);
    out.push(((n / 256) % 256) as u8);
    out.push(((n / 65536) % 256) as u8);
    out.push(((n / 16777216) % 256) as u8);
    out.push(((n / 4294967296) % 256) as u8);
    out.push(((n / 1099511627776) % 256) as u8);
    out.push(((n / 281474976710656) % 256) as u8);
    out.push(((n / 72057594037927936) % 256) as u8);
    proof {
        assert(out@ =~= old(out)@ + le8(n));
    }
}

/// The raw 32-byte form of a replica identity, as it is persisted.
pub fn replica_id_to_bytes(id: &crate::params::ReplicaId) -> (r: Vec<u8>)
    requires
        id.wf(),
    ensures
        r@ == le_bytes_of_limbs(id.limbs@),
        r@.len() == 32,
{
    let mut out: Vec<u8> = Vec::new();
    write_le8(&mut out, id.limbs[0]);
    write_le8(&mut out, id.limbs[1]);
    write_le8(&mut out, id.limbs[2]);
    write_le8(&mut out, id.limbs[3]);
    proof {
        assert(out@ =~= le_bytes_of_limbs(id.limbs@));
    }
    out
}

/// Sample data of `nodes` nodes: each node one randomly drawn domain
/// element, so the proving engine accepts every node as a field value.
pub fn gen_sample_data(nodes: u64) -> (r: Vec<u8>)
    requires
        nodes * 32 <= usize::MAX,
    ensures
        r@.len() == nodes * 32,
{
    let mut out: Vec<u8> = Vec::new();
    let mut k: u64 = 0;
    while k < nodes
        invariant
            k <= nodes,
            nodes * 32 <= usize::MAX,
            out@.len() == k * 32,
        decreases nodes - k,
    {
        let limbs = random_domain_limbs();
        proof {
            assert((k + 1) * 32 <= nodes * 32) by (nonlinear_arith)
                requires
                    k < nodes;
        }
        write_le8(&mut out, limbs[0]);
        write_le8(&mut out, limbs[1]);
        write_le8(&mut out, limbs[2]);
        write_le8(&mut out, limbs[3]);
        k = k + 1;
    }
    out
}

// ------------------------------------------------------------------
// Node counting
// ------------------------------------------------------------------

/// Number of whole nodes in a file of `len` bytes.
pub fn count_nodes(len: u64) -> (r: u64)
    ensures
        r == len / 32,
{
    len / NODE_SIZE
}

// ------------------------------------------------------------------
// Directory lifecycle decisions
// ------------------------------------------------------------------

/// What the application must do to initialize an output directory.
#[derive(Clone, Copy, PartialEq, Eq, Structural, Debug)]
pub enum InitDirStep {
    /// Remove the directory tree, then create it and its reserved
    /// parameter subdirectory.
    ClearThenCreate,
    /// Create the directory and its reserved parameter subdirectory.
    CreateOnly,
}

/// The directory-initialization rule: an existing directory is cleared
/// only when asked; without the clear flag a pre-existing directory is
/// refused untouched.
pub open spec fn init_dir_decision(dir_exists: bool, clear_first: bool) -> Option<InitDirStep> {
    if dir_exists && !clear_first {
        None
    } else if dir_exists {
        Some(InitDirStep::ClearThenCreate)
    } else {
        Some(InitDirStep::CreateOnly)
    }
}

/// Decides how to initialize the output directory.  Fails exactly when the
/// directory exists and clearing was not requested; in that case nothing
/// may be modified.
pub fn init_output_dir(dir_exists: bool, clear_first: bool) -> (r: WrapResult<InitDirStep>)
    ensures
        r matches Ok(step) ==> init_dir_decision(dir_exists, clear_first) == Some(step),
        r is Err ==> init_dir_decision(dir_exists, clear_first) is None,
        r is Err <==> (dir_exists && !clear_first),
        r matches Err(e) ==> e.kind == ErrorKind::Io,
{
    if dir_exists && !clear_first {
        Err(crate::error::err_dir_exists())
    } else if dir_exists {
        Ok(InitDirStep::ClearThenCreate)
    } else {
        Ok(InitDirStep::CreateOnly)
    }
}

/// With the clear flag set, initialization is decided the same way no
/// matter how often it runs: it never refuses, and every run ends in a
/// step that leaves the directory freshly created and empty.
pub proof fn lemma_init_clear_repeatable(dir_exists_first: bool, dir_exists_again: bool)
    ensures
        init_dir_decision(dir_exists_first, true) is Some,
        init_dir_decision(dir_exists_again, true) is Some,
        init_dir_decision(true, true) == Some(InitDirStep::ClearThenCreate),
{
}

/// Without the clear flag, an existing directory is refused, and no
/// destructive step is ever decided.
pub proof fn lemma_init_no_clear_guard()
    ensures
        init_dir_decision(true, false) is None,
        init_dir_decision(false, false) == Some(InitDirStep::CreateOnly),
{
}

// ------------------------------------------------------------------
// Path derivation
// ------------------------------------------------------------------

/// The base name: everything after the last separator.
pub open spec fn base_name_of(p: Seq<u8>) -> Seq<u8>
    decreases p.len(),
{
    if p.len() == 0 {
        Seq::<u8>::empty()
    } else if p.last() == 47 {
        Seq::<u8>::empty()
    } else {
        base_name_of(p.drop_last()).push(p.last())
    }
}

/// The parent: everything up to and including the last separator.
pub open spec fn parent_of(p: Seq<u8>) -> Seq<u8>
    decreases p.len(),
{
    if p.len() == 0 {
        Seq::<u8>::empty()
    } else if p.last() == 47 {
        p
    } else {
        parent_of(p.drop_last())
    }
}

/// A usable base name: nonempty and neither of the two relative-reference
/// names.
pub open spec fn valid_base(b: Seq<u8>) -> bool {
    b.len() > 0 && b != seq![46u8] && b != seq![46u8, 46u8]
}

/// Index of the last dot of a base name, not counting a leading dot (which
/// marks a hidden file); `-1` when there is none.
pub open spec fn last_dot_ge1(b: Seq<u8>) -> int
    decreases b.len(),
{
    if b.len() <= 1 {
        -1
    } else if b.last() == 46 {
        b.len() - 1
    } else {
        last_dot_ge1(b.drop_last())
    }
}

/// The base name with its extension removed.
pub open spec fn stem_of(b: Seq<u8>) -> Seq<u8> {
    if last_dot_ge1(b) == -1 {
        b
    } else {
        b.subrange(0, last_dot_ge1(b))
    }
}

/// The base name with its extension replaced by `ext`.
pub open spec fn set_ext(b: Seq<u8>, ext: Seq<u8>) -> Seq<u8> {
    stem_of(b) + seq![46u8] + ext
}

/// Joining a directory and a name, inserting a separator only when needed.
pub open spec fn join_path(d: Seq<u8>, n: Seq<u8>) -> Seq<u8> {
    if d.len() == 0 {
        n
    } else if d.last() == 47 {
        d + n
    } else {
        d + seq![47u8] + n
    }
}

/// A path where no separator stands at or after `pl`, and a separator (or
/// the start) stands just before it, splits there into parent and base.
pub proof fn lemma_split_path(p: Seq<u8>, pl: int)
    requires
        0 <= pl <= p.len(),
        pl == 0 || p[pl - 1] == 47,
        forall|m: int| pl <= m < p.len() ==> p[m] != 47,
    ensures
        parent_of(p) == p.subrange(0, pl),
        base_name_of(p) == p.subrange(pl, p.len() as int),
    decreases p.len(),
{
    if p.len() == 0 {
        assert(p.subrange(0, 0) =~= Seq::<u8>::empty());
    } else if p.last() == 47 {
        assert(pl == p.len());
        assert(p.subrange(0, pl) =~= p);
        assert(p.subrange(pl, p.len() as int) =~= Seq::<u8>::empty());
    } else {
        assert(pl < p.len() || pl == 0) by {
            if pl == p.len() && pl > 0 {
                assert(p[pl - 1] == p.last());
            }
        }
        if pl == p.len() {
            // only possible when the path is empty, handled above
            assert(p.len() == 0);
        } else {
            let q = p.drop_last();
            lemma_split_path(q, pl);
            assert(q.subrange(0, pl) =~= p.subrange(0, pl));
            assert(parent_of(p) == parent_of(q));
            assert(base_name_of(p) == base_name_of(q).push(p.last()));
            assert(q.subrange(pl, q.len() as int).push(p.last()) =~= p.subrange(
                pl,
                p.len() as int,
            ));
        }
    }
}

/// A base name whose last dot (not counting a leading one) stands at `d`
/// has its stem before `d`.
pub proof fn lemma_last_dot_found(b: Seq<u8>, d: int)
    requires
        1 <= d < b.len(),
        b[d] == 46,
        forall|m: int| d < m < b.len() ==> b[m] != 46,
    ensures
        last_dot_ge1(b) == d,
    decreases b.len(),
{
    if d == b.len() - 1 {
    } else {
        lemma_last_dot_found(b.drop_last(), d);
    }
}

/// A base name with no dot beyond its first position has no extension.
pub proof fn lemma_last_dot_none(b: Seq<u8>)
    requires
        forall|m: int| 1 <= m < b.len() ==> b[m] != 46,
    ensures
        last_dot_ge1(b) == -1,
    decreases b.len(),
{
    if b.len() <= 1 {
    } else {
        lemma_last_dot_none(b.drop_last());
    }
}

/// Splits `p` into parent and base name.
fn split_path(p: &Vec<u8>) -> (r: (Vec<u8>, Vec<u8>))
    ensures
        r.0@ == parent_of(p@),
        r.1@ == base_name_of(p@),
{
    let mut pl: usize = p.len();
    while pl > 0 && p[pl - 1] != 47
        invariant
            pl <= p@.len(),
            forall|m: int| pl <= m < p@.len() ==> p@[m] != 47,
        decreases pl,
    {
        pl = pl - 1;
    }
    proof {
        lemma_split_path(p@, pl as int);
    }
    let mut parent: Vec<u8> = Vec::new();
    let mut k: usize = 0;
    while k < pl
        invariant
            k <= pl <= p@.len(),
            parent@ == p@.subrange(0, k as int),
        decreases pl - k,
    {
        parent.push(p[k]);
        k = k + 1;
        proof {
            assert(parent@ =~= p@.subrange(0, k as int));
        }
    }
    let mut base: Vec<u8> = Vec::new();
    let mut m: usize = pl;
    while m < p.len()
        invariant
            pl <= m <= p@.len(),
            base@ == p@.subrange(pl as int, m as int),
        decreases p@.len() - m,
    {
        base.push(p[m]);
        m = m + 1;
        proof {
            assert(base@ =~= p@.subrange(pl as int, m as int));
        }
    }
    proof {
        assert(p@.subrange(0, pl as int) == parent_of(p@));
        assert(p@.subrange(pl as int, p@.len() as int) == base_name_of(p@));
    }
    (parent, base)
}

/// Checks that a base name is usable.
fn check_base(b: &Vec<u8>) -> (r: bool)
    ensures
        r == valid_base(b@),
{
    if b.len() == 0 {
        proof {
            assert(!valid_base(b@));
        }
        return false;
    }
    if b.len() == 1 && b[0] == 46 {
        proof {
            assert(b@ =~= seq![46u8]);
        }
        return false;
    }
    if b.len() == 2 && b[0] == 46 && b[1] == 46 {
        proof {
            assert(b@ =~= seq![46u8, 46u8]);
        }
        return false;
    }
    proof {
        assert(b@ != seq![46u8] && b@ != seq![46u8, 46u8]) by {
            if b@ == seq![46u8] {
                assert(b@.len() == 1 && b@[0] == 46);
            }
            if b@ == seq![46u8, 46u8] {
                assert(b@.len() == 2 && b@[0] == 46 && b@[1] == 46);
            }
        }
    }
    true
}

/// Replaces the extension of the base name `b` with `ext`.
fn apply_ext(b: &Vec<u8>, ext: &Vec<u8>) -> (r: Vec<u8>)
    ensures
        r@ == set_ext(b@, ext@),
{
    let mut d: usize = b.len();
    while d > 1 && b[d - 1] != 46
        invariant
            d <= b@.len(),
            forall|m: int| d <= m < b@.len() ==> b@[m] != 46,
        decreases d,
    {
        d = d - 1;
    }
    let stem_len: usize = if d > 1 && b[d - 1] == 46 {
        proof {
            lemma_last_dot_found(b@, d - 1);
        }
        d - 1
    } else {
        proof {
            lemma_last_dot_none(b@);
        }
        b.len()
    };
    let mut out: Vec<u8> = Vec::new();
    let mut k: usize = 0;
    while k < stem_len
        invariant
            k <= stem_len <= b@.len(),
            out@ == b@.subrange(0, k as int),
        decreases stem_len - k,
    {
        out.push(b[k]);
        k = k + 1;
        proof {
            assert(out@ =~= b@.subrange(0, k as int));
        }
    }
    proof {
        assert(out@ == stem_of(b@)) by {
            if last_dot_ge1(b@) == -1 {
                assert(b@.subrange(0, b@.len() as int) =~= b@);
            }
        }
    }
    out.push(46);
    crate::json::write_bytes(&mut out, ext);
    proof {
        assert(out@ =~= set_ext(b@, ext@));
    }
    out
}

/// Joins a directory and a file name.
fn join(dir: &Vec<u8>, name: &Vec<u8>) -> (r: Vec<u8>)
    ensures
        r@ == join_path(dir@, name@),
{
    let mut out: Vec<u8> = Vec::new();
    crate::json::write_bytes(&mut out, dir);
    if dir.len() > 0 && dir[dir.len() - 1] != 47 {
        out.push(47);
    }
    crate::json::write_bytes(&mut out, name);
    proof {
        assert(out@ =~= join_path(dir@, name@));
    }
    out
}

/// The derived artifact path: the source file's base name, its extension
/// replaced, rooted in the output directory.
pub open spec fn spec_target_file_name(src: Seq<u8>, dir: Seq<u8>, ext: Seq<u8>) -> Seq<u8> {
    join_path(dir, set_ext(base_name_of(src), ext))
}

/// Derives the artifact path for `src` under `output_dir` with extension
/// `ext`.  A pure function of its inputs; fails exactly when the source
/// path has no usable file name.
pub fn target_file_name(src: &Vec<u8>, output_dir: &Vec<u8>, ext: &Vec<u8>) -> (r: WrapResult<
    Vec<u8>,
>)
    ensures
        r matches Ok(p) ==> valid_base(base_name_of(src@)) && p@ == spec_target_file_name(
            src@,
            output_dir@,
            ext@,
        ),
        r matches Err(e) ==> e.kind == ErrorKind::Io && !valid_base(base_name_of(src@)),
{
    let (_, base) = split_path(src);
    if !check_base(&base) {
        return Err(crate::error::err_bad_name());
    }
    let named = apply_ext(&base, ext);
    Ok(join(output_dir, &named))
}

/// The derived parameter-artifact path: rooted at the replica's parent
/// directory's reserved parameter subdirectory, keyed by the replica
/// path's own base name.
pub open spec fn spec_target_param_file_name(replica: Seq<u8>, ext: Seq<u8>) -> Seq<u8> {
    join_path(join_path(parent_of(replica), params_dir_name()), set_ext(base_name_of(replica), ext))
}

/// Derives the parameter-artifact path for `replica_path` with extension
/// `ext`.  A pure function of its inputs; fails exactly when the replica
/// path has no usable file name.
pub fn target_param_file_name(replica_path: &Vec<u8>, ext: &Vec<u8>) -> (r: WrapResult<Vec<u8>>)
    ensures
        r matches Ok(p) ==> valid_base(base_name_of(replica_path@)) && p@
            == spec_target_param_file_name(replica_path@, ext@),
        r matches Err(e) ==> e.kind == ErrorKind::Io && !valid_base(base_name_of(replica_path@)),
{
    let (parent, base) = split_path(replica_path);
    if !check_base(&base) {
        return Err(crate::error::err_bad_name());
    }
    let pdir = mk_params_dir_name();
    let param_dir = join(&parent, &pdir);
    let named = apply_ext(&base, ext);
    Ok(join(&param_dir, &named))
}

/// Path determinism: the derived artifact and parameter paths are pure
/// functions of their inputs, so equal inputs always yield equal paths,
/// independent of call order.
pub proof fn lemma_path_determinism(
    src1: Seq<u8>,
    dir1: Seq<u8>,
    ext1: Seq<u8>,
    src2: Seq<u8>,
    dir2: Seq<u8>,
    ext2: Seq<u8>,
)
    requires
        src1 == src2,
        dir1 == dir2,
        ext1 == ext2,
    ensures
        spec_target_file_name(src1, dir1, ext1) == spec_target_file_name(src2, dir2, ext2),
        spec_target_param_file_name(src1, ext1) == spec_target_param_file_name(src2, ext2),
{
}


/// A base name never contains a separator.
pub proof fn lemma_base_no_sep(p: Seq<u8>)
    ensures
        forall|k: int| 0 <= k < base_name_of(p).len() ==> base_name_of(p)[k] != 47,
    decreases p.len(),
{
    if p.len() == 0 {
    } else if p.last() == 47 {
    } else {
        lemma_base_no_sep(p.drop_last());
        assert forall|k: int| 0 <= k < base_name_of(p).len() implies base_name_of(p)[k] != 47 by {
            if k < base_name_of(p).len() - 1 {
                assert(base_name_of(p)[k] == base_name_of(p.drop_last())[k]);
            }
        }
    }
}

/// Appending a separator-free name to an empty prefix or one ending in a
/// separator makes the name the base name.
pub proof fn lemma_base_of_concat(a: Seq<u8>, n: Seq<u8>)
    requires
        a.len() == 0 || a.last() == 47,
        forall|k: int| 0 <= k < n.len() ==> n[k] != 47,
    ensures
        base_name_of(a + n) == n,
    decreases n.len(),
{
    if n.len() == 0 {
        assert(a + n =~= a);
        assert(base_name_of(a) =~= Seq::<u8>::empty());
    } else {
        lemma_base_of_concat(a, n.drop_last());
        assert((a + n).drop_last() =~= a + n.drop_last());
        assert((a + n).last() == n.last());
        assert(base_name_of(a + n) == base_name_of(a + n.drop_last()).push(n.last()));
        assert(n.drop_last().push(n.last()) =~= n);
    }
}

/// The last-dot position of a base name is inside it when it exists.
pub proof fn lemma_last_dot_range(b: Seq<u8>)
    ensures
        last_dot_ge1(b) == -1 || (1 <= last_dot_ge1(b) < b.len() && b[last_dot_ge1(b)] == 46),
    decreases b.len(),
{
    if b.len() <= 1 {
    } else if b.last() == 46 {
    } else {
        lemma_last_dot_range(b.drop_last());
    }
}

/// The derived artifact path carries the renamed base name as its own base
/// name, and that base name is usable.
pub proof fn lemma_target_base(src: Seq<u8>, dir: Seq<u8>, ext: Seq<u8>)
    requires
        ext.len() > 0,
        forall|k: int| 0 <= k < ext.len() ==> ext[k] != 47 && ext[k] != 46,
    ensures
        base_name_of(spec_target_file_name(src, dir, ext)) == set_ext(base_name_of(src), ext),
        valid_base(set_ext(base_name_of(src), ext)),
{
    let b = base_name_of(src);
    let name = set_ext(b, ext);
    lemma_base_no_sep(src);
    lemma_last_dot_range(b);
    assert(stem_of(b).len() <= b.len());
    assert forall|k: int| 0 <= k < name.len() implies name[k] != 47 by {
        let st = stem_of(b);
        assert(name == st + seq![46u8] + ext);
        if k < st.len() {
            assert(name[k] == (st + seq![46u8])[k]);
            assert(name[k] == st[k]);
            assert(st[k] == b[k]);
        } else if k == st.len() {
            assert(name[k] == (st + seq![46u8])[k]);
            assert(name[k] == 46);
        } else {
            assert(name[k] == ext[k - st.len() - 1]);
        }
    }
    if dir.len() == 0 {
        assert(join_path(dir, name) == name);
        assert(Seq::<u8>::empty() + name =~= name);
        lemma_base_of_concat(Seq::<u8>::empty(), name);
    } else if dir.last() == 47 {
        lemma_base_of_concat(dir, name);
    } else {
        lemma_base_of_concat(dir + seq![47u8], name);
        assert(dir + seq![47u8] + name =~= (dir + seq![47u8]) + name);
        assert(base_name_of(dir + seq![47u8] + name) == base_name_of((dir + seq![47u8]) + name));
    }
    // the renamed base is usable: it is at least two bytes and contains a
    // dot ahead of its last byte, so it is neither relative reference
    assert(valid_base(name)) by {
        let st = stem_of(b);
        assert(name.len() == st.len() + 1 + ext.len());
        assert(name[st.len() as int] == 46);
        if name == seq![46u8] {
            assert(name.len() == 1);
            assert(ext.len() == 0);
        }
        if name == seq![46u8, 46u8] {
            assert(name.len() == 2);
            assert(st.len() == 0 && ext.len() == 1);
            assert(name[1] == ext[0]);
            assert(ext[0] == 46);
        }
    }
}


/// The reserved parameter subdirectory of an output directory.
pub fn mk_default_layout(dir: &Vec<u8>) -> (r: Vec<u8>)
    ensures
        r@ == join_path(dir@, params_dir_name()),
{
    let mut out: Vec<u8> = Vec::new();
    crate::json::write_bytes(&mut out, dir);
    if dir.len() > 0 && dir[dir.len() - 1] != 47 {
        out.push(47);
    }
    let p = mk_params_dir_name();
    crate::json::write_bytes(&mut out, &p);
    proof {
        assert(out@ =~= join_path(dir@, params_dir_name()));
    }
    out
}

} // verus!
