//! The persisted parameter shapes and their canonical interchange form.
//!
//! Each structure here is the flat, engine-agnostic record that survives on
//! disk: setup parameters, layer-challenge counts, commitments, replica
//! identities, and challenge seeds.  Encoding is canonical (fixed field
//! order, no whitespace), and decoding accepts exactly the canonical form,
//! so decoding inverts encoding byte for byte.

use vstd::prelude::*;

use crate::error::{Error, ErrorKind, WrapResult};
use crate::json::{
    byte_list_token_at, enc_byte_list, enc_u64, enc_u64_list, expect, is_digit,
    lemma_byte_list_token_unique, lemma_enc_nat_shape, lemma_join, lemma_num_token_unique,
    lemma_split, list_token_at, num_token_at, parse_byte_list, parse_u64, u64s_of_bytes,
    write_byte_list, write_bytes, write_u64,
};

verus! {

/// Default base degree of the replication graph.
pub const DEFAULT_BASE_DEGREE: u64 = 6;

/// Default expansion degree of the replication graph.
pub const DEFAULT_EXP_DEGREE: u64 = 8;

/// Default number of label layers.
pub const DEFAULT_LAYER: u64 = 11;

/// Default challenge count per layer.
pub const DEFAULT_MAX_COUNT: u64 = 1;

/// How many layers are challenged and how many challenges each layer gets.
#[derive(Clone, Copy, PartialEq, Eq, Structural, Debug)]
pub struct LayerChallenges {
    pub layers: u64,
    pub max_count: u64,
}

/// The setup parameters of one replication: they fully determine the shape
/// of the replication graph.  Immutable once created.
#[derive(Clone, Debug)]
pub struct SetupParams {
    pub nodes: u64,
    pub degree: u64,
    pub expansion_degree: u64,
    pub porep_id: Vec<u8>,
    pub layer_challenges: LayerChallenges,
}

/// The persisted (wire) shape of the setup parameters.  The wire shape holds
/// exactly the flat record fields, so it coincides with `SetupParams`.
pub type PersistentSetupParam = SetupParams;

impl SetupParams {
    /// A well-formed record carries a 32-byte replication-graph identifier.
    pub open spec fn wf(&self) -> bool {
        self.porep_id@.len() == 32
    }
}

/// The persisted (wire) shape of the public commitments: each digest as a
/// plain byte sequence, engine-agnostic.
#[derive(Clone, Debug)]
pub struct PersistentTau {
    pub comm_d: Vec<u8>,
    pub comm_r: Vec<u8>,
}

/// The public commitments with their widths checked: two 32-byte digests.
#[derive(Clone, Debug)]
pub struct Tau {
    pub comm_d: Vec<u8>,
    pub comm_r: Vec<u8>,
}

impl Tau {
    pub open spec fn wf(&self) -> bool {
        self.comm_d@.len() == 32 && self.comm_r@.len() == 32
    }
}

/// A replica identity: one fixed-width domain element, stored as four
/// 64-bit limbs (least significant first).
#[derive(Clone, Debug)]
pub struct ReplicaId {
    pub limbs: Vec<u64>,
}

impl ReplicaId {
    pub open spec fn wf(&self) -> bool {
        self.limbs@.len() == 4
    }
}

/// Tag bytes of `{"nodes":`.
pub open spec fn t_sp_nodes() -> Seq<u8> {
    seq![123u8, 34u8, 110u8, 111u8, 100u8, 101u8, 115u8, 34u8, 58u8]
}

/// Builds the tag bytes of `{"nodes":`.
pub fn tag_sp_nodes() -> (r: Vec<u8>)
    ensures
        r@ == t_sp_nodes(),
{
    let v: Vec<u8> = vec![123, 34, 110, 111, 100, 101, 115, 34, 58];
    proof {
        assert(v@ =~= t_sp_nodes());
    }
    v
}

/// Tag bytes of `,"degree":`.
pub open spec fn t_sp_degree() -> Seq<u8> {
    seq![44u8, 34u8, 100u8, 101u8, 103u8, 114u8, 101u8, 101u8, 34u8, 58u8]
}

/// Builds the tag bytes of `,"degree":`.
pub fn tag_sp_degree() -> (r: Vec<u8>)
    ensures
        r@ == t_sp_degree(),
{
    let v: Vec<u8> = vec![44, 34, 100, 101, 103, 114, 101, 101, 34, 58];
    proof {
        assert(v@ =~= t_sp_degree());
    }
    v
}

/// Tag bytes of `,"expansion_degree":`.
pub open spec fn t_sp_expansion() -> Seq<u8> {
    seq![44u8, 34u8, 101u8, 120u8, 112u8, 97u8, 110u8, 115u8, 105u8, 111u8, 110u8, 95u8, 100u8, 101u8, 103u8, 114u8, 101u8, 101u8, 34u8, 58u8]
}

/// Builds the tag bytes of `,"expansion_degree":`.
pub fn tag_sp_expansion() -> (r: Vec<u8>)
    ensures
        r@ == t_sp_expansion(),
{
    let v: Vec<u8> = vec![44, 34, 101, 120, 112, 97, 110, 115, 105, 111, 110, 95, 100, 101, 103, 114, 101, 101, 34, 58];
    proof {
        assert(v@ =~= t_sp_expansion());
    }
    v
}

/// Tag bytes of `,"porep_id":`.
pub open spec fn t_sp_porep() -> Seq<u8> {
    seq![44u8, 34u8, 112u8, 111u8, 114u8, 101u8, 112u8, 95u8, 105u8, 100u8, 34u8, 58u8]
}

/// Builds the tag bytes of `,"porep_id":`.
pub fn tag_sp_porep() -> (r: Vec<u8>)
    ensures
        r@ == t_sp_porep(),
{
    let v: Vec<u8> = vec![44, 34, 112, 111, 114, 101, 112, 95, 105, 100, 34, 58];
    proof {
        assert(v@ =~= t_sp_porep());
    }
    v
}

/// Tag bytes of `,"layer_challenges":`.
pub open spec fn t_sp_lc() -> Seq<u8> {
    seq![44u8, 34u8, 108u8, 97u8, 121u8, 101u8, 114u8, 95u8, 99u8, 104u8, 97u8, 108u8, 108u8, 101u8, 110u8, 103u8, 101u8, 115u8, 34u8, 58u8]
}

/// Builds the tag bytes of `,"layer_challenges":`.
pub fn tag_sp_lc() -> (r: Vec<u8>)
    ensures
        r@ == t_sp_lc(),
{
    let v: Vec<u8> = vec![44, 34, 108, 97, 121, 101, 114, 95, 99, 104, 97, 108, 108, 101, 110, 103, 101, 115, 34, 58];
    proof {
        assert(v@ =~= t_sp_lc());
    }
    v
}

/// Tag bytes of `{"layers":`.
pub open spec fn t_lc_layers() -> Seq<u8> {
    seq![123u8, 34u8, 108u8, 97u8, 121u8, 101u8, 114u8, 115u8, 34u8, 58u8]
}

/// Builds the tag bytes of `{"layers":`.
pub fn tag_lc_layers() -> (r: Vec<u8>)
    ensures
        r@ == t_lc_layers(),
{
    let v: Vec<u8> = vec![123, 34, 108, 97, 121, 101, 114, 115, 34, 58];
    proof {
        assert(v@ =~= t_lc_layers());
    }
    v
}

/// Tag bytes of `,"max_count":`.
pub open spec fn t_lc_max() -> Seq<u8> {
    seq![44u8, 34u8, 109u8, 97u8, 120u8, 95u8, 99u8, 111u8, 117u8, 110u8, 116u8, 34u8, 58u8]
}

/// Builds the tag bytes of `,"max_count":`.
pub fn tag_lc_max() -> (r: Vec<u8>)
    ensures
        r@ == t_lc_max(),
{
    let v: Vec<u8> = vec![44, 34, 109, 97, 120, 95, 99, 111, 117, 110, 116, 34, 58];
    proof {
        assert(v@ =~= t_lc_max());
    }
    v
}

/// Tag bytes of `{"comm_d":`.
pub open spec fn t_tau_comm_d() -> Seq<u8> {
    seq![123u8, 34u8, 99u8, 111u8, 109u8, 109u8, 95u8, 100u8, 34u8, 58u8]
}

/// Builds the tag bytes of `{"comm_d":`.
pub fn tag_tau_comm_d() -> (r: Vec<u8>)
    ensures
        r@ == t_tau_comm_d(),
{
    let v: Vec<u8> = vec![123, 34, 99, 111, 109, 109, 95, 100, 34, 58];
    proof {
        assert(v@ =~= t_tau_comm_d());
    }
    v
}

/// Tag bytes of `,"comm_r":`.
pub open spec fn t_tau_comm_r() -> Seq<u8> {
    seq![44u8, 34u8, 99u8, 111u8, 109u8, 109u8, 95u8, 114u8, 34u8, 58u8]
}

/// Builds the tag bytes of `,"comm_r":`.
pub fn tag_tau_comm_r() -> (r: Vec<u8>)
    ensures
        r@ == t_tau_comm_r(),
{
    let v: Vec<u8> = vec![44, 34, 99, 111, 109, 109, 95, 114, 34, 58];
    proof {
        assert(v@ =~= t_tau_comm_r());
    }
    v
}

/// Tag bytes of `}`.
pub open spec fn t_rbrace() -> Seq<u8> {
    seq![125u8]
}

/// Builds the tag bytes of `}`.
pub fn tag_rbrace() -> (r: Vec<u8>)
    ensures
        r@ == t_rbrace(),
{
    let v: Vec<u8> = vec![125];
    proof {
        assert(v@ =~= t_rbrace());
    }
    v
}


// ------------------------------------------------------------------
// Layer challenges: {"layers":L,"max_count":M}
// ------------------------------------------------------------------

/// Canonical encoding of `LayerChallenges`.
pub open spec fn enc_layer_challenges(lc: LayerChallenges) -> Seq<u8> {
    t_lc_layers() + enc_u64(lc.layers) + t_lc_max() + enc_u64(lc.max_count) + t_rbrace()
}

/// Offset of the end of the `layers` number, relative to the token start.
pub open spec fn lc_p2(lc: LayerChallenges) -> int {
    t_lc_layers().len() + enc_u64(lc.layers).len() as int
}

/// Offset of the end of the `max_count` number, relative to the token start.
pub open spec fn lc_p4(lc: LayerChallenges) -> int {
    lc_p2(lc) + t_lc_max().len() + enc_u64(lc.max_count).len()
}

/// The canonical `LayerChallenges` token standing in `s` at position `i`.
pub open spec fn lc_token_at(s: Seq<u8>, i: int, lc: LayerChallenges, j: int) -> bool {
    &&& 0 <= i
    &&& j == i + enc_layer_challenges(lc).len()
    &&& j <= s.len()
    &&& s.subrange(i, j) == enc_layer_challenges(lc)
}

/// Where each component of a `LayerChallenges` token stands.
pub proof fn lemma_lc_components(s: Seq<u8>, i: int, lc: LayerChallenges, j: int)
    requires
        lc_token_at(s, i, lc, j),
    ensures
        s.subrange(i, i + t_lc_layers().len()) == t_lc_layers(),
        num_token_at(s, i + t_lc_layers().len(), lc.layers, i + lc_p2(lc)),
        s.subrange(i + lc_p2(lc), i + lc_p2(lc) + t_lc_max().len()) == t_lc_max(),
        num_token_at(s, i + lc_p2(lc) + t_lc_max().len(), lc.max_count, i + lc_p4(lc)),
        s[i + lc_p4(lc)] == 125,
        j == i + lc_p4(lc) + 1,
{
    let t1 = t_lc_layers();
    let a = enc_u64(lc.layers);
    let t2 = t_lc_max();
    let b = enc_u64(lc.max_count);
    lemma_split(s, i, t1 + a + t2 + b, t_rbrace(), j);
    lemma_split(s, i, t1 + a + t2, b, i + lc_p2(lc) + t2.len() + b.len());
    lemma_split(s, i, t1 + a, t2, i + lc_p2(lc) + t2.len());
    lemma_split(s, i, t1, a, i + lc_p2(lc));
    assert(s[i + lc_p4(lc)] == s.subrange(i + lc_p4(lc), j)[0]);
    assert(s[i + lc_p2(lc)] == s.subrange(i + lc_p2(lc), i + lc_p2(lc) + t2.len())[0]);
    assert(s[i + lc_p2(lc)] == 44);
    lemma_enc_nat_shape(lc.layers as nat);
    lemma_enc_nat_shape(lc.max_count as nat);
}

/// At one position there is at most one `LayerChallenges` token.
pub proof fn lemma_lc_token_unique(
    s: Seq<u8>,
    i: int,
    lc1: LayerChallenges,
    j1: int,
    lc2: LayerChallenges,
    j2: int,
)
    requires
        lc_token_at(s, i, lc1, j1),
        lc_token_at(s, i, lc2, j2),
    ensures
        lc1 == lc2,
        j1 == j2,
{
    lemma_lc_components(s, i, lc1, j1);
    lemma_lc_components(s, i, lc2, j2);
    lemma_num_token_unique(
        s,
        i + t_lc_layers().len(),
        lc1.layers,
        i + lc_p2(lc1),
        lc2.layers,
        i + lc_p2(lc2),
    );
    lemma_num_token_unique(
        s,
        i + lc_p2(lc1) + t_lc_max().len(),
        lc1.max_count,
        i + lc_p4(lc1),
        lc2.max_count,
        i + lc_p4(lc2),
    );
}

/// Appends the canonical encoding of `lc`.
pub fn write_layer_challenges(out: &mut Vec<u8>, lc: &LayerChallenges)
    ensures
        final(out)@ == old(out)@ + enc_layer_challenges(*lc),
{
    let t1 = tag_lc_layers();
    write_bytes(out, &t1);
    write_u64(out, lc.layers);
    let t2 = tag_lc_max();
    write_bytes(out, &t2);
    write_u64(out, lc.max_count);
    out.push(125);
    proof {
        assert(out@ =~= old(out)@ + enc_layer_challenges(*lc));
    }
}

/// Reads the `LayerChallenges` token at position `i`.  Returns `None`
/// exactly when none stands there.
pub fn parse_layer_challenges(s: &Vec<u8>, i: usize) -> (r: Option<(LayerChallenges, usize)>)
    requires
        i <= s@.len(),
    ensures
        match r {
            Some((lc, j)) => lc_token_at(s@, i as int, lc, j as int),
            None => forall|lc: LayerChallenges, j: int| !lc_token_at(s@, i as int, lc, j),
        },
{
    let gs = Ghost(s@);
    let t1 = tag_lc_layers();
    let step1 = expect(s, i, &t1);
    if step1.is_none() {
        proof {
            assert forall|lc: LayerChallenges, j: int| !lc_token_at(s@, i as int, lc, j) by {
                if lc_token_at(s@, i as int, lc, j) {
                    lemma_lc_components(s@, i as int, lc, j);
                }
            }
        }
        return None;
    }
    let c1 = step1.unwrap();
    let step2 = parse_u64(s, c1);
    if step2.is_none() {
        proof {
            assert forall|lc: LayerChallenges, j: int| !lc_token_at(s@, i as int, lc, j) by {
                if lc_token_at(s@, i as int, lc, j) {
                    lemma_lc_components(s@, i as int, lc, j);
                }
            }
        }
        return None;
    }
    let (layers, e1) = step2.unwrap();
    proof {
        assert forall|lc: LayerChallenges, j: int|
            lc_token_at(s@, i as int, lc, j) implies lc.layers == layers && i + lc_p2(lc)
            == e1 as int by {
            lemma_lc_components(s@, i as int, lc, j);
            lemma_num_token_unique(
                s@,
                c1 as int,
                lc.layers,
                i + lc_p2(lc),
                layers,
                e1 as int,
            );
        }
    }
    let t2 = tag_lc_max();
    let step3 = expect(s, e1, &t2);
    if step3.is_none() {
        proof {
            assert forall|lc: LayerChallenges, j: int| !lc_token_at(s@, i as int, lc, j) by {
                if lc_token_at(s@, i as int, lc, j) {
                    lemma_lc_components(s@, i as int, lc, j);
                }
            }
        }
        return None;
    }
    let c2 = step3.unwrap();
    let step4 = parse_u64(s, c2);
    if step4.is_none() {
        proof {
            assert forall|lc: LayerChallenges, j: int| !lc_token_at(s@, i as int, lc, j) by {
                if lc_token_at(s@, i as int, lc, j) {
                    lemma_lc_components(s@, i as int, lc, j);
                }
            }
        }
        return None;
    }
    let (max_count, e2) = step4.unwrap();
    proof {
        assert forall|lc: LayerChallenges, j: int|
            lc_token_at(s@, i as int, lc, j) implies lc.max_count == max_count && i + lc_p4(lc)
            == e2 as int by {
            lemma_lc_components(s@, i as int, lc, j);
            lemma_num_token_unique(
                s@,
                c2 as int,
                lc.max_count,
                i + lc_p4(lc),
                max_count,
                e2 as int,
            );
        }
    }
    if e2 >= s.len() || s[e2] != 125 {
        proof {
            assert forall|lc: LayerChallenges, j: int| !lc_token_at(s@, i as int, lc, j) by {
                if lc_token_at(s@, i as int, lc, j) {
                    lemma_lc_components(s@, i as int, lc, j);
                }
            }
        }
        return None;
    }
    let lc = LayerChallenges { layers, max_count };
    proof {
        lemma_join(s@, i as int, c1 as int, e1 as int);
        lemma_join(s@, i as int, e1 as int, c2 as int);
        lemma_join(s@, i as int, c2 as int, e2 as int);
        lemma_join(s@, i as int, e2 as int, e2 + 1);
        assert(s@.subrange(e2 as int, e2 + 1) =~= t_rbrace());
        assert(s@.subrange(i as int, e2 + 1) == t_lc_layers() + enc_u64(layers) + t_lc_max()
            + enc_u64(max_count) + t_rbrace());
    }
    Some((lc, e2 + 1))
}

// ------------------------------------------------------------------
// Setup parameters:
// {"nodes":N,"degree":D,"expansion_degree":E,"porep_id":[..],
//  "layer_challenges":{..}}
// ------------------------------------------------------------------

/// Canonical encoding of `SetupParams`.
pub open spec fn enc_setup_params(x: SetupParams) -> Seq<u8> {
    t_sp_nodes() + enc_u64(x.nodes) + t_sp_degree() + enc_u64(x.degree) + t_sp_expansion()
        + enc_u64(x.expansion_degree) + t_sp_porep() + enc_byte_list(x.porep_id@) + t_sp_lc()
        + enc_layer_challenges(x.layer_challenges) + t_rbrace()
}

/// End of the `nodes` number.
pub open spec fn sp_p2(x: SetupParams) -> int {
    t_sp_nodes().len() + enc_u64(x.nodes).len() as int
}

/// End of the `degree` number.
pub open spec fn sp_p4(x: SetupParams) -> int {
    sp_p2(x) + t_sp_degree().len() + enc_u64(x.degree).len()
}

/// End of the `expansion_degree` number.
pub open spec fn sp_p6(x: SetupParams) -> int {
    sp_p4(x) + t_sp_expansion().len() + enc_u64(x.expansion_degree).len()
}

/// End of the `porep_id` list.
pub open spec fn sp_p8(x: SetupParams) -> int {
    sp_p6(x) + t_sp_porep().len() + enc_byte_list(x.porep_id@).len()
}

/// End of the nested `layer_challenges` object.
pub open spec fn sp_p10(x: SetupParams) -> int {
    sp_p8(x) + t_sp_lc().len() + enc_layer_challenges(x.layer_challenges).len()
}

/// Where each component of an encoded `SetupParams` document stands.
#[verifier::rlimit(100)]
#[verifier::spinoff_prover]
pub proof fn lemma_sp_components(s: Seq<u8>, x: SetupParams)
    requires
        s == enc_setup_params(x),
    ensures
        s.len() == sp_p10(x) + 1,
        s.subrange(0, t_sp_nodes().len() as int) == t_sp_nodes(),
        num_token_at(s, t_sp_nodes().len() as int, x.nodes, sp_p2(x)),
        s.subrange(sp_p2(x), sp_p2(x) + t_sp_degree().len()) == t_sp_degree(),
        num_token_at(s, sp_p2(x) + t_sp_degree().len(), x.degree, sp_p4(x)),
        s.subrange(sp_p4(x), sp_p4(x) + t_sp_expansion().len()) == t_sp_expansion(),
        num_token_at(s, sp_p4(x) + t_sp_expansion().len(), x.expansion_degree, sp_p6(x)),
        s.subrange(sp_p6(x), sp_p6(x) + t_sp_porep().len()) == t_sp_porep(),
        byte_list_token_at(s, sp_p6(x) + t_sp_porep().len(), x.porep_id@, sp_p8(x)),
        s.subrange(sp_p8(x), sp_p8(x) + t_sp_lc().len()) == t_sp_lc(),
        lc_token_at(s, sp_p8(x) + t_sp_lc().len(), x.layer_challenges, sp_p10(x)),
        s[sp_p10(x)] == 125,
{
    let t1 = t_sp_nodes();
    let a = enc_u64(x.nodes);
    let t2 = t_sp_degree();
    let b = enc_u64(x.degree);
    let t3 = t_sp_expansion();
    let c = enc_u64(x.expansion_degree);
    let t4 = t_sp_porep();
    let d = enc_byte_list(x.porep_id@);
    let t5 = t_sp_lc();
    let e = enc_layer_challenges(x.layer_challenges);
    let n = s.len() as int;
    assert(s.subrange(0, n) =~= s);
    lemma_split(s, 0, t1 + a + t2 + b + t3 + c + t4 + d + t5 + e, t_rbrace(), n);
    lemma_split(s, 0, t1 + a + t2 + b + t3 + c + t4 + d + t5, e, sp_p10(x));
    lemma_split(s, 0, t1 + a + t2 + b + t3 + c + t4 + d, t5, sp_p8(x) + t5.len());
    lemma_split(s, 0, t1 + a + t2 + b + t3 + c + t4, d, sp_p8(x));
    lemma_split(s, 0, t1 + a + t2 + b + t3 + c, t4, sp_p6(x) + t4.len());
    lemma_split(s, 0, t1 + a + t2 + b + t3, c, sp_p6(x));
    lemma_split(s, 0, t1 + a + t2 + b, t3, sp_p4(x) + t3.len());
    lemma_split(s, 0, t1 + a + t2, b, sp_p4(x));
    lemma_split(s, 0, t1 + a, t2, sp_p2(x) + t2.len());
    lemma_split(s, 0, t1, a, sp_p2(x));
    assert(s[sp_p2(x)] == s.subrange(sp_p2(x), sp_p2(x) + t2.len())[0]);
    assert(s[sp_p4(x)] == s.subrange(sp_p4(x), sp_p4(x) + t3.len())[0]);
    assert(s[sp_p6(x)] == s.subrange(sp_p6(x), sp_p6(x) + t4.len())[0]);
    assert(s[sp_p10(x)] == s.subrange(sp_p10(x), n)[0]);
    lemma_enc_nat_shape(x.nodes as nat);
    lemma_enc_nat_shape(x.degree as nat);
    lemma_enc_nat_shape(x.expansion_degree as nat);
}

/// Serializes `x` to its canonical interchange text.
pub fn setup_params_into_json(x: &SetupParams) -> (r: Vec<u8>)
    ensures
        r@ == enc_setup_params(*x),
{
    let mut out: Vec<u8> = Vec::new();
    let t1 = tag_sp_nodes();
    write_bytes(&mut out, &t1);
    write_u64(&mut out, x.nodes);
    let t2 = tag_sp_degree();
    write_bytes(&mut out, &t2);
    write_u64(&mut out, x.degree);
    let t3 = tag_sp_expansion();
    write_bytes(&mut out, &t3);
    write_u64(&mut out, x.expansion_degree);
    let t4 = tag_sp_porep();
    write_bytes(&mut out, &t4);
    write_byte_list(&mut out, &x.porep_id);
    let t5 = tag_sp_lc();
    write_bytes(&mut out, &t5);
    write_layer_challenges(&mut out, &x.layer_challenges);
    out.push(125);
    proof {
        assert(out@ =~= enc_setup_params(*x));
    }
    out
}

/// Restores a `SetupParams` from its canonical interchange text.  Succeeds
/// exactly on the canonical encoding of a well-formed record.
#[verifier::rlimit(100)]
#[verifier::spinoff_prover]
pub fn decode_setup_params(s: &Vec<u8>) -> (r: Option<SetupParams>)
    ensures
        r matches Some(x) ==> x.wf() && s@ == enc_setup_params(x),
        r is None ==> forall|x: SetupParams| x.wf() ==> s@ != enc_setup_params(x),
{
    let t1 = tag_sp_nodes();
    let step1 = expect(s, 0, &t1);
    if step1.is_none() {
        proof {
            assert forall|x: SetupParams| x.wf() implies s@ != enc_setup_params(x) by {
                if s@ == enc_setup_params(x) {
                    lemma_sp_components(s@, x);
                }
            }
        }
        return None;
    }
    let c1 = step1.unwrap();
    let step2 = parse_u64(s, c1);
    if step2.is_none() {
        proof {
            assert forall|x: SetupParams| x.wf() implies s@ != enc_setup_params(x) by {
                if s@ == enc_setup_params(x) {
                    lemma_sp_components(s@, x);
                }
            }
        }
        return None;
    }
    let (nodes, e1) = step2.unwrap();
    proof {
        assert forall|x: SetupParams|
            s@ == enc_setup_params(x) implies x.nodes == nodes && sp_p2(x) == e1 as int by {
            lemma_sp_components(s@, x);
            lemma_num_token_unique(s@, c1 as int, x.nodes, sp_p2(x), nodes, e1 as int);
        }
    }
    let t2 = tag_sp_degree();
    let step3 = expect(s, e1, &t2);
    if step3.is_none() {
        proof {
            assert forall|x: SetupParams| x.wf() implies s@ != enc_setup_params(x) by {
                if s@ == enc_setup_params(x) {
                    lemma_sp_components(s@, x);
                }
            }
        }
        return None;
    }
    let c2 = step3.unwrap();
    let step4 = parse_u64(s, c2);
    if step4.is_none() {
        proof {
            assert forall|x: SetupParams| x.wf() implies s@ != enc_setup_params(x) by {
                if s@ == enc_setup_params(x) {
                    lemma_sp_components(s@, x);
                }
            }
        }
        return None;
    }
    let (degree, e2) = step4.unwrap();
    proof {
        assert forall|x: SetupParams|
            s@ == enc_setup_params(x) implies x.degree == degree && sp_p4(x) == e2 as int by {
            lemma_sp_components(s@, x);
            lemma_num_token_unique(s@, c2 as int, x.degree, sp_p4(x), degree, e2 as int);
        }
    }
    let t3 = tag_sp_expansion();
    let step5 = expect(s, e2, &t3);
    if step5.is_none() {
        proof {
            assert forall|x: SetupParams| x.wf() implies s@ != enc_setup_params(x) by {
                if s@ == enc_setup_params(x) {
                    lemma_sp_components(s@, x);
                }
            }
        }
        return None;
    }
    let c3 = step5.unwrap();
    let step6 = parse_u64(s, c3);
    if step6.is_none() {
        proof {
            assert forall|x: SetupParams| x.wf() implies s@ != enc_setup_params(x) by {
                if s@ == enc_setup_params(x) {
                    lemma_sp_components(s@, x);
                }
            }
        }
        return None;
    }
    let (expansion_degree, e3) = step6.unwrap();
    proof {
        assert forall|x: SetupParams|
            s@ == enc_setup_params(x) implies x.expansion_degree == expansion_degree && sp_p6(x)
            == e3 as int by {
            lemma_sp_components(s@, x);
            lemma_num_token_unique(
                s@,
                c3 as int,
                x.expansion_degree,
                sp_p6(x),
                expansion_degree,
                e3 as int,
            );
        }
    }
    let t4 = tag_sp_porep();
    let step7 = expect(s, e3, &t4);
    if step7.is_none() {
        proof {
            assert forall|x: SetupParams| x.wf() implies s@ != enc_setup_params(x) by {
                if s@ == enc_setup_params(x) {
                    lemma_sp_components(s@, x);
                }
            }
        }
        return None;
    }
    let c4 = step7.unwrap();
    let step8 = parse_byte_list(s, c4);
    if step8.is_none() {
        proof {
            assert forall|x: SetupParams| x.wf() implies s@ != enc_setup_params(x) by {
                if s@ == enc_setup_params(x) {
                    lemma_sp_components(s@, x);
                }
            }
        }
        return None;
    }
    let (porep_id, e4) = step8.unwrap();
    proof {
        assert forall|x: SetupParams|
            s@ == enc_setup_params(x) implies x.porep_id@ == porep_id@ && sp_p8(x)
            == e4 as int by {
            lemma_sp_components(s@, x);
            lemma_byte_list_token_unique(
                s@,
                c4 as int,
                x.porep_id@,
                sp_p8(x),
                porep_id@,
                e4 as int,
            );
        }
    }
    if porep_id.len() != 32 {
        return None;
    }
    let t5 = tag_sp_lc();
    let step9 = expect(s, e4, &t5);
    if step9.is_none() {
        proof {
            assert forall|x: SetupParams| x.wf() implies s@ != enc_setup_params(x) by {
                if s@ == enc_setup_params(x) {
                    lemma_sp_components(s@, x);
                }
            }
        }
        return None;
    }
    let c5 = step9.unwrap();
    let step10 = parse_layer_challenges(s, c5);
    if step10.is_none() {
        proof {
            assert forall|x: SetupParams| x.wf() implies s@ != enc_setup_params(x) by {
                if s@ == enc_setup_params(x) {
                    lemma_sp_components(s@, x);
                }
            }
        }
        return None;
    }
    let (layer_challenges, e5) = step10.unwrap();
    proof {
        assert forall|x: SetupParams|
            s@ == enc_setup_params(x) implies x.layer_challenges == layer_challenges && sp_p10(x)
            == e5 as int by {
            lemma_sp_components(s@, x);
            lemma_lc_token_unique(
                s@,
                c5 as int,
                x.layer_challenges,
                sp_p10(x),
                layer_challenges,
                e5 as int,
            );
        }
    }
    if e5 >= s.len() || s[e5] != 125 || e5 + 1 != s.len() {
        proof {
            assert forall|x: SetupParams| x.wf() implies s@ != enc_setup_params(x) by {
                if s@ == enc_setup_params(x) {
                    lemma_sp_components(s@, x);
                }
            }
        }
        return None;
    }
    let x = SetupParams { nodes, degree, expansion_degree, porep_id, layer_challenges };
    proof {
        lemma_join(s@, 0, c1 as int, e1 as int);
        lemma_join(s@, 0, e1 as int, c2 as int);
        lemma_join(s@, 0, c2 as int, e2 as int);
        lemma_join(s@, 0, e2 as int, c3 as int);
        lemma_join(s@, 0, c3 as int, e3 as int);
        lemma_join(s@, 0, e3 as int, c4 as int);
        lemma_join(s@, 0, c4 as int, e4 as int);
        lemma_join(s@, 0, e4 as int, c5 as int);
        lemma_join(s@, 0, c5 as int, e5 as int);
        lemma_join(s@, 0, e5 as int, e5 + 1);
        assert(s@.subrange(e5 as int, e5 + 1) =~= t_rbrace());
        assert(s@.subrange(0, e5 + 1) == t_sp_nodes() + enc_u64(nodes) + t_sp_degree() + enc_u64(
            degree,
        ) + t_sp_expansion() + enc_u64(expansion_degree) + t_sp_porep() + enc_byte_list(
            porep_id@,
        ) + t_sp_lc() + enc_layer_challenges(layer_challenges) + t_rbrace());
        assert(s@.subrange(0, e5 + 1) =~= s@);
    }
    Some(x)
}

/// Round trip: decoding the canonical encoding of any well-formed
/// `SetupParams` yields the record itself, so re-encoding reproduces the
/// text byte for byte.
pub proof fn lemma_setup_params_round_trip(x: SetupParams, y: SetupParams)
    requires
        x.wf(),
        y.wf(),
        enc_setup_params(x) == enc_setup_params(y),
    ensures
        x.nodes == y.nodes,
        x.degree == y.degree,
        x.expansion_degree == y.expansion_degree,
        x.porep_id@ == y.porep_id@,
        x.layer_challenges == y.layer_challenges,
{
    let s = enc_setup_params(x);
    lemma_sp_components(s, x);
    lemma_sp_components(s, y);
    lemma_num_token_unique(s, t_sp_nodes().len() as int, x.nodes, sp_p2(x), y.nodes, sp_p2(y));
    lemma_num_token_unique(
        s,
        sp_p2(x) + t_sp_degree().len(),
        x.degree,
        sp_p4(x),
        y.degree,
        sp_p4(y),
    );
    lemma_num_token_unique(
        s,
        sp_p4(x) + t_sp_expansion().len(),
        x.expansion_degree,
        sp_p6(x),
        y.expansion_degree,
        sp_p6(y),
    );
    lemma_byte_list_token_unique(
        s,
        sp_p6(x) + t_sp_porep().len(),
        x.porep_id@,
        sp_p8(x),
        y.porep_id@,
        sp_p8(y),
    );
    lemma_lc_token_unique(
        s,
        sp_p8(x) + t_sp_lc().len(),
        x.layer_challenges,
        sp_p10(x),
        y.layer_challenges,
        sp_p10(y),
    );
}


// ------------------------------------------------------------------
// Commitments: {"comm_d":[..],"comm_r":[..]}
// ------------------------------------------------------------------

/// Canonical encoding of `PersistentTau`.
pub open spec fn enc_p_tau(x: PersistentTau) -> Seq<u8> {
    t_tau_comm_d() + enc_byte_list(x.comm_d@) + t_tau_comm_r() + enc_byte_list(x.comm_r@)
        + t_rbrace()
}

/// End of the `comm_d` list.
pub open spec fn pt_p2(x: PersistentTau) -> int {
    t_tau_comm_d().len() + enc_byte_list(x.comm_d@).len() as int
}

/// End of the `comm_r` list.
pub open spec fn pt_p4(x: PersistentTau) -> int {
    pt_p2(x) + t_tau_comm_r().len() + enc_byte_list(x.comm_r@).len()
}

/// Where each component of an encoded `PersistentTau` document stands.
pub proof fn lemma_pt_components(s: Seq<u8>, x: PersistentTau)
    requires
        s == enc_p_tau(x),
    ensures
        s.len() == pt_p4(x) + 1,
        s.subrange(0, t_tau_comm_d().len() as int) == t_tau_comm_d(),
        byte_list_token_at(s, t_tau_comm_d().len() as int, x.comm_d@, pt_p2(x)),
        s.subrange(pt_p2(x), pt_p2(x) + t_tau_comm_r().len()) == t_tau_comm_r(),
        byte_list_token_at(s, pt_p2(x) + t_tau_comm_r().len(), x.comm_r@, pt_p4(x)),
        s[pt_p4(x)] == 125,
{
    let t1 = t_tau_comm_d();
    let a = enc_byte_list(x.comm_d@);
    let t2 = t_tau_comm_r();
    let b = enc_byte_list(x.comm_r@);
    let n = s.len() as int;
    assert(s.subrange(0, n) =~= s);
    lemma_split(s, 0, t1 + a + t2 + b, t_rbrace(), n);
    lemma_split(s, 0, t1 + a + t2, b, pt_p4(x));
    lemma_split(s, 0, t1 + a, t2, pt_p2(x) + t2.len());
    lemma_split(s, 0, t1, a, pt_p2(x));
    assert(s[pt_p4(x)] == s.subrange(pt_p4(x), n)[0]);
}

impl PersistentTau {
    /// Serializes the commitments to their canonical interchange text.
    pub fn into_json(&self) -> (r: Vec<u8>)
        ensures
            r@ == enc_p_tau(*self),
    {
        let mut out: Vec<u8> = Vec::new();
        let t1 = tag_tau_comm_d();
        write_bytes(&mut out, &t1);
        write_byte_list(&mut out, &self.comm_d);
        let t2 = tag_tau_comm_r();
        write_bytes(&mut out, &t2);
        write_byte_list(&mut out, &self.comm_r);
        out.push(125);
        proof {
            assert(out@ =~= enc_p_tau(*self));
        }
        out
    }

    /// Checks the widths of the two digests, turning the wire shape into a
    /// usable commitment pair.  Fails exactly when a digest is not 32 bytes
    /// wide, as the engine's digest restoration would.
    pub fn as_tau(&self) -> (r: WrapResult<Tau>)
        ensures
            r matches Ok(t) ==> t.wf() && t.comm_d@ == self.comm_d@ && t.comm_r@ == self.comm_r@,
            r is Err ==> !(self.comm_d@.len() == 32 && self.comm_r@.len() == 32),
            r matches Err(e) ==> e.kind == ErrorKind::Engine,
            self.comm_d@.len() == 32 && self.comm_r@.len() == 32 ==> r is Ok,
    {
        if self.comm_d.len() != 32 || self.comm_r.len() != 32 {
            return Err(crate::error::err_bad_digest());
        }
        Ok(Tau { comm_d: self.comm_d.clone(), comm_r: self.comm_r.clone() })
    }
}

impl Tau {
    /// The wire shape of these commitments.
    pub fn to_persistent(&self) -> (r: PersistentTau)
        ensures
            r.comm_d@ == self.comm_d@,
            r.comm_r@ == self.comm_r@,
    {
        PersistentTau { comm_d: self.comm_d.clone(), comm_r: self.comm_r.clone() }
    }
}

/// Restores a `PersistentTau` from its canonical interchange text.
/// Succeeds exactly on a canonical encoding.
pub fn decode_p_tau(s: &Vec<u8>) -> (r: Option<PersistentTau>)
    ensures
        r matches Some(x) ==> s@ == enc_p_tau(x),
        r is None ==> forall|x: PersistentTau| s@ != enc_p_tau(x),
{
    let t1 = tag_tau_comm_d();
    let step1 = expect(s, 0, &t1);
    if step1.is_none() {
        proof {
            assert forall|x: PersistentTau| s@ != enc_p_tau(x) by {
                if s@ == enc_p_tau(x) {
                    lemma_pt_components(s@, x);
                }
            }
        }
        return None;
    }
    let c1 = step1.unwrap();
    let step2 = parse_byte_list(s, c1);
    if step2.is_none() {
        proof {
            assert forall|x: PersistentTau| s@ != enc_p_tau(x) by {
                if s@ == enc_p_tau(x) {
                    lemma_pt_components(s@, x);
                }
            }
        }
        return None;
    }
    let (comm_d, e1) = step2.unwrap();
    proof {
        assert forall|x: PersistentTau|
            s@ == enc_p_tau(x) implies x.comm_d@ == comm_d@ && pt_p2(x) == e1 as int by {
            lemma_pt_components(s@, x);
            lemma_byte_list_token_unique(s@, c1 as int, x.comm_d@, pt_p2(x), comm_d@, e1 as int);
        }
    }
    let t2 = tag_tau_comm_r();
    let step3 = expect(s, e1, &t2);
    if step3.is_none() {
        proof {
            assert forall|x: PersistentTau| s@ != enc_p_tau(x) by {
                if s@ == enc_p_tau(x) {
                    lemma_pt_components(s@, x);
                }
            }
        }
        return None;
    }
    let c2 = step3.unwrap();
    let step4 = parse_byte_list(s, c2);
    if step4.is_none() {
        proof {
            assert forall|x: PersistentTau| s@ != enc_p_tau(x) by {
                if s@ == enc_p_tau(x) {
                    lemma_pt_components(s@, x);
                }
            }
        }
        return None;
    }
    let (comm_r, e2) = step4.unwrap();
    proof {
        assert forall|x: PersistentTau|
            s@ == enc_p_tau(x) implies x.comm_r@ == comm_r@ && pt_p4(x) == e2 as int by {
            lemma_pt_components(s@, x);
            lemma_byte_list_token_unique(s@, c2 as int, x.comm_r@, pt_p4(x), comm_r@, e2 as int);
        }
    }
    if e2 >= s.len() || s[e2] != 125 || e2 + 1 != s.len() {
        proof {
            assert forall|x: PersistentTau| s@ != enc_p_tau(x) by {
                if s@ == enc_p_tau(x) {
                    lemma_pt_components(s@, x);
                }
            }
        }
        return None;
    }
    let x = PersistentTau { comm_d, comm_r };
    proof {
        lemma_join(s@, 0, c1 as int, e1 as int);
        lemma_join(s@, 0, e1 as int, c2 as int);
        lemma_join(s@, 0, c2 as int, e2 as int);
        lemma_join(s@, 0, e2 as int, e2 + 1);
        assert(s@.subrange(e2 as int, e2 + 1) =~= t_rbrace());
        assert(s@.subrange(0, e2 + 1) == enc_p_tau(x));
        assert(s@.subrange(0, e2 + 1) =~= s@);
    }
    Some(x)
}

/// Round trip: two commitment records with the same canonical text hold the
/// same digests.
pub proof fn lemma_p_tau_round_trip(x: PersistentTau, y: PersistentTau)
    requires
        enc_p_tau(x) == enc_p_tau(y),
    ensures
        x.comm_d@ == y.comm_d@,
        x.comm_r@ == y.comm_r@,
{
    let s = enc_p_tau(x);
    lemma_pt_components(s, x);
    lemma_pt_components(s, y);
    lemma_byte_list_token_unique(
        s,
        t_tau_comm_d().len() as int,
        x.comm_d@,
        pt_p2(x),
        y.comm_d@,
        pt_p2(y),
    );
    lemma_byte_list_token_unique(
        s,
        pt_p2(x) + t_tau_comm_r().len(),
        x.comm_r@,
        pt_p4(x),
        y.comm_r@,
        pt_p4(y),
    );
}

// ------------------------------------------------------------------
// Replica identities and challenge seeds
// ------------------------------------------------------------------

/// Canonical encoding of a replica identity: its four limbs as a list.
pub open spec fn enc_replica_id(r: ReplicaId) -> Seq<u8> {
    enc_u64_list(r.limbs@)
}

/// Serializes a replica identity to its canonical interchange text.
pub fn replica_id_into_json(id: &ReplicaId) -> (r: Vec<u8>)
    ensures
        r@ == enc_replica_id(*id),
{
    let mut out: Vec<u8> = Vec::new();
    crate::json::write_u64_list(&mut out, &id.limbs);
    out
}

/// Restores a replica identity from its canonical interchange text.
/// Succeeds exactly on the canonical encoding of a well-formed identity.
pub fn decode_replica_id(s: &Vec<u8>) -> (r: Option<ReplicaId>)
    ensures
        r matches Some(x) ==> x.wf() && s@ == enc_replica_id(x),
        r is None ==> forall|x: ReplicaId| x.wf() ==> s@ != enc_replica_id(x),
{
    let step = crate::json::parse_u64_list(s, 0);
    match step {
        None => {
            proof {
                assert forall|x: ReplicaId| x.wf() implies s@ != enc_replica_id(x) by {
                    if s@ == enc_replica_id(x) {
                        assert(s@.subrange(0, s@.len() as int) =~= s@);
                        assert(list_token_at(s@, 0, x.limbs@, s@.len() as int));
                    }
                }
            }
            None
        },
        Some((limbs, j)) => {
            proof {
                assert forall|x: ReplicaId|
                    x.wf() && s@ == enc_replica_id(x) implies x.limbs@ == limbs@ && s@.len()
                    == j by {
                    assert(s@.subrange(0, s@.len() as int) =~= s@);
                    assert(list_token_at(s@, 0, x.limbs@, s@.len() as int));
                    crate::json::lemma_list_token_unique(
                        s@,
                        0,
                        x.limbs@,
                        s@.len() as int,
                        limbs@,
                        j as int,
                    );
                }
            }
            if j != s.len() || limbs.len() != 4 {
                return None;
            }
            proof {
                assert(s@.subrange(0, j as int) =~= s@);
            }
            Some(ReplicaId { limbs })
        },
    }
}

/// Round trip: two well-formed identities with the same canonical text hold
/// the same limbs.
pub proof fn lemma_replica_id_round_trip(x: ReplicaId, y: ReplicaId)
    requires
        enc_replica_id(x) == enc_replica_id(y),
    ensures
        x.limbs@ == y.limbs@,
{
    let s = enc_replica_id(x);
    assert(s.subrange(0, s.len() as int) =~= s);
    assert(list_token_at(s, 0, x.limbs@, s.len() as int));
    assert(list_token_at(s, 0, y.limbs@, s.len() as int));
    crate::json::lemma_list_token_unique(s, 0, x.limbs@, s.len() as int, y.limbs@, s.len() as int);
}

/// Canonical encoding of a 32-byte value (seed or graph identifier): a list
/// of its bytes.
pub open spec fn enc_bytes32(b: Seq<u8>) -> Seq<u8> {
    enc_byte_list(b)
}

/// Serializes a 32-byte value to its canonical interchange text.
pub fn bytes32_into_json(b: &Vec<u8>) -> (r: Vec<u8>)
    ensures
        r@ == enc_bytes32(b@),
{
    let mut out: Vec<u8> = Vec::new();
    write_byte_list(&mut out, b);
    out
}

/// Restores a 32-byte value from its canonical interchange text.  Succeeds
/// exactly on the canonical encoding of a 32-byte sequence.
pub fn decode_bytes32(s: &Vec<u8>) -> (r: Option<Vec<u8>>)
    ensures
        r matches Some(b) ==> b@.len() == 32 && s@ == enc_bytes32(b@),
        r is None ==> forall|b: Seq<u8>| b.len() == 32 ==> s@ != enc_bytes32(b),
{
    let step = parse_byte_list(s, 0);
    match step {
        None => {
            proof {
                assert forall|b: Seq<u8>| b.len() == 32 implies s@ != enc_bytes32(b) by {
                    if s@ == enc_bytes32(b) {
                        assert(s@.subrange(0, s@.len() as int) =~= s@);
                        assert(byte_list_token_at(s@, 0, b, s@.len() as int));
                    }
                }
            }
            None
        },
        Some((b, j)) => {
            proof {
                assert forall|b2: Seq<u8>|
                    b2.len() == 32 && s@ == enc_bytes32(b2) implies b2 == b@ && s@.len()
                    == j by {
                    assert(s@.subrange(0, s@.len() as int) =~= s@);
                    assert(byte_list_token_at(s@, 0, b2, s@.len() as int));
                    lemma_byte_list_token_unique(s@, 0, b2, s@.len() as int, b@, j as int);
                }
            }
            if j != s.len() || b.len() != 32 {
                return None;
            }
            proof {
                assert(s@.subrange(0, j as int) =~= s@);
            }
            Some(b)
        },
    }
}

// ------------------------------------------------------------------
// Result-typed entry points, matching the persisted-artifact interface
// ------------------------------------------------------------------

/// Restores `SetupParams` from interchange text, reporting malformed text
/// as a codec failure.
pub fn setup_params_from_json(s: &Vec<u8>) -> (r: WrapResult<SetupParams>)
    ensures
        r matches Ok(x) ==> x.wf() && s@ == enc_setup_params(x),
        r matches Err(e) ==> e.kind == ErrorKind::Codec && (forall|x: SetupParams|
            x.wf() ==> s@ != enc_setup_params(x)),
{
    match decode_setup_params(s) {
        Some(x) => Ok(x),
        None => Err(crate::error::err_codec()),
    }
}

/// Restores a replica identity from interchange text, reporting malformed
/// text as a codec failure.
pub fn replica_id_from_json(s: &Vec<u8>) -> (r: WrapResult<ReplicaId>)
    ensures
        r matches Ok(x) ==> x.wf() && s@ == enc_replica_id(x),
        r matches Err(e) ==> e.kind == ErrorKind::Codec && (forall|x: ReplicaId|
            x.wf() ==> s@ != enc_replica_id(x)),
{
    match decode_replica_id(s) {
        Some(x) => Ok(x),
        None => Err(crate::error::err_codec()),
    }
}

/// Restores a challenge seed from interchange text, reporting malformed
/// text as a codec failure.
pub fn chal_seed_from_json(s: &Vec<u8>) -> (r: WrapResult<Vec<u8>>)
    ensures
        r matches Ok(b) ==> b@.len() == 32 && s@ == enc_bytes32(b@),
        r matches Err(e) ==> e.kind == ErrorKind::Codec && (forall|b: Seq<u8>|
            b.len() == 32 ==> s@ != enc_bytes32(b)),
{
    match decode_bytes32(s) {
        Some(b) => Ok(b),
        None => Err(crate::error::err_codec()),
    }
}

/// Restores commitments from interchange text, reporting malformed text as
/// a codec failure.
pub fn p_tau_from_json(s: &Vec<u8>) -> (r: WrapResult<PersistentTau>)
    ensures
        r matches Ok(x) ==> s@ == enc_p_tau(x),
        r matches Err(e) ==> e.kind == ErrorKind::Codec && (forall|x: PersistentTau|
            s@ != enc_p_tau(x)),
{
    match decode_p_tau(s) {
        Some(x) => Ok(x),
        None => Err(crate::error::err_codec()),
    }
}


// ------------------------------------------------------------------
// Construction with defaults
// ------------------------------------------------------------------

/// The bytes of `tree-d`, the cache key naming the data-tree store.
pub open spec fn cache_key_comm_d_tree() -> Seq<u8> {
    seq![116u8, 114u8, 101u8, 101u8, 45u8, 100u8]
}

/// Builds the bytes of `tree-d`.
pub fn mk_cache_key_comm_d_tree() -> (r: Vec<u8>)
    ensures
        r@ == cache_key_comm_d_tree(),
{
    let v: Vec<u8> = vec![116, 114, 101, 101, 45, 100];
    proof {
        assert(v@ =~= cache_key_comm_d_tree());
    }
    v
}

/// Rows of the binary data tree that may be discarded from the on-disk
/// cache: the tree's row count (base and root discounted), capped at
/// seven.
pub open spec fn spec_rows_to_discard(nodes: u64) -> u64 {
    let rc = vstd::std_specs::bits::u64_trailing_zeros((nodes * 2) as u64);
    if rc <= 2 {
        0u64
    } else if rc == 3 {
        1u64
    } else if rc - 2 <= 7 {
        (rc - 2) as u64
    } else {
        7u64
    }
}

/// The default cache depth for a binary tree over `nodes` leaves.
pub fn default_rows_to_discard(nodes: u64) -> (r: u64)
    requires
        nodes * 2 <= u64::MAX,
    ensures
        r == spec_rows_to_discard(nodes),
{
    broadcast use vstd::std_specs::bits::axiom_u64_trailing_zeros;

    let rc: u32 = (nodes * 2).trailing_zeros();
    if rc <= 2 {
        0
    } else if rc == 3 {
        1
    } else if rc - 2 <= 7 {
        (rc - 2) as u64
    } else {
        7
    }
}

/// A fresh 32-byte replication-graph identifier, randomly drawn.
pub fn new_porep_id() -> (r: Vec<u8>)
    ensures
        r@.len() == 32,
{
    crate::util::rand_bytes()
}

/// A fresh 32-byte challenge seed, randomly drawn.
pub fn new_chal_seed() -> (r: Vec<u8>)
    ensures
        r@.len() == 32,
{
    crate::util::rand_bytes()
}

/// A fresh replica identity: a randomly drawn domain element.
pub fn new_replica_id() -> (r: ReplicaId)
    ensures
        r.wf(),
{
    ReplicaId { limbs: crate::util::random_domain_limbs() }
}

/// Setup parameters with the default graph shape and a freshly drawn
/// replication-graph identifier.
pub fn new_setup_params_with_defaults(nodes: u64) -> (r: SetupParams)
    ensures
        r.wf(),
        r.nodes == nodes,
        r.degree == DEFAULT_BASE_DEGREE,
        r.expansion_degree == DEFAULT_EXP_DEGREE,
        r.layer_challenges == (LayerChallenges { layers: DEFAULT_LAYER, max_count: DEFAULT_MAX_COUNT }),
{
    SetupParams {
        nodes,
        degree: DEFAULT_BASE_DEGREE,
        expansion_degree: DEFAULT_EXP_DEGREE,
        porep_id: new_porep_id(),
        layer_challenges: LayerChallenges { layers: DEFAULT_LAYER, max_count: DEFAULT_MAX_COUNT },
    }
}

/// A store configuration for the data tree rooted at `out`, with the
/// default cache depth for `nodes` leaves.
pub fn new_store_cfg_with_defaults(nodes: u64, out: &Vec<u8>) -> (r: crate::store::StoreConfig)
    requires
        crate::json::plain_text(out@),
        nodes * 2 <= u64::MAX,
    ensures
        r.wf(),
        r.path@ == out@,
        r.id@ == cache_key_comm_d_tree(),
        r.size is None,
        r.rows_to_discard == spec_rows_to_discard(nodes),
{
    let cfg = crate::store::StoreConfig {
        path: out.clone(),
        id: mk_cache_key_comm_d_tree(),
        size: None,
        rows_to_discard: default_rows_to_discard(nodes),
    };
    proof {
        assert(crate::json::plain_text(cfg.id@)) by {
            assert forall|k: int| 0 <= k < cfg.id@.len() implies cfg.id@[k] >= 32 && cfg.id@[k]
                != 34 && cfg.id@[k] != 92 by {
            }
        }
    }
    cfg
}

/// The default setup for a source of `nodes` nodes: a data-tree store
/// configuration rooted at `out`, and setup parameters built around the
/// supplied replication-graph identifier.
pub fn default_setup(nodes: u64, out: &Vec<u8>, porep_id: Vec<u8>) -> (r: (
    crate::store::StoreConfig,
    SetupParams,
))
    requires
        crate::json::plain_text(out@),
        nodes * 2 <= u64::MAX,
        porep_id@.len() == 32,
    ensures
        r.0.wf(),
        r.0.path@ == out@,
        r.0.id@ == cache_key_comm_d_tree(),
        r.0.size is None,
        r.0.rows_to_discard == spec_rows_to_discard(nodes),
        r.1.wf(),
        r.1.nodes == nodes,
        r.1.degree == DEFAULT_BASE_DEGREE,
        r.1.expansion_degree == DEFAULT_EXP_DEGREE,
        r.1.porep_id@ == porep_id@,
        r.1.layer_challenges == (LayerChallenges { layers: DEFAULT_LAYER, max_count: DEFAULT_MAX_COUNT }),
{
    let cfg = new_store_cfg_with_defaults(nodes, out);
    let sp = SetupParams {
        nodes,
        degree: DEFAULT_BASE_DEGREE,
        expansion_degree: DEFAULT_EXP_DEGREE,
        porep_id,
        layer_challenges: LayerChallenges { layers: DEFAULT_LAYER, max_count: DEFAULT_MAX_COUNT },
    };
    (cfg, sp)
}


/// Two setup-parameter records that agree field by field.
pub open spec fn sp_eq(a: SetupParams, b: SetupParams) -> bool {
    a.nodes == b.nodes && a.degree == b.degree && a.expansion_degree == b.expansion_degree
        && a.porep_id@ == b.porep_id@ && a.layer_challenges == b.layer_challenges
}

impl SetupParams {
    /// An exact copy.
    pub fn duplicate(&self) -> (r: SetupParams)
        ensures
            sp_eq(r, *self),
    {
        SetupParams {
            nodes: self.nodes,
            degree: self.degree,
            expansion_degree: self.expansion_degree,
            porep_id: crate::json::copy_bytes(&self.porep_id),
            layer_challenges: self.layer_challenges,
        }
    }
}

/// Two replica identities that agree limb by limb.
pub open spec fn rid_eq(a: ReplicaId, b: ReplicaId) -> bool {
    a.limbs@ == b.limbs@
}

impl ReplicaId {
    /// An exact copy.
    pub fn duplicate(&self) -> (r: ReplicaId)
        ensures
            rid_eq(r, *self),
    {
        ReplicaId { limbs: crate::json::copy_u64s(&self.limbs) }
    }
}

/// Two commitment pairs that agree digest by digest.
pub open spec fn tau_eq(a: Tau, b: Tau) -> bool {
    a.comm_d@ == b.comm_d@ && a.comm_r@ == b.comm_r@
}

impl Tau {
    /// An exact copy.
    pub fn duplicate(&self) -> (r: Tau)
        ensures
            tau_eq(r, *self),
    {
        Tau {
            comm_d: crate::json::copy_bytes(&self.comm_d),
            comm_r: crate::json::copy_bytes(&self.comm_r),
        }
    }
}


/// Round trip: two 32-byte values with the same canonical text are equal.
pub proof fn lemma_bytes32_round_trip(a: Seq<u8>, b: Seq<u8>)
    requires
        enc_bytes32(a) == enc_bytes32(b),
    ensures
        a == b,
{
    let s = enc_bytes32(a);
    assert(s.subrange(0, s.len() as int) =~= s);
    assert(byte_list_token_at(s, 0, a, s.len() as int));
    assert(byte_list_token_at(s, 0, b, s.len() as int));
    lemma_byte_list_token_unique(s, 0, a, s.len() as int, b, s.len() as int);
}

} // verus!
