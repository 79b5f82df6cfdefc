//! The on-disk store descriptions and the auxiliary structures produced by
//! replication, with their canonical interchange form.

use vstd::prelude::*;

use crate::error::{Error, ErrorKind, WrapResult};
use crate::json::{
    enc_u64, enc_u64_list, expect, is_digit, jstr_token_at, lemma_enc_nat_shape, lemma_join,
    lemma_jstr_token_unique, lemma_list_token_unique, lemma_num_token_unique, lemma_split,
    list_token_at, num_token_at, parse_jstr, parse_u64, parse_u64_list, plain_text, enc_jstr,
    write_jstr, write_bytes, write_u64, write_u64_list,
};

verus! {

/// Where and how one merkle-tree or label store is laid out on disk.
#[derive(Clone, Debug)]
pub struct StoreConfig {
    /// Directory in which the store is persisted.
    pub path: Vec<u8>,
    /// Identifier naming the store within the directory.
    pub id: Vec<u8>,
    /// Number of elements in the store, when known.
    pub size: Option<u64>,
    /// Number of merkle-tree rows discarded from the on-disk cache.
    pub rows_to_discard: u64,
}

impl StoreConfig {
    /// Paths and identifiers are persisted verbatim, so they must need no
    /// escaping.
    pub open spec fn wf(&self) -> bool {
        plain_text(self.path@) && plain_text(self.id@)
    }
}

/// Tag bytes of `{"path":`.
pub open spec fn t_sc_path() -> Seq<u8> {
    seq![123u8, 34u8, 112u8, 97u8, 116u8, 104u8, 34u8, 58u8]
}

/// Builds the tag bytes of `{"path":`.
pub fn tag_sc_path() -> (r: Vec<u8>)
    ensures
        r@ == t_sc_path(),
{
    let v: Vec<u8> = vec![123, 34, 112, 97, 116, 104, 34, 58];
    proof {
        assert(v@ =~= t_sc_path());
    }
    v
}

/// Tag bytes of `,"id":`.
pub open spec fn t_sc_id() -> Seq<u8> {
    seq![44u8, 34u8, 105u8, 100u8, 34u8, 58u8]
}

/// Builds the tag bytes of `,"id":`.
pub fn tag_sc_id() -> (r: Vec<u8>)
    ensures
        r@ == t_sc_id(),
{
    let v: Vec<u8> = vec![44, 34, 105, 100, 34, 58];
    proof {
        assert(v@ =~= t_sc_id());
    }
    v
}

/// Tag bytes of `,"size":`.
pub open spec fn t_sc_size() -> Seq<u8> {
    seq![44u8, 34u8, 115u8, 105u8, 122u8, 101u8, 34u8, 58u8]
}

/// Builds the tag bytes of `,"size":`.
pub fn tag_sc_size() -> (r: Vec<u8>)
    ensures
        r@ == t_sc_size(),
{
    let v: Vec<u8> = vec![44, 34, 115, 105, 122, 101, 34, 58];
    proof {
        assert(v@ =~= t_sc_size());
    }
    v
}

/// Tag bytes of `,"rows_to_discard":`.
pub open spec fn t_sc_rows() -> Seq<u8> {
    seq![44u8, 34u8, 114u8, 111u8, 119u8, 115u8, 95u8, 116u8, 111u8, 95u8, 100u8, 105u8, 115u8, 99u8, 97u8, 114u8, 100u8, 34u8, 58u8]
}

/// Builds the tag bytes of `,"rows_to_discard":`.
pub fn tag_sc_rows() -> (r: Vec<u8>)
    ensures
        r@ == t_sc_rows(),
{
    let v: Vec<u8> = vec![44, 34, 114, 111, 119, 115, 95, 116, 111, 95, 100, 105, 115, 99, 97, 114, 100, 34, 58];
    proof {
        assert(v@ =~= t_sc_rows());
    }
    v
}

/// Tag bytes of `null`.
pub open spec fn t_null() -> Seq<u8> {
    seq![110u8, 117u8, 108u8, 108u8]
}

/// Builds the tag bytes of `null`.
pub fn tag_null() -> (r: Vec<u8>)
    ensures
        r@ == t_null(),
{
    let v: Vec<u8> = vec![110, 117, 108, 108];
    proof {
        assert(v@ =~= t_null());
    }
    v
}

/// Tag bytes of `{"comm_c":`.
pub open spec fn t_paux_comm_c() -> Seq<u8> {
    seq![123u8, 34u8, 99u8, 111u8, 109u8, 109u8, 95u8, 99u8, 34u8, 58u8]
}

/// Builds the tag bytes of `{"comm_c":`.
pub fn tag_paux_comm_c() -> (r: Vec<u8>)
    ensures
        r@ == t_paux_comm_c(),
{
    let v: Vec<u8> = vec![123, 34, 99, 111, 109, 109, 95, 99, 34, 58];
    proof {
        assert(v@ =~= t_paux_comm_c());
    }
    v
}

/// Tag bytes of `,"comm_r_last":`.
pub open spec fn t_paux_comm_r_last() -> Seq<u8> {
    seq![44u8, 34u8, 99u8, 111u8, 109u8, 109u8, 95u8, 114u8, 95u8, 108u8, 97u8, 115u8, 116u8, 34u8, 58u8]
}

/// Builds the tag bytes of `,"comm_r_last":`.
pub fn tag_paux_comm_r_last() -> (r: Vec<u8>)
    ensures
        r@ == t_paux_comm_r_last(),
{
    let v: Vec<u8> = vec![44, 34, 99, 111, 109, 109, 95, 114, 95, 108, 97, 115, 116, 34, 58];
    proof {
        assert(v@ =~= t_paux_comm_r_last());
    }
    v
}

/// Tag bytes of `{"labels":{"labels":`.
pub open spec fn t_taux_labels() -> Seq<u8> {
    seq![123u8, 34u8, 108u8, 97u8, 98u8, 101u8, 108u8, 115u8, 34u8, 58u8, 123u8, 34u8, 108u8, 97u8, 98u8, 101u8, 108u8, 115u8, 34u8, 58u8]
}

/// Builds the tag bytes of `{"labels":{"labels":`.
pub fn tag_taux_labels() -> (r: Vec<u8>)
    ensures
        r@ == t_taux_labels(),
{
    let v: Vec<u8> = vec![123, 34, 108, 97, 98, 101, 108, 115, 34, 58, 123, 34, 108, 97, 98, 101, 108, 115, 34, 58];
    proof {
        assert(v@ =~= t_taux_labels());
    }
    v
}

/// Tag bytes of `,"_h":null}`.
pub open spec fn t_taux_h() -> Seq<u8> {
    seq![44u8, 34u8, 95u8, 104u8, 34u8, 58u8, 110u8, 117u8, 108u8, 108u8, 125u8]
}

/// Builds the tag bytes of `,"_h":null}`.
pub fn tag_taux_h() -> (r: Vec<u8>)
    ensures
        r@ == t_taux_h(),
{
    let v: Vec<u8> = vec![44, 34, 95, 104, 34, 58, 110, 117, 108, 108, 125];
    proof {
        assert(v@ =~= t_taux_h());
    }
    v
}

/// Tag bytes of `,"tree_d_config":`.
pub open spec fn t_taux_tree_d() -> Seq<u8> {
    seq![44u8, 34u8, 116u8, 114u8, 101u8, 101u8, 95u8, 100u8, 95u8, 99u8, 111u8, 110u8, 102u8, 105u8, 103u8, 34u8, 58u8]
}

/// Builds the tag bytes of `,"tree_d_config":`.
pub fn tag_taux_tree_d() -> (r: Vec<u8>)
    ensures
        r@ == t_taux_tree_d(),
{
    let v: Vec<u8> = vec![44, 34, 116, 114, 101, 101, 95, 100, 95, 99, 111, 110, 102, 105, 103, 34, 58];
    proof {
        assert(v@ =~= t_taux_tree_d());
    }
    v
}

/// Tag bytes of `,"tree_r_last_config":`.
pub open spec fn t_taux_tree_r() -> Seq<u8> {
    seq![44u8, 34u8, 116u8, 114u8, 101u8, 101u8, 95u8, 114u8, 95u8, 108u8, 97u8, 115u8, 116u8, 95u8, 99u8, 111u8, 110u8, 102u8, 105u8, 103u8, 34u8, 58u8]
}

/// Builds the tag bytes of `,"tree_r_last_config":`.
pub fn tag_taux_tree_r() -> (r: Vec<u8>)
    ensures
        r@ == t_taux_tree_r(),
{
    let v: Vec<u8> = vec![44, 34, 116, 114, 101, 101, 95, 114, 95, 108, 97, 115, 116, 95, 99, 111, 110, 102, 105, 103, 34, 58];
    proof {
        assert(v@ =~= t_taux_tree_r());
    }
    v
}

/// Tag bytes of `,"tree_c_config":`.
pub open spec fn t_taux_tree_c() -> Seq<u8> {
    seq![44u8, 34u8, 116u8, 114u8, 101u8, 101u8, 95u8, 99u8, 95u8, 99u8, 111u8, 110u8, 102u8, 105u8, 103u8, 34u8, 58u8]
}

/// Builds the tag bytes of `,"tree_c_config":`.
pub fn tag_taux_tree_c() -> (r: Vec<u8>)
    ensures
        r@ == t_taux_tree_c(),
{
    let v: Vec<u8> = vec![44, 34, 116, 114, 101, 101, 95, 99, 95, 99, 111, 110, 102, 105, 103, 34, 58];
    proof {
        assert(v@ =~= t_taux_tree_c());
    }
    v
}

/// Tag bytes of `,"_g":null}`.
pub open spec fn t_taux_g() -> Seq<u8> {
    seq![44u8, 34u8, 95u8, 103u8, 34u8, 58u8, 110u8, 117u8, 108u8, 108u8, 125u8]
}

/// Builds the tag bytes of `,"_g":null}`.
pub fn tag_taux_g() -> (r: Vec<u8>)
    ensures
        r@ == t_taux_g(),
{
    let v: Vec<u8> = vec![44, 34, 95, 103, 34, 58, 110, 117, 108, 108, 125];
    proof {
        assert(v@ =~= t_taux_g());
    }
    v
}


// ------------------------------------------------------------------
// Optional numbers: a number, or the word null
// ------------------------------------------------------------------

/// Canonical encoding of an optional number.
pub open spec fn enc_opt_u64(o: Option<u64>) -> Seq<u8> {
    match o {
        Option::None => t_null(),
        Option::Some(n) => enc_u64(n),
    }
}

/// The canonical optional-number token standing in `s` at position `i`.
pub open spec fn opt_token_at(s: Seq<u8>, i: int, o: Option<u64>, j: int) -> bool {
    &&& 0 <= i
    &&& j == i + enc_opt_u64(o).len()
    &&& j <= s.len()
    &&& s.subrange(i, j) == enc_opt_u64(o)
    &&& (o is Some ==> j == s.len() || !is_digit(s[j]))
}

/// At one position there is at most one optional-number token.
pub proof fn lemma_opt_token_unique(s: Seq<u8>, i: int, o1: Option<u64>, j1: int, o2: Option<u64>, j2: int)
    requires
        opt_token_at(s, i, o1, j1),
        opt_token_at(s, i, o2, j2),
    ensures
        o1 == o2,
        j1 == j2,
{
    if o1 is Some && o2 is Some {
        lemma_num_token_unique(s, i, o1->0, j1, o2->0, j2);
    } else if o1 is None && o2 is Some {
        lemma_enc_nat_shape((o2->0) as nat);
        assert(s[i] == s.subrange(i, j1)[0]);
        assert(s[i] == 110);
        assert(s[i] == s.subrange(i, j2)[0]);
        assert(is_digit(s[i]));
        assert(false);
    } else if o1 is Some && o2 is None {
        lemma_enc_nat_shape((o1->0) as nat);
        assert(s[i] == s.subrange(i, j2)[0]);
        assert(s[i] == 110);
        assert(s[i] == s.subrange(i, j1)[0]);
        assert(is_digit(s[i]));
        assert(false);
    }
}

/// Appends the canonical encoding of the optional number `o`.
pub fn write_opt_u64(out: &mut Vec<u8>, o: &Option<u64>)
    ensures
        final(out)@ == old(out)@ + enc_opt_u64(*o),
{
    match o {
        Option::None => {
            let t = tag_null();
            write_bytes(out, &t);
        },
        Option::Some(n) => {
            write_u64(out, *n);
        },
    }
}

/// Reads the optional-number token at position `i`.  Returns `None` exactly
/// when none stands there.
pub fn parse_opt_u64(s: &Vec<u8>, i: usize) -> (r: Option<(Option<u64>, usize)>)
    requires
        i <= s@.len(),
    ensures
        match r {
            Some((o, j)) => opt_token_at(s@, i as int, o, j as int),
            None => forall|o: Option<u64>, j: int| !opt_token_at(s@, i as int, o, j),
        },
{
    if i < s.len() && s[i] == 110 {
        let t = tag_null();
        let step = expect(s, i, &t);
        match step {
            Some(j) => {
                return Some((None, j));
            },
            None => {
                proof {
                    assert forall|o: Option<u64>, j: int| !opt_token_at(s@, i as int, o, j) by {
                        if opt_token_at(s@, i as int, o, j) {
                            if o is Some {
                                lemma_enc_nat_shape((o->0) as nat);
                                assert(s@[i as int] == s@.subrange(i as int, j)[0]);
                                assert(false);
                            } else {
                                assert(s@.subrange(i as int, j) == t_null());
                            }
                        }
                    }
                }
                return None;
            },
        }
    }
    let step = parse_u64(s, i);
    match step {
        Some((n, j)) => Some((Some(n), j)),
        None => {
            proof {
                assert forall|o: Option<u64>, j: int| !opt_token_at(s@, i as int, o, j) by {
                    if opt_token_at(s@, i as int, o, j) {
                        if o is None {
                            assert(s@[i as int] == s@.subrange(i as int, j)[0]);
                            assert(s@[i as int] == 110);
                            assert(false);
                        } else {
                            assert(num_token_at(s@, i as int, o->0, j));
                        }
                    }
                }
            }
            None
        },
    }
}

// ------------------------------------------------------------------
// Store configuration:
// {"path":"..","id":"..","size":S,"rows_to_discard":R}
// ------------------------------------------------------------------

/// Canonical encoding of a `StoreConfig`.
pub open spec fn enc_store_config(c: StoreConfig) -> Seq<u8> {
    t_sc_path() + enc_jstr(c.path@) + t_sc_id() + enc_jstr(c.id@) + t_sc_size() + enc_opt_u64(
        c.size,
    ) + t_sc_rows() + enc_u64(c.rows_to_discard) + seq![125u8]
}

/// End of the `path` string, relative to the token start.
pub open spec fn sc_p2(c: StoreConfig) -> int {
    t_sc_path().len() + enc_jstr(c.path@).len() as int
}

/// End of the `id` string.
pub open spec fn sc_p4(c: StoreConfig) -> int {
    sc_p2(c) + t_sc_id().len() + enc_jstr(c.id@).len()
}

/// End of the `size` value.
pub open spec fn sc_p6(c: StoreConfig) -> int {
    sc_p4(c) + t_sc_size().len() + enc_opt_u64(c.size).len()
}

/// End of the `rows_to_discard` number.
pub open spec fn sc_p8(c: StoreConfig) -> int {
    sc_p6(c) + t_sc_rows().len() + enc_u64(c.rows_to_discard).len()
}

/// The canonical `StoreConfig` token standing in `s` at position `i`.
pub open spec fn sc_token_at(s: Seq<u8>, i: int, c: StoreConfig, j: int) -> bool {
    &&& 0 <= i
    &&& c.wf()
    &&& j == i + enc_store_config(c).len()
    &&& j <= s.len()
    &&& s.subrange(i, j) == enc_store_config(c)
}

/// Where each component of a `StoreConfig` token stands.
#[verifier::rlimit(100)]
#[verifier::spinoff_prover]
pub proof fn lemma_sc_components(s: Seq<u8>, i: int, c: StoreConfig, j: int)
    requires
        sc_token_at(s, i, c, j),
    ensures
        s.subrange(i, i + t_sc_path().len()) == t_sc_path(),
        jstr_token_at(s, i + t_sc_path().len(), c.path@, i + sc_p2(c)),
        s.subrange(i + sc_p2(c), i + sc_p2(c) + t_sc_id().len()) == t_sc_id(),
        jstr_token_at(s, i + sc_p2(c) + t_sc_id().len(), c.id@, i + sc_p4(c)),
        s.subrange(i + sc_p4(c), i + sc_p4(c) + t_sc_size().len()) == t_sc_size(),
        opt_token_at(s, i + sc_p4(c) + t_sc_size().len(), c.size, i + sc_p6(c)),
        s.subrange(i + sc_p6(c), i + sc_p6(c) + t_sc_rows().len()) == t_sc_rows(),
        num_token_at(s, i + sc_p6(c) + t_sc_rows().len(), c.rows_to_discard, i + sc_p8(c)),
        s[i + sc_p8(c)] == 125,
        j == i + sc_p8(c) + 1,
{
    let t1 = t_sc_path();
    let a = enc_jstr(c.path@);
    let t2 = t_sc_id();
    let b = enc_jstr(c.id@);
    let t3 = t_sc_size();
    let d = enc_opt_u64(c.size);
    let t4 = t_sc_rows();
    let e = enc_u64(c.rows_to_discard);
    lemma_split(s, i, t1 + a + t2 + b + t3 + d + t4 + e, seq![125u8], j);
    lemma_split(s, i, t1 + a + t2 + b + t3 + d + t4, e, i + sc_p8(c));
    lemma_split(s, i, t1 + a + t2 + b + t3 + d, t4, i + sc_p6(c) + t4.len());
    lemma_split(s, i, t1 + a + t2 + b + t3, d, i + sc_p6(c));
    lemma_split(s, i, t1 + a + t2 + b, t3, i + sc_p4(c) + t3.len());
    lemma_split(s, i, t1 + a + t2, b, i + sc_p4(c));
    lemma_split(s, i, t1 + a, t2, i + sc_p2(c) + t2.len());
    lemma_split(s, i, t1, a, i + sc_p2(c));
    assert(s[i + sc_p6(c)] == s.subrange(i + sc_p6(c), i + sc_p6(c) + t4.len())[0]);
    assert(s[i + sc_p6(c)] == 44);
    assert(s[i + sc_p8(c)] == s.subrange(i + sc_p8(c), j)[0]);
    lemma_enc_nat_shape(c.rows_to_discard as nat);
}

/// At one position there is at most one `StoreConfig` token.
pub proof fn lemma_sc_token_unique(s: Seq<u8>, i: int, c1: StoreConfig, j1: int, c2: StoreConfig, j2: int)
    requires
        sc_token_at(s, i, c1, j1),
        sc_token_at(s, i, c2, j2),
    ensures
        c1.path@ == c2.path@,
        c1.id@ == c2.id@,
        c1.size == c2.size,
        c1.rows_to_discard == c2.rows_to_discard,
        j1 == j2,
{
    lemma_sc_components(s, i, c1, j1);
    lemma_sc_components(s, i, c2, j2);
    lemma_jstr_token_unique(
        s,
        i + t_sc_path().len(),
        c1.path@,
        i + sc_p2(c1),
        c2.path@,
        i + sc_p2(c2),
    );
    lemma_jstr_token_unique(
        s,
        i + sc_p2(c1) + t_sc_id().len(),
        c1.id@,
        i + sc_p4(c1),
        c2.id@,
        i + sc_p4(c2),
    );
    lemma_opt_token_unique(
        s,
        i + sc_p4(c1) + t_sc_size().len(),
        c1.size,
        i + sc_p6(c1),
        c2.size,
        i + sc_p6(c2),
    );
    lemma_num_token_unique(
        s,
        i + sc_p6(c1) + t_sc_rows().len(),
        c1.rows_to_discard,
        i + sc_p8(c1),
        c2.rows_to_discard,
        i + sc_p8(c2),
    );
}

/// Appends the canonical encoding of `c`.
pub fn write_store_config(out: &mut Vec<u8>, c: &StoreConfig)
    requires
        c.wf(),
    ensures
        final(out)@ == old(out)@ + enc_store_config(*c),
{
    let t1 = tag_sc_path();
    write_bytes(out, &t1);
    write_jstr(out, &c.path);
    let t2 = tag_sc_id();
    write_bytes(out, &t2);
    write_jstr(out, &c.id);
    let t3 = tag_sc_size();
    write_bytes(out, &t3);
    write_opt_u64(out, &c.size);
    let t4 = tag_sc_rows();
    write_bytes(out, &t4);
    write_u64(out, c.rows_to_discard);
    out.push(125);
    proof {
        assert(out@ =~= old(out)@ + enc_store_config(*c));
    }
}

/// Reads the `StoreConfig` token at position `i`.  Returns `None` exactly
/// when none stands there.
pub fn parse_store_config(s: &Vec<u8>, i: usize) -> (r: Option<(StoreConfig, usize)>)
    requires
        i <= s@.len(),
    ensures
        match r {
            Some((c, j)) => sc_token_at(s@, i as int, c, j as int),
            None => forall|c: StoreConfig, j: int| !sc_token_at(s@, i as int, c, j),
        },
{
    let t1 = tag_sc_path();
    let step1 = expect(s, i, &t1);
    if step1.is_none() {
        proof {
            assert forall|c: StoreConfig, j: int| !sc_token_at(s@, i as int, c, j) by {
                if sc_token_at(s@, i as int, c, j) {
                    lemma_sc_components(s@, i as int, c, j);
                }
            }
        }
        return None;
    }
    let c1 = step1.unwrap();
    let step2 = parse_jstr(s, c1);
    if step2.is_none() {
        proof {
            assert forall|c: StoreConfig, j: int| !sc_token_at(s@, i as int, c, j) by {
                if sc_token_at(s@, i as int, c, j) {
                    lemma_sc_components(s@, i as int, c, j);
                }
            }
        }
        return None;
    }
    let (path, e1) = step2.unwrap();
    proof {
        assert forall|c: StoreConfig, j: int|
            sc_token_at(s@, i as int, c, j) implies c.path@ == path@ && i + sc_p2(c)
            == e1 as int by {
            lemma_sc_components(s@, i as int, c, j);
            lemma_jstr_token_unique(s@, c1 as int, c.path@, i + sc_p2(c), path@, e1 as int);
        }
    }
    let t2 = tag_sc_id();
    let step3 = expect(s, e1, &t2);
    if step3.is_none() {
        proof {
            assert forall|c: StoreConfig, j: int| !sc_token_at(s@, i as int, c, j) by {
                if sc_token_at(s@, i as int, c, j) {
                    lemma_sc_components(s@, i as int, c, j);
                }
            }
        }
        return None;
    }
    let c2 = step3.unwrap();
    let step4 = parse_jstr(s, c2);
    if step4.is_none() {
        proof {
            assert forall|c: StoreConfig, j: int| !sc_token_at(s@, i as int, c, j) by {
                if sc_token_at(s@, i as int, c, j) {
                    lemma_sc_components(s@, i as int, c, j);
                }
            }
        }
        return None;
    }
    let (id, e2) = step4.unwrap();
    proof {
        assert forall|c: StoreConfig, j: int|
            sc_token_at(s@, i as int, c, j) implies c.id@ == id@ && i + sc_p4(c) == e2 as int by {
            lemma_sc_components(s@, i as int, c, j);
            lemma_jstr_token_unique(s@, c2 as int, c.id@, i + sc_p4(c), id@, e2 as int);
        }
    }
    let t3 = tag_sc_size();
    let step5 = expect(s, e2, &t3);
    if step5.is_none() {
        proof {
            assert forall|c: StoreConfig, j: int| !sc_token_at(s@, i as int, c, j) by {
                if sc_token_at(s@, i as int, c, j) {
                    lemma_sc_components(s@, i as int, c, j);
                }
            }
        }
        return None;
    }
    let c3 = step5.unwrap();
    let step6 = parse_opt_u64(s, c3);
    if step6.is_none() {
        proof {
            assert forall|c: StoreConfig, j: int| !sc_token_at(s@, i as int, c, j) by {
                if sc_token_at(s@, i as int, c, j) {
                    lemma_sc_components(s@, i as int, c, j);
                }
            }
        }
        return None;
    }
    let (size, e3) = step6.unwrap();
    proof {
        assert forall|c: StoreConfig, j: int|
            sc_token_at(s@, i as int, c, j) implies c.size == size && i + sc_p6(c)
            == e3 as int by {
            lemma_sc_components(s@, i as int, c, j);
            lemma_opt_token_unique(s@, c3 as int, c.size, i + sc_p6(c), size, e3 as int);
        }
    }
    let t4 = tag_sc_rows();
    let step7 = expect(s, e3, &t4);
    if step7.is_none() {
        proof {
            assert forall|c: StoreConfig, j: int| !sc_token_at(s@, i as int, c, j) by {
                if sc_token_at(s@, i as int, c, j) {
                    lemma_sc_components(s@, i as int, c, j);
                }
            }
        }
        return None;
    }
    let c4 = step7.unwrap();
    let step8 = parse_u64(s, c4);
    if step8.is_none() {
        proof {
            assert forall|c: StoreConfig, j: int| !sc_token_at(s@, i as int, c, j) by {
                if sc_token_at(s@, i as int, c, j) {
                    lemma_sc_components(s@, i as int, c, j);
                }
            }
        }
        return None;
    }
    let (rows_to_discard, e4) = step8.unwrap();
    proof {
        assert forall|c: StoreConfig, j: int|
            sc_token_at(s@, i as int, c, j) implies c.rows_to_discard == rows_to_discard && i
            + sc_p8(c) == e4 as int by {
            lemma_sc_components(s@, i as int, c, j);
            lemma_num_token_unique(
                s@,
                c4 as int,
                c.rows_to_discard,
                i + sc_p8(c),
                rows_to_discard,
                e4 as int,
            );
        }
    }
    if e4 >= s.len() || s[e4] != 125 {
        proof {
            assert forall|c: StoreConfig, j: int| !sc_token_at(s@, i as int, c, j) by {
                if sc_token_at(s@, i as int, c, j) {
                    lemma_sc_components(s@, i as int, c, j);
                }
            }
        }
        return None;
    }
    let c = StoreConfig { path, id, size, rows_to_discard };
    proof {
        lemma_join(s@, i as int, c1 as int, e1 as int);
        lemma_join(s@, i as int, e1 as int, c2 as int);
        lemma_join(s@, i as int, c2 as int, e2 as int);
        lemma_join(s@, i as int, e2 as int, c3 as int);
        lemma_join(s@, i as int, c3 as int, e3 as int);
        lemma_join(s@, i as int, e3 as int, c4 as int);
        lemma_join(s@, i as int, c4 as int, e4 as int);
        lemma_join(s@, i as int, e4 as int, e4 + 1);
        assert(s@.subrange(e4 as int, e4 + 1) =~= seq![125u8]);
        assert(s@.subrange(i as int, e4 + 1) == enc_store_config(c));
    }
    Some((c, e4 + 1))
}


// ------------------------------------------------------------------
// Lists of store configurations
// ------------------------------------------------------------------

/// The inner items of a canonical JSON list of store configurations.
pub open spec fn enc_sc_items(v: Seq<StoreConfig>) -> Seq<u8>
    decreases v.len(),
{
    if v.len() == 0 {
        Seq::<u8>::empty()
    } else if v.len() == 1 {
        enc_store_config(v[0])
    } else {
        enc_store_config(v[0]) + seq![44u8] + enc_sc_items(v.drop_first())
    }
}

/// Canonical JSON list of store configurations.
pub open spec fn enc_sc_list(v: Seq<StoreConfig>) -> Seq<u8> {
    seq![91u8] + enc_sc_items(v) + seq![93u8]
}

/// Every element is well formed.
pub open spec fn sc_all_wf(v: Seq<StoreConfig>) -> bool {
    forall|k: int| 0 <= k < v.len() ==> (#[trigger] v[k]).wf()
}

/// Adding one element to the end of a list extends its item encoding on the
/// right.
pub proof fn lemma_enc_sc_items_snoc(v: Seq<StoreConfig>, x: StoreConfig)
    ensures
        enc_sc_items(v.push(x)) == if v.len() == 0 {
            enc_store_config(x)
        } else {
            enc_sc_items(v) + seq![44u8] + enc_store_config(x)
        },
    decreases v.len(),
{
    let w = v.push(x);
    if v.len() == 0 {
        assert(w.len() == 1);
        assert(w[0] == x);
    } else if v.len() == 1 {
        assert(w.drop_first() =~= v.drop_first().push(x));
        assert(v.drop_first().push(x) =~= seq![x]);
        assert(enc_sc_items(w) == enc_store_config(v[0]) + seq![44u8] + enc_sc_items(seq![x]));
        assert(enc_sc_items(seq![x]) == enc_store_config(x));
    } else {
        lemma_enc_sc_items_snoc(v.drop_first(), x);
        assert(w.drop_first() =~= v.drop_first().push(x));
        assert(enc_sc_items(w) == enc_store_config(w[0]) + seq![44u8] + enc_sc_items(
            w.drop_first(),
        ));
        assert(enc_sc_items(v) + seq![44u8] + enc_store_config(x) =~= enc_store_config(v[0])
            + seq![44u8] + (enc_sc_items(v.drop_first()) + seq![44u8] + enc_store_config(x)));
    }
}

/// Appends the canonical JSON list encoding of `v`.
pub fn write_sc_list(out: &mut Vec<u8>, v: &Vec<StoreConfig>)
    requires
        sc_all_wf(v@),
    ensures
        final(out)@ == old(out)@ + enc_sc_list(v@),
{
    out.push(91);
    let mut m: usize = 0;
    proof {
        assert(v@.subrange(0, 0) =~= Seq::<StoreConfig>::empty());
    }
    while m < v.len()
        invariant
            m <= v@.len(),
            sc_all_wf(v@),
            out@ == old(out)@ + seq![91u8] + enc_sc_items(v@.subrange(0, m as int)),
        decreases v@.len() - m,
    {
        if m > 0 {
            out.push(44);
        }
        write_store_config(out, &v[m]);
        proof {
            lemma_enc_sc_items_snoc(v@.subrange(0, m as int), v@[m as int]);
            assert(v@.subrange(0, m + 1) =~= v@.subrange(0, m as int).push(v@[m as int]));
            assert(out@ =~= old(out)@ + seq![91u8] + enc_sc_items(v@.subrange(0, m + 1)));
        }
        m = m + 1;
    }
    out.push(93);
    proof {
        assert(v@.subrange(0, v@.len() as int) =~= v@);
        assert(out@ =~= old(out)@ + enc_sc_list(v@));
    }
}

/// The nonempty store-configuration run standing in `s` at position `i`,
/// terminated by the closing bracket that follows it.
pub open spec fn sc_items_token_at(s: Seq<u8>, i: int, v: Seq<StoreConfig>, j: int) -> bool {
    &&& 0 <= i
    &&& v.len() >= 1
    &&& sc_all_wf(v)
    &&& j == i + enc_sc_items(v).len()
    &&& j < s.len()
    &&& s.subrange(i, j) == enc_sc_items(v)
    &&& s[j] == 93
}

/// The first element of a store-configuration run is itself a token, and is
/// followed by a comma or the closing bracket.
pub proof fn lemma_sc_items_head(s: Seq<u8>, i: int, v: Seq<StoreConfig>, j: int)
    requires
        sc_items_token_at(s, i, v, j),
    ensures
        sc_token_at(s, i, v[0], i + enc_store_config(v[0]).len()),
        v.len() == 1 ==> s[i + enc_store_config(v[0]).len()] == 93,
        v.len() >= 2 ==> s[i + enc_store_config(v[0]).len()] == 44,
        v.len() >= 2 ==> sc_items_token_at(
            s,
            i + enc_store_config(v[0]).len() + 1,
            v.drop_first(),
            j,
        ),
{
    let e = enc_store_config(v[0]);
    let k = i + e.len();
    assert(s.subrange(i, k) =~= e) by {
        if v.len() == 1 {
            assert(s.subrange(i, j) == e);
        } else {
            assert forall|m: int| 0 <= m < e.len() implies s.subrange(i, k)[m] == e[m] by {
                assert(s.subrange(i, j)[m] == enc_sc_items(v)[m]);
            }
        }
    }
    if v.len() == 1 {
        assert(s[k] == 93);
    } else {
        assert(s[k] == s.subrange(i, j)[k - i]);
        assert(s[k] == 44);
        assert(s.subrange(k + 1, j) =~= enc_sc_items(v.drop_first())) by {
            assert forall|m: int| 0 <= m < j - k - 1 implies s.subrange(k + 1, j)[m]
                == enc_sc_items(v.drop_first())[m] by {
                assert(s.subrange(i, j)[k + 1 - i + m] == enc_sc_items(v)[k + 1 - i + m]);
            }
        }
        assert(sc_all_wf(v.drop_first())) by {
            assert forall|m: int| 0 <= m < v.drop_first().len() implies (#[trigger] v.drop_first()[m]).wf() by {
                assert(v.drop_first()[m] == v[m + 1]);
            }
        }
    }
}

/// At one position there is at most one store-configuration run.
pub proof fn lemma_sc_items_token_unique(
    s: Seq<u8>,
    i: int,
    v1: Seq<StoreConfig>,
    j1: int,
    v2: Seq<StoreConfig>,
    j2: int,
)
    requires
        sc_items_token_at(s, i, v1, j1),
        sc_items_token_at(s, i, v2, j2),
    ensures
        v1.len() == v2.len(),
        forall|k: int| 0 <= k < v1.len() ==> sc_eq(#[trigger] v1[k], v2[k]),
        j1 == j2,
    decreases v1.len(),
{
    lemma_sc_items_head(s, i, v1, j1);
    lemma_sc_items_head(s, i, v2, j2);
    let k1 = i + enc_store_config(v1[0]).len();
    let k2 = i + enc_store_config(v2[0]).len();
    lemma_sc_token_unique(s, i, v1[0], k1, v2[0], k2);
    if v1.len() == 1 && v2.len() == 1 {
    } else if v1.len() == 1 && v2.len() >= 2 {
        assert(false);
    } else if v1.len() >= 2 && v2.len() == 1 {
        assert(false);
    } else {
        lemma_sc_items_token_unique(s, k1 + 1, v1.drop_first(), j1, v2.drop_first(), j2);
        assert forall|k: int| 0 <= k < v1.len() implies sc_eq(#[trigger] v1[k], v2[k]) by {
            if k > 0 {
                assert(sc_eq(v1.drop_first()[k - 1], v2.drop_first()[k - 1]));
            }
        }
    }
}

/// Two store configurations that agree field by field.
pub open spec fn sc_eq(a: StoreConfig, b: StoreConfig) -> bool {
    a.path@ == b.path@ && a.id@ == b.id@ && a.size == b.size && a.rows_to_discard
        == b.rows_to_discard
}

/// Reads the store-configuration run standing at position `i`.  Returns
/// `None` exactly when no such run stands at `i`.
pub fn parse_sc_items(s: &Vec<u8>, i: usize) -> (r: Option<(Vec<StoreConfig>, usize)>)
    requires
        i <= s@.len(),
    ensures
        match r {
            Some((v, j)) => sc_items_token_at(s@, i as int, v@, j as int),
            None => forall|v: Seq<StoreConfig>, j: int| !sc_items_token_at(s@, i as int, v, j),
        },
    decreases s@.len() - i,
{
    let first = parse_store_config(s, i);
    match first {
        None => {
            proof {
                assert forall|v: Seq<StoreConfig>, j: int|
                    !sc_items_token_at(s@, i as int, v, j) by {
                    if sc_items_token_at(s@, i as int, v, j) {
                        lemma_sc_items_head(s@, i as int, v, j);
                    }
                }
            }
            return None;
        },
        Some((c0, k)) => {
            proof {
                assert forall|v: Seq<StoreConfig>, j: int|
                    sc_items_token_at(s@, i as int, v, j) implies sc_eq(v[0], c0) && i
                    + enc_store_config(v[0]).len() == k as int by {
                    lemma_sc_items_head(s@, i as int, v, j);
                    lemma_sc_token_unique(
                        s@,
                        i as int,
                        v[0],
                        i + enc_store_config(v[0]).len(),
                        c0,
                        k as int,
                    );
                }
                // equal fields give the same encoding end
                assert forall|v: Seq<StoreConfig>, j: int|
                    sc_items_token_at(s@, i as int, v, j) implies enc_store_config(v[0])
                    == enc_store_config(c0) by {
                    lemma_sc_items_head(s@, i as int, v, j);
                    lemma_sc_token_unique(
                        s@,
                        i as int,
                        v[0],
                        i + enc_store_config(v[0]).len(),
                        c0,
                        k as int,
                    );
                    assert(enc_store_config(v[0]) =~= enc_store_config(c0));
                }
            }
            if k >= s.len() {
                return None;
            }
            let b = s[k];
            if b == 93 {
                let mut v: Vec<StoreConfig> = Vec::new();
                v.push(c0);
                proof {
                    assert(enc_sc_items(v@) == enc_store_config(c0));
                    assert(s@.subrange(i as int, k as int) =~= enc_sc_items(v@));
                    assert(sc_all_wf(v@));
                }
                return Some((v, k));
            }
            if b != 44 {
                proof {
                    assert forall|v: Seq<StoreConfig>, j: int|
                        !sc_items_token_at(s@, i as int, v, j) by {
                        if sc_items_token_at(s@, i as int, v, j) {
                            lemma_sc_items_head(s@, i as int, v, j);
                            assert(enc_store_config(v[0]) == enc_store_config(c0));
                            assert(i + enc_store_config(v[0]).len() == k as int);
                        }
                    }
                }
                return None;
            }
            let rest = parse_sc_items(s, k + 1);
            match rest {
                None => {
                    proof {
                        assert forall|v: Seq<StoreConfig>, j: int|
                            !sc_items_token_at(s@, i as int, v, j) by {
                            if sc_items_token_at(s@, i as int, v, j) {
                                lemma_sc_items_head(s@, i as int, v, j);
                            }
                        }
                    }
                    return None;
                },
                Some((mut v, j)) => {
                    let ghost v0 = v@;
                    v.insert(0, c0);
                    proof {
                        assert(v@.drop_first() =~= v0);
                        assert(enc_sc_items(v@) == enc_store_config(c0) + seq![44u8]
                            + enc_sc_items(v@.drop_first()));
                        assert(s@.subrange(i as int, j as int) =~= enc_sc_items(v@)) by {
                            assert(s@.subrange(i as int, k as int) == enc_store_config(c0));
                            assert(s@.subrange(k + 1, j as int) == enc_sc_items(v@.drop_first()));
                            assert forall|m: int|
                                0 <= m < j - i implies s@.subrange(i as int, j as int)[m]
                                == enc_sc_items(v@)[m] by {
                                if m < k as int - i {
                                    assert(s@.subrange(i as int, k as int)[m]
                                        == enc_store_config(c0)[m]);
                                } else if m == k as int - i {
                                } else {
                                    assert(s@.subrange(k + 1, j as int)[m - (k + 1 - i)]
                                        == enc_sc_items(v@.drop_first())[m - (k + 1 - i)]);
                                }
                            }
                        }
                        assert(sc_all_wf(v@)) by {
                            assert forall|m: int| 0 <= m < v@.len() implies (#[trigger] v@[m]).wf() by {
                                if m > 0 {
                                    assert(v@[m] == v0[m - 1]);
                                }
                            }
                        }
                    }
                    return Some((v, j));
                },
            }
        },
    }
}

/// The canonical store-configuration list token standing in `s` at `i`.
pub open spec fn sc_list_token_at(s: Seq<u8>, i: int, v: Seq<StoreConfig>, j: int) -> bool {
    &&& 0 <= i
    &&& sc_all_wf(v)
    &&& j == i + enc_sc_list(v).len()
    &&& j <= s.len()
    &&& s.subrange(i, j) == enc_sc_list(v)
}

/// At one position there is at most one store-configuration list token.
pub proof fn lemma_sc_list_token_unique(
    s: Seq<u8>,
    i: int,
    v1: Seq<StoreConfig>,
    j1: int,
    v2: Seq<StoreConfig>,
    j2: int,
)
    requires
        sc_list_token_at(s, i, v1, j1),
        sc_list_token_at(s, i, v2, j2),
    ensures
        v1.len() == v2.len(),
        forall|k: int| 0 <= k < v1.len() ==> sc_eq(#[trigger] v1[k], v2[k]),
        j1 == j2,
{
    if v1.len() == 0 && v2.len() == 0 {
    } else if v1.len() == 0 && v2.len() >= 1 {
        assert(s[i + 1] == s.subrange(i, j1)[1]);
        assert(s[i + 1] == 93);
        assert(s[i + 1] == s.subrange(i, j2)[1]);
        assert(enc_sc_items(v2)[0] == enc_store_config(v2[0])[0]);
        assert(enc_store_config(v2[0])[0] == 123);
        assert(false);
    } else if v1.len() >= 1 && v2.len() == 0 {
        assert(s[i + 1] == s.subrange(i, j2)[1]);
        assert(s[i + 1] == 93);
        assert(s[i + 1] == s.subrange(i, j1)[1]);
        assert(enc_sc_items(v1)[0] == enc_store_config(v1[0])[0]);
        assert(enc_store_config(v1[0])[0] == 123);
        assert(false);
    } else {
        assert(sc_items_token_at(s, i + 1, v1, j1 - 1)) by {
            assert(s.subrange(i + 1, j1 - 1) =~= enc_sc_items(v1)) by {
                assert forall|m: int| 0 <= m < j1 - 1 - (i + 1) implies s.subrange(i + 1, j1 - 1)[m]
                    == enc_sc_items(v1)[m] by {
                    assert(s.subrange(i, j1)[m + 1] == enc_sc_list(v1)[m + 1]);
                }
            }
            assert(s[j1 - 1] == s.subrange(i, j1)[j1 - 1 - i]);
        }
        assert(sc_items_token_at(s, i + 1, v2, j2 - 1)) by {
            assert(s.subrange(i + 1, j2 - 1) =~= enc_sc_items(v2)) by {
                assert forall|m: int| 0 <= m < j2 - 1 - (i + 1) implies s.subrange(i + 1, j2 - 1)[m]
                    == enc_sc_items(v2)[m] by {
                    assert(s.subrange(i, j2)[m + 1] == enc_sc_list(v2)[m + 1]);
                }
            }
            assert(s[j2 - 1] == s.subrange(i, j2)[j2 - 1 - i]);
        }
        lemma_sc_items_token_unique(s, i + 1, v1, j1 - 1, v2, j2 - 1);
    }
}

/// Reads the store-configuration list token at position `i`.  Returns
/// `None` exactly when none stands there.
pub fn parse_sc_list(s: &Vec<u8>, i: usize) -> (r: Option<(Vec<StoreConfig>, usize)>)
    requires
        i <= s@.len(),
    ensures
        match r {
            Some((v, j)) => sc_list_token_at(s@, i as int, v@, j as int),
            None => forall|v: Seq<StoreConfig>, j: int| !sc_list_token_at(s@, i as int, v, j),
        },
{
    if i >= s.len() || s[i] != 91 {
        proof {
            assert forall|v: Seq<StoreConfig>, j: int| !sc_list_token_at(s@, i as int, v, j) by {
                if sc_list_token_at(s@, i as int, v, j) {
                    assert(s@[i as int] == s@.subrange(i as int, j)[0]);
                    assert(false);
                }
            }
        }
        return None;
    }
    if i + 1 < s.len() && s[i + 1] == 93 {
        let v: Vec<StoreConfig> = Vec::new();
        proof {
            assert(enc_sc_items(v@) =~= Seq::<u8>::empty());
            assert(s@.subrange(i as int, i + 2) =~= enc_sc_list(v@));
        }
        return Some((v, i + 2));
    }
    proof {
        assert forall|v: Seq<StoreConfig>, j: int|
            sc_list_token_at(s@, i as int, v, j) implies v.len() >= 1 && sc_items_token_at(
            s@,
            i + 1,
            v,
            j - 1,
        ) by {
            if v.len() == 0 {
                assert(enc_sc_list(v).len() == 2);
                assert(s@[i + 1] == s@.subrange(i as int, j)[1]);
                assert(s@[i + 1] == 93);
                assert(false);
            }
            assert(s@.subrange(i + 1, j - 1) =~= enc_sc_items(v)) by {
                assert forall|m: int| 0 <= m < j - 1 - (i + 1) implies s@.subrange(i + 1, j - 1)[m]
                    == enc_sc_items(v)[m] by {
                    assert(s@.subrange(i as int, j)[m + 1] == enc_sc_list(v)[m + 1]);
                }
            }
            assert(s@[j - 1] == s@.subrange(i as int, j)[j - 1 - i]);
            assert(s@[j - 1] == 93);
        }
    }
    let rest = parse_sc_items(s, i + 1);
    match rest {
        None => None,
        Some((v, j)) => {
            proof {
                assert(s@.subrange(i as int, j + 1) =~= enc_sc_list(v@)) by {
                    assert(s@.subrange(i + 1, j as int) == enc_sc_items(v@));
                    assert forall|m: int| 0 <= m < j + 1 - i implies s@.subrange(i as int, j + 1)[m]
                        == enc_sc_list(v@)[m] by {
                        if m == 0 {
                        } else if m < j - i {
                            assert(s@.subrange(i + 1, j as int)[m - 1] == enc_sc_items(v@)[m - 1]);
                        } else {
                            assert(s@[j as int] == 93);
                        }
                    }
                }
            }
            Some((v, j + 1))
        },
    }
}


// ------------------------------------------------------------------
// Persistent auxiliary commitments:
// {"comm_c":[..],"comm_r_last":[..]}
// ------------------------------------------------------------------

/// The per-replica commitments kept alongside the sector: two domain
/// elements of four limbs each.
#[derive(Clone, Debug)]
pub struct PersistentAux {
    pub comm_c: Vec<u64>,
    pub comm_r_last: Vec<u64>,
}

impl PersistentAux {
    pub open spec fn wf(&self) -> bool {
        self.comm_c@.len() == 4 && self.comm_r_last@.len() == 4
    }
}

/// Canonical encoding of `PersistentAux`.
pub open spec fn enc_p_aux(x: PersistentAux) -> Seq<u8> {
    t_paux_comm_c() + enc_u64_list(x.comm_c@) + t_paux_comm_r_last() + enc_u64_list(
        x.comm_r_last@,
    ) + seq![125u8]
}

/// End of the `comm_c` list.
pub open spec fn pa_p2(x: PersistentAux) -> int {
    t_paux_comm_c().len() + enc_u64_list(x.comm_c@).len() as int
}

/// End of the `comm_r_last` list.
pub open spec fn pa_p4(x: PersistentAux) -> int {
    pa_p2(x) + t_paux_comm_r_last().len() + enc_u64_list(x.comm_r_last@).len()
}

/// Where each component of an encoded `PersistentAux` document stands.
pub proof fn lemma_pa_components(s: Seq<u8>, x: PersistentAux)
    requires
        s == enc_p_aux(x),
    ensures
        s.len() == pa_p4(x) + 1,
        s.subrange(0, t_paux_comm_c().len() as int) == t_paux_comm_c(),
        list_token_at(s, t_paux_comm_c().len() as int, x.comm_c@, pa_p2(x)),
        s.subrange(pa_p2(x), pa_p2(x) + t_paux_comm_r_last().len()) == t_paux_comm_r_last(),
        list_token_at(s, pa_p2(x) + t_paux_comm_r_last().len(), x.comm_r_last@, pa_p4(x)),
        s[pa_p4(x)] == 125,
{
    let t1 = t_paux_comm_c();
    let a = enc_u64_list(x.comm_c@);
    let t2 = t_paux_comm_r_last();
    let b = enc_u64_list(x.comm_r_last@);
    let n = s.len() as int;
    assert(s.subrange(0, n) =~= s);
    lemma_split(s, 0, t1 + a + t2 + b, seq![125u8], n);
    lemma_split(s, 0, t1 + a + t2, b, pa_p4(x));
    lemma_split(s, 0, t1 + a, t2, pa_p2(x) + t2.len());
    lemma_split(s, 0, t1, a, pa_p2(x));
    assert(s[pa_p4(x)] == s.subrange(pa_p4(x), n)[0]);
}

impl PersistentAux {
    /// Serializes the auxiliary commitments to their canonical text.
    pub fn into_json(&self) -> (r: Vec<u8>)
        ensures
            r@ == enc_p_aux(*self),
    {
        let mut out: Vec<u8> = Vec::new();
        let t1 = tag_paux_comm_c();
        write_bytes(&mut out, &t1);
        write_u64_list(&mut out, &self.comm_c);
        let t2 = tag_paux_comm_r_last();
        write_bytes(&mut out, &t2);
        write_u64_list(&mut out, &self.comm_r_last);
        out.push(125);
        proof {
            assert(out@ =~= enc_p_aux(*self));
        }
        out
    }
}

/// Restores a `PersistentAux` from its canonical interchange text.
/// Succeeds exactly on the canonical encoding of a well-formed record.
pub fn decode_p_aux(s: &Vec<u8>) -> (r: Option<PersistentAux>)
    ensures
        r matches Some(x) ==> x.wf() && s@ == enc_p_aux(x),
        r is None ==> forall|x: PersistentAux| x.wf() ==> s@ != enc_p_aux(x),
{
    let t1 = tag_paux_comm_c();
    let step1 = expect(s, 0, &t1);
    if step1.is_none() {
        proof {
            assert forall|x: PersistentAux| x.wf() implies s@ != enc_p_aux(x) by {
                if s@ == enc_p_aux(x) {
                    lemma_pa_components(s@, x);
                }
            }
        }
        return None;
    }
    let c1 = step1.unwrap();
    let step2 = parse_u64_list(s, c1);
    if step2.is_none() {
        proof {
            assert forall|x: PersistentAux| x.wf() implies s@ != enc_p_aux(x) by {
                if s@ == enc_p_aux(x) {
                    lemma_pa_components(s@, x);
                }
            }
        }
        return None;
    }
    let (comm_c, e1) = step2.unwrap();
    proof {
        assert forall|x: PersistentAux|
            s@ == enc_p_aux(x) implies x.comm_c@ == comm_c@ && pa_p2(x) == e1 as int by {
            lemma_pa_components(s@, x);
            lemma_list_token_unique(s@, c1 as int, x.comm_c@, pa_p2(x), comm_c@, e1 as int);
        }
    }
    let t2 = tag_paux_comm_r_last();
    let step3 = expect(s, e1, &t2);
    if step3.is_none() {
        proof {
            assert forall|x: PersistentAux| x.wf() implies s@ != enc_p_aux(x) by {
                if s@ == enc_p_aux(x) {
                    lemma_pa_components(s@, x);
                }
            }
        }
        return None;
    }
    let c2 = step3.unwrap();
    let step4 = parse_u64_list(s, c2);
    if step4.is_none() {
        proof {
            assert forall|x: PersistentAux| x.wf() implies s@ != enc_p_aux(x) by {
                if s@ == enc_p_aux(x) {
                    lemma_pa_components(s@, x);
                }
            }
        }
        return None;
    }
    let (comm_r_last, e2) = step4.unwrap();
    proof {
        assert forall|x: PersistentAux|
            s@ == enc_p_aux(x) implies x.comm_r_last@ == comm_r_last@ && pa_p4(x)
            == e2 as int by {
            lemma_pa_components(s@, x);
            lemma_list_token_unique(
                s@,
                c2 as int,
                x.comm_r_last@,
                pa_p4(x),
                comm_r_last@,
                e2 as int,
            );
        }
    }
    if comm_c.len() != 4 || comm_r_last.len() != 4 || e2 >= s.len() || s[e2] != 125 || e2 + 1
        != s.len() {
        proof {
            assert forall|x: PersistentAux| x.wf() implies s@ != enc_p_aux(x) by {
                if s@ == enc_p_aux(x) {
                    lemma_pa_components(s@, x);
                }
            }
        }
        return None;
    }
    let x = PersistentAux { comm_c, comm_r_last };
    proof {
        lemma_join(s@, 0, c1 as int, e1 as int);
        lemma_join(s@, 0, e1 as int, c2 as int);
        lemma_join(s@, 0, c2 as int, e2 as int);
        lemma_join(s@, 0, e2 as int, e2 + 1);
        assert(s@.subrange(e2 as int, e2 + 1) =~= seq![125u8]);
        assert(s@.subrange(0, e2 + 1) == enc_p_aux(x));
        assert(s@.subrange(0, e2 + 1) =~= s@);
    }
    Some(x)
}

/// Round trip: two auxiliary-commitment records with the same canonical
/// text hold the same limbs.
pub proof fn lemma_p_aux_round_trip(x: PersistentAux, y: PersistentAux)
    requires
        enc_p_aux(x) == enc_p_aux(y),
    ensures
        x.comm_c@ == y.comm_c@,
        x.comm_r_last@ == y.comm_r_last@,
{
    let s = enc_p_aux(x);
    lemma_pa_components(s, x);
    lemma_pa_components(s, y);
    lemma_list_token_unique(
        s,
        t_paux_comm_c().len() as int,
        x.comm_c@,
        pa_p2(x),
        y.comm_c@,
        pa_p2(y),
    );
    lemma_list_token_unique(
        s,
        pa_p2(x) + t_paux_comm_r_last().len(),
        x.comm_r_last@,
        pa_p4(x),
        y.comm_r_last@,
        pa_p4(y),
    );
}

// ------------------------------------------------------------------
// Temporary auxiliary state:
// {"labels":{"labels":[..],"_h":null},"tree_d_config":..,
//  "tree_r_last_config":..,"tree_c_config":..,"_g":null}
// ------------------------------------------------------------------

/// The per-layer label stores and tree store layouts produced by
/// replication and reloaded by every later prove.
#[derive(Clone, Debug)]
pub struct TemporaryAux {
    pub labels: Vec<StoreConfig>,
    pub tree_d_config: StoreConfig,
    pub tree_r_last_config: StoreConfig,
    pub tree_c_config: StoreConfig,
}

impl TemporaryAux {
    pub open spec fn wf(&self) -> bool {
        sc_all_wf(self.labels@) && self.tree_d_config.wf() && self.tree_r_last_config.wf()
            && self.tree_c_config.wf()
    }
}

/// Canonical encoding of `TemporaryAux`.
pub open spec fn enc_t_aux(x: TemporaryAux) -> Seq<u8> {
    t_taux_labels() + enc_sc_list(x.labels@) + t_taux_h() + t_taux_tree_d() + enc_store_config(
        x.tree_d_config,
    ) + t_taux_tree_r() + enc_store_config(x.tree_r_last_config) + t_taux_tree_c()
        + enc_store_config(x.tree_c_config) + t_taux_g()
}

/// End of the labels list.
pub open spec fn ta_p2(x: TemporaryAux) -> int {
    t_taux_labels().len() + enc_sc_list(x.labels@).len() as int
}

/// Start of the tree-d configuration.
pub open spec fn ta_p4(x: TemporaryAux) -> int {
    ta_p2(x) + t_taux_h().len() + t_taux_tree_d().len()
}

/// End of the tree-d configuration.
pub open spec fn ta_p5(x: TemporaryAux) -> int {
    ta_p4(x) + enc_store_config(x.tree_d_config).len()
}

/// End of the tree-r-last configuration.
pub open spec fn ta_p7(x: TemporaryAux) -> int {
    ta_p5(x) + t_taux_tree_r().len() + enc_store_config(x.tree_r_last_config).len()
}

/// End of the tree-c configuration.
pub open spec fn ta_p9(x: TemporaryAux) -> int {
    ta_p7(x) + t_taux_tree_c().len() + enc_store_config(x.tree_c_config).len()
}

/// Where each component of an encoded `TemporaryAux` document stands.
#[verifier::rlimit(100)]
#[verifier::spinoff_prover]
pub proof fn lemma_ta_components(s: Seq<u8>, x: TemporaryAux)
    requires
        x.wf(),
        s == enc_t_aux(x),
    ensures
        s.len() == ta_p9(x) + t_taux_g().len(),
        s.subrange(0, t_taux_labels().len() as int) == t_taux_labels(),
        sc_list_token_at(s, t_taux_labels().len() as int, x.labels@, ta_p2(x)),
        s.subrange(ta_p2(x), ta_p2(x) + t_taux_h().len()) == t_taux_h(),
        s.subrange(ta_p2(x) + t_taux_h().len(), ta_p4(x)) == t_taux_tree_d(),
        sc_token_at(s, ta_p4(x), x.tree_d_config, ta_p5(x)),
        s.subrange(ta_p5(x), ta_p5(x) + t_taux_tree_r().len()) == t_taux_tree_r(),
        sc_token_at(s, ta_p5(x) + t_taux_tree_r().len(), x.tree_r_last_config, ta_p7(x)),
        s.subrange(ta_p7(x), ta_p7(x) + t_taux_tree_c().len()) == t_taux_tree_c(),
        sc_token_at(s, ta_p7(x) + t_taux_tree_c().len(), x.tree_c_config, ta_p9(x)),
        s.subrange(ta_p9(x), s.len() as int) == t_taux_g(),
{
    let t1 = t_taux_labels();
    let a = enc_sc_list(x.labels@);
    let t2 = t_taux_h();
    let t3 = t_taux_tree_d();
    let b = enc_store_config(x.tree_d_config);
    let t4 = t_taux_tree_r();
    let c = enc_store_config(x.tree_r_last_config);
    let t5 = t_taux_tree_c();
    let d = enc_store_config(x.tree_c_config);
    let n = s.len() as int;
    assert(s.subrange(0, n) =~= s);
    lemma_split(s, 0, t1 + a + t2 + t3 + b + t4 + c + t5 + d, t_taux_g(), n);
    lemma_split(s, 0, t1 + a + t2 + t3 + b + t4 + c + t5, d, ta_p9(x));
    lemma_split(s, 0, t1 + a + t2 + t3 + b + t4 + c, t5, ta_p7(x) + t5.len());
    lemma_split(s, 0, t1 + a + t2 + t3 + b + t4, c, ta_p7(x));
    lemma_split(s, 0, t1 + a + t2 + t3 + b, t4, ta_p5(x) + t4.len());
    lemma_split(s, 0, t1 + a + t2 + t3, b, ta_p5(x));
    lemma_split(s, 0, t1 + a + t2, t3, ta_p4(x));
    lemma_split(s, 0, t1 + a, t2, ta_p2(x) + t2.len());
    lemma_split(s, 0, t1, a, ta_p2(x));
}

impl TemporaryAux {
    /// Serializes the temporary auxiliary state to its canonical text.
    pub fn into_json(&self) -> (r: Vec<u8>)
        requires
            self.wf(),
        ensures
            r@ == enc_t_aux(*self),
    {
        let mut out: Vec<u8> = Vec::new();
        let t1 = tag_taux_labels();
        write_bytes(&mut out, &t1);
        write_sc_list(&mut out, &self.labels);
        let t2 = tag_taux_h();
        write_bytes(&mut out, &t2);
        let t3 = tag_taux_tree_d();
        write_bytes(&mut out, &t3);
        write_store_config(&mut out, &self.tree_d_config);
        let t4 = tag_taux_tree_r();
        write_bytes(&mut out, &t4);
        write_store_config(&mut out, &self.tree_r_last_config);
        let t5 = tag_taux_tree_c();
        write_bytes(&mut out, &t5);
        write_store_config(&mut out, &self.tree_c_config);
        let t6 = tag_taux_g();
        write_bytes(&mut out, &t6);
        proof {
            assert(out@ =~= enc_t_aux(*self));
        }
        out
    }
}

/// Restores a `TemporaryAux` from its canonical interchange text.
/// Succeeds exactly on the canonical encoding of a well-formed record.
#[verifier::rlimit(100)]
#[verifier::spinoff_prover]
pub fn decode_t_aux(s: &Vec<u8>) -> (r: Option<TemporaryAux>)
    ensures
        r matches Some(x) ==> x.wf() && s@ == enc_t_aux(x),
        r is None ==> forall|x: TemporaryAux| x.wf() ==> s@ != enc_t_aux(x),
{
    let t1 = tag_taux_labels();
    let step1 = expect(s, 0, &t1);
    if step1.is_none() {
        proof {
            assert forall|x: TemporaryAux| x.wf() implies s@ != enc_t_aux(x) by {
                if s@ == enc_t_aux(x) {
                    lemma_ta_components(s@, x);
                }
            }
        }
        return None;
    }
    let c1 = step1.unwrap();
    let step2 = parse_sc_list(s, c1);
    if step2.is_none() {
        proof {
            assert forall|x: TemporaryAux| x.wf() implies s@ != enc_t_aux(x) by {
                if s@ == enc_t_aux(x) {
                    lemma_ta_components(s@, x);
                }
            }
        }
        return None;
    }
    let (labels, e1) = step2.unwrap();
    proof {
        assert forall|x: TemporaryAux|
            x.wf() && s@ == enc_t_aux(x) implies enc_sc_list(x.labels@) == enc_sc_list(labels@)
            && ta_p2(x) == e1 as int by {
            lemma_ta_components(s@, x);
            lemma_sc_list_token_unique(s@, c1 as int, x.labels@, ta_p2(x), labels@, e1 as int);
            assert(enc_sc_list(x.labels@) =~= enc_sc_list(labels@)) by {
                assert(s@.subrange(c1 as int, ta_p2(x)) == enc_sc_list(x.labels@));
                assert(s@.subrange(c1 as int, e1 as int) == enc_sc_list(labels@));
            }
        }
    }
    let t2 = tag_taux_h();
    let step3 = expect(s, e1, &t2);
    if step3.is_none() {
        proof {
            assert forall|x: TemporaryAux| x.wf() implies s@ != enc_t_aux(x) by {
                if s@ == enc_t_aux(x) {
                    lemma_ta_components(s@, x);
                }
            }
        }
        return None;
    }
    let c2 = step3.unwrap();
    let t3 = tag_taux_tree_d();
    let step4 = expect(s, c2, &t3);
    if step4.is_none() {
        proof {
            assert forall|x: TemporaryAux| x.wf() implies s@ != enc_t_aux(x) by {
                if s@ == enc_t_aux(x) {
                    lemma_ta_components(s@, x);
                }
            }
        }
        return None;
    }
    let c3 = step4.unwrap();
    let step5 = parse_store_config(s, c3);
    if step5.is_none() {
        proof {
            assert forall|x: TemporaryAux| x.wf() implies s@ != enc_t_aux(x) by {
                if s@ == enc_t_aux(x) {
                    lemma_ta_components(s@, x);
                }
            }
        }
        return None;
    }
    let (tree_d_config, e2) = step5.unwrap();
    proof {
        assert forall|x: TemporaryAux|
            x.wf() && s@ == enc_t_aux(x) implies sc_eq(x.tree_d_config, tree_d_config) && ta_p5(
            x,
        ) == e2 as int by {
            lemma_ta_components(s@, x);
            lemma_sc_token_unique(
                s@,
                c3 as int,
                x.tree_d_config,
                ta_p5(x),
                tree_d_config,
                e2 as int,
            );
        }
    }
    let t4 = tag_taux_tree_r();
    let step6 = expect(s, e2, &t4);
    if step6.is_none() {
        proof {
            assert forall|x: TemporaryAux| x.wf() implies s@ != enc_t_aux(x) by {
                if s@ == enc_t_aux(x) {
                    lemma_ta_components(s@, x);
                }
            }
        }
        return None;
    }
    let c4 = step6.unwrap();
    let step7 = parse_store_config(s, c4);
    if step7.is_none() {
        proof {
            assert forall|x: TemporaryAux| x.wf() implies s@ != enc_t_aux(x) by {
                if s@ == enc_t_aux(x) {
                    lemma_ta_components(s@, x);
                }
            }
        }
        return None;
    }
    let (tree_r_last_config, e3) = step7.unwrap();
    proof {
        assert forall|x: TemporaryAux|
            x.wf() && s@ == enc_t_aux(x) implies sc_eq(x.tree_r_last_config, tree_r_last_config)
            && ta_p7(x) == e3 as int by {
            lemma_ta_components(s@, x);
            lemma_sc_token_unique(
                s@,
                c4 as int,
                x.tree_r_last_config,
                ta_p7(x),
                tree_r_last_config,
                e3 as int,
            );
        }
    }
    let t5 = tag_taux_tree_c();
    let step8 = expect(s, e3, &t5);
    if step8.is_none() {
        proof {
            assert forall|x: TemporaryAux| x.wf() implies s@ != enc_t_aux(x) by {
                if s@ == enc_t_aux(x) {
                    lemma_ta_components(s@, x);
                }
            }
        }
        return None;
    }
    let c5 = step8.unwrap();
    let step9 = parse_store_config(s, c5);
    if step9.is_none() {
        proof {
            assert forall|x: TemporaryAux| x.wf() implies s@ != enc_t_aux(x) by {
                if s@ == enc_t_aux(x) {
                    lemma_ta_components(s@, x);
                }
            }
        }
        return None;
    }
    let (tree_c_config, e4) = step9.unwrap();
    proof {
        assert forall|x: TemporaryAux|
            x.wf() && s@ == enc_t_aux(x) implies sc_eq(x.tree_c_config, tree_c_config) && ta_p9(
            x,
        ) == e4 as int by {
            lemma_ta_components(s@, x);
            lemma_sc_token_unique(
                s@,
                c5 as int,
                x.tree_c_config,
                ta_p9(x),
                tree_c_config,
                e4 as int,
            );
        }
    }
    let t6 = tag_taux_g();
    let step10 = expect(s, e4, &t6);
    if step10.is_none() {
        proof {
            assert forall|x: TemporaryAux| x.wf() implies s@ != enc_t_aux(x) by {
                if s@ == enc_t_aux(x) {
                    lemma_ta_components(s@, x);
                }
            }
        }
        return None;
    }
    let e5 = step10.unwrap();
    if e5 != s.len() {
        proof {
            assert forall|x: TemporaryAux| x.wf() implies s@ != enc_t_aux(x) by {
                if s@ == enc_t_aux(x) {
                    lemma_ta_components(s@, x);
                }
            }
        }
        return None;
    }
    let x = TemporaryAux { labels, tree_d_config, tree_r_last_config, tree_c_config };
    proof {
        lemma_join(s@, 0, c1 as int, e1 as int);
        lemma_join(s@, 0, e1 as int, c2 as int);
        lemma_join(s@, 0, c2 as int, c3 as int);
        lemma_join(s@, 0, c3 as int, e2 as int);
        lemma_join(s@, 0, e2 as int, c4 as int);
        lemma_join(s@, 0, c4 as int, e3 as int);
        lemma_join(s@, 0, e3 as int, c5 as int);
        lemma_join(s@, 0, c5 as int, e4 as int);
        lemma_join(s@, 0, e4 as int, e5 as int);
        assert(s@.subrange(0, e5 as int) == enc_t_aux(x));
        assert(s@.subrange(0, e5 as int) =~= s@);
    }
    Some(x)
}

// ------------------------------------------------------------------
// Result-typed entry points
// ------------------------------------------------------------------

impl StoreConfig {
    /// Serializes this store description to its canonical interchange text.
    pub fn into_json(&self) -> (r: Vec<u8>)
        requires
            self.wf(),
        ensures
            r@ == enc_store_config(*self),
    {
        let mut out: Vec<u8> = Vec::new();
        write_store_config(&mut out, self);
        out
    }
}

/// Restores a `StoreConfig` from its canonical interchange text.  Succeeds
/// exactly on the canonical encoding of a well-formed record.
pub fn decode_store_config(s: &Vec<u8>) -> (r: Option<StoreConfig>)
    ensures
        r matches Some(c) ==> c.wf() && s@ == enc_store_config(c),
        r is None ==> forall|c: StoreConfig| c.wf() ==> s@ != enc_store_config(c),
{
    let step = parse_store_config(s, 0);
    match step {
        None => {
            proof {
                assert forall|c: StoreConfig| c.wf() implies s@ != enc_store_config(c) by {
                    if s@ == enc_store_config(c) {
                        assert(s@.subrange(0, s@.len() as int) =~= s@);
                        assert(sc_token_at(s@, 0, c, s@.len() as int));
                    }
                }
            }
            None
        },
        Some((c, j)) => {
            proof {
                assert forall|c2: StoreConfig|
                    c2.wf() && s@ == enc_store_config(c2) implies sc_eq(c2, c) && s@.len()
                    == j by {
                    assert(s@.subrange(0, s@.len() as int) =~= s@);
                    assert(sc_token_at(s@, 0, c2, s@.len() as int));
                    lemma_sc_token_unique(s@, 0, c2, s@.len() as int, c, j as int);
                }
            }
            if j != s.len() {
                return None;
            }
            proof {
                assert(s@.subrange(0, j as int) =~= s@);
            }
            Some(c)
        },
    }
}

/// Restores a `StoreConfig` from interchange text, reporting malformed text
/// as a codec failure.
pub fn store_cfg_from_json(s: &Vec<u8>) -> (r: WrapResult<StoreConfig>)
    ensures
        r matches Ok(c) ==> c.wf() && s@ == enc_store_config(c),
        r matches Err(e) ==> e.kind == ErrorKind::Codec && (forall|c: StoreConfig|
            c.wf() ==> s@ != enc_store_config(c)),
{
    match decode_store_config(s) {
        Some(c) => Ok(c),
        None => Err(crate::error::err_codec()),
    }
}

/// Restores a `PersistentAux` from interchange text, reporting malformed
/// text as a codec failure.
pub fn p_aux_from_json(s: &Vec<u8>) -> (r: WrapResult<PersistentAux>)
    ensures
        r matches Ok(x) ==> x.wf() && s@ == enc_p_aux(x),
        r matches Err(e) ==> e.kind == ErrorKind::Codec && (forall|x: PersistentAux|
            x.wf() ==> s@ != enc_p_aux(x)),
{
    match decode_p_aux(s) {
        Some(x) => Ok(x),
        None => Err(crate::error::err_codec()),
    }
}

/// Restores a `TemporaryAux` from interchange text, reporting malformed
/// text as a codec failure.
pub fn t_aux_from_json(s: &Vec<u8>) -> (r: WrapResult<TemporaryAux>)
    ensures
        r matches Ok(x) ==> x.wf() && s@ == enc_t_aux(x),
        r matches Err(e) ==> e.kind == ErrorKind::Codec && (forall|x: TemporaryAux|
            x.wf() ==> s@ != enc_t_aux(x)),
{
    match decode_t_aux(s) {
        Some(x) => Ok(x),
        None => Err(crate::error::err_codec()),
    }
}


impl StoreConfig {
    /// Checks the well-formedness of this store description.
    pub fn wf_check(&self) -> (r: bool)
        ensures
            r == self.wf(),
    {
        crate::json::is_plain(&self.path) && crate::json::is_plain(&self.id)
    }
}

/// Checks the well-formedness of auxiliary commitments.
pub fn p_aux_wf_check(x: &PersistentAux) -> (r: bool)
    ensures
        r == x.wf(),
{
    x.comm_c.len() == 4 && x.comm_r_last.len() == 4
}

/// Checks the well-formedness of temporary auxiliary state.
pub fn t_aux_wf_check(x: &TemporaryAux) -> (r: bool)
    ensures
        r == x.wf(),
{
    let mut k: usize = 0;
    while k < x.labels.len()
        invariant
            k <= x.labels@.len(),
            forall|m: int| 0 <= m < k ==> (#[trigger] x.labels@[m]).wf(),
        decreases x.labels@.len() - k,
    {
        if !x.labels[k].wf_check() {
            return false;
        }
        k = k + 1;
    }
    x.tree_d_config.wf_check() && x.tree_r_last_config.wf_check() && x.tree_c_config.wf_check()
}


impl StoreConfig {
    /// An exact copy.
    pub fn duplicate(&self) -> (r: StoreConfig)
        ensures
            sc_eq(r, *self),
    {
        StoreConfig {
            path: crate::json::copy_bytes(&self.path),
            id: crate::json::copy_bytes(&self.id),
            size: self.size,
            rows_to_discard: self.rows_to_discard,
        }
    }
}

/// Two auxiliary-commitment records that agree limb by limb.
pub open spec fn paux_eq(a: PersistentAux, b: PersistentAux) -> bool {
    a.comm_c@ == b.comm_c@ && a.comm_r_last@ == b.comm_r_last@
}

impl PersistentAux {
    /// An exact copy.
    pub fn duplicate(&self) -> (r: PersistentAux)
        ensures
            paux_eq(r, *self),
    {
        PersistentAux {
            comm_c: crate::json::copy_u64s(&self.comm_c),
            comm_r_last: crate::json::copy_u64s(&self.comm_r_last),
        }
    }
}

/// Two temporary auxiliary records that agree store by store.
pub open spec fn taux_eq(a: TemporaryAux, b: TemporaryAux) -> bool {
    &&& a.labels@.len() == b.labels@.len()
    &&& forall|k: int| 0 <= k < a.labels@.len() ==> sc_eq(#[trigger] a.labels@[k], b.labels@[k])
    &&& sc_eq(a.tree_d_config, b.tree_d_config)
    &&& sc_eq(a.tree_r_last_config, b.tree_r_last_config)
    &&& sc_eq(a.tree_c_config, b.tree_c_config)
}

impl TemporaryAux {
    /// An exact copy.
    pub fn duplicate(&self) -> (r: TemporaryAux)
        ensures
            taux_eq(r, *self),
    {
        let mut labels: Vec<StoreConfig> = Vec::new();
        let mut k: usize = 0;
        while k < self.labels.len()
            invariant
                k <= self.labels@.len(),
                labels@.len() == k,
                forall|m: int| 0 <= m < k ==> sc_eq(#[trigger] labels@[m], self.labels@[m]),
            decreases self.labels@.len() - k,
        {
            labels.push(self.labels[k].duplicate());
            k = k + 1;
        }
        TemporaryAux {
            labels,
            tree_d_config: self.tree_d_config.duplicate(),
            tree_r_last_config: self.tree_r_last_config.duplicate(),
            tree_c_config: self.tree_c_config.duplicate(),
        }
    }
}


/// Round trip: two well-formed store configurations with the same
/// canonical text agree field by field.
pub proof fn lemma_store_config_round_trip(x: StoreConfig, y: StoreConfig)
    requires
        x.wf(),
        y.wf(),
        enc_store_config(x) == enc_store_config(y),
    ensures
        sc_eq(x, y),
{
    let s = enc_store_config(x);
    assert(s.subrange(0, s.len() as int) =~= s);
    assert(sc_token_at(s, 0, x, s.len() as int));
    assert(sc_token_at(s, 0, y, s.len() as int));
    lemma_sc_token_unique(s, 0, x, s.len() as int, y, s.len() as int);
}

/// Round trip: two well-formed temporary auxiliary records with the same
/// canonical text agree store by store.
pub proof fn lemma_t_aux_round_trip(x: TemporaryAux, y: TemporaryAux)
    requires
        x.wf(),
        y.wf(),
        enc_t_aux(x) == enc_t_aux(y),
    ensures
        taux_eq(x, y),
{
    let s = enc_t_aux(x);
    lemma_ta_components(s, x);
    lemma_ta_components(s, y);
    lemma_sc_list_token_unique(
        s,
        t_taux_labels().len() as int,
        x.labels@,
        ta_p2(x),
        y.labels@,
        ta_p2(y),
    );
    lemma_sc_token_unique(s, ta_p4(x), x.tree_d_config, ta_p5(x), y.tree_d_config, ta_p5(y));
    lemma_sc_token_unique(
        s,
        ta_p5(x) + t_taux_tree_r().len(),
        x.tree_r_last_config,
        ta_p7(x),
        y.tree_r_last_config,
        ta_p7(y),
    );
    lemma_sc_token_unique(
        s,
        ta_p7(x) + t_taux_tree_c().len(),
        x.tree_c_config,
        ta_p9(x),
        y.tree_c_config,
        ta_p9(y),
    );
}

} // verus!
