//! Canonical JSON fragments over raw bytes.
//!
//! Every persisted parameter of the crate is written in a canonical textual
//! form: objects with a fixed field order, numbers without leading zeros or
//! signs, strings without escape sequences.  The encoders below produce that
//! form and the parsers accept exactly it, which makes decoding the precise
//! inverse of encoding.

use vstd::prelude::*;

verus! {

/// ASCII decimal digit.
pub open spec fn is_digit(b: u8) -> bool {
    48 <= b <= 57
}

/// Canonical decimal encoding of a natural number (no sign, no leading zero).
pub open spec fn enc_nat(n: nat) -> Seq<u8>
    decreases n,
{
    if n < 10 {
        seq![(48 + n) as u8]
    } else {
        enc_nat(n / 10).push((48 + n % 10) as u8)
    }
}

/// Canonical decimal encoding of a `u64`.
pub open spec fn enc_u64(n: u64) -> Seq<u8> {
    enc_nat(n as nat)
}

/// Every byte of `s` is a decimal digit.
pub open spec fn all_digits(s: Seq<u8>) -> bool {
    forall|k: int| 0 <= k < s.len() ==> is_digit(#[trigger] s[k])
}

/// The number denoted by a sequence of digit bytes (most significant first).
pub open spec fn digits_val(s: Seq<u8>) -> nat
    decreases s.len(),
{
    if s.len() == 0 {
        0
    } else {
        digits_val(s.drop_last()) * 10 + (s.last() - 48) as nat
    }
}

/// `enc_nat(n)` is a nonempty digit string whose first digit is nonzero
/// unless `n` itself is zero.
pub proof fn lemma_enc_nat_shape(n: nat)
    ensures
        enc_nat(n).len() >= 1,
        all_digits(enc_nat(n)),
        n > 0 ==> enc_nat(n)[0] != 48,
        n == 0 ==> enc_nat(n) == seq![48u8],
    decreases n,
{
    if n < 10 {
        assert(enc_nat(n) == seq![(48 + n) as u8]);
    } else {
        lemma_enc_nat_shape(n / 10);
        assert(n / 10 > 0);
        assert(enc_nat(n) == enc_nat(n / 10).push((48 + n % 10) as u8));
        assert(enc_nat(n)[0] == enc_nat(n / 10)[0]);
        assert forall|k: int| 0 <= k < enc_nat(n).len() implies is_digit(#[trigger] enc_nat(n)[k]) by {
            if k < enc_nat(n / 10).len() {
                assert(enc_nat(n)[k] == enc_nat(n / 10)[k]);
            } else {
                assert(enc_nat(n)[k] == (48 + n % 10) as u8);
            }
        }
    }
}

/// Decoding the canonical encoding gives the number back.
pub proof fn lemma_enc_nat_val(n: nat)
    ensures
        digits_val(enc_nat(n)) == n,
    decreases n,
{
    if n < 10 {
        assert(enc_nat(n) == seq![(48 + n) as u8]);
        assert(enc_nat(n).drop_last() =~= Seq::<u8>::empty());
        assert(digits_val(Seq::<u8>::empty()) == 0);
        assert(enc_nat(n).last() == (48 + n) as u8);
        assert(digits_val(enc_nat(n)) == digits_val(enc_nat(n).drop_last()) * 10 + (enc_nat(
            n,
        ).last() - 48) as nat);
    } else {
        lemma_enc_nat_val(n / 10);
        lemma_enc_nat_shape(n / 10);
        assert(enc_nat(n) == enc_nat(n / 10).push((48 + n % 10) as u8));
        assert(enc_nat(n).drop_last() =~= enc_nat(n / 10));
        assert(enc_nat(n).last() == (48 + n % 10) as u8);
        assert(digits_val(enc_nat(n)) == (n / 10) * 10 + n % 10);
        assert((n / 10) * 10 + n % 10 == n) by (nonlinear_arith);
    }
}

/// A nonempty digit string in canonical form (no leading zero unless it is
/// the single digit zero) is the canonical encoding of its value.
pub proof fn lemma_digits_canon(d: Seq<u8>)
    requires
        d.len() >= 1,
        all_digits(d),
        d[0] != 48 || d.len() == 1,
    ensures
        d == enc_nat(digits_val(d)),
    decreases d.len(),
{
    let n = digits_val(d);
    if d.len() == 1 {
        assert(d.drop_last() =~= Seq::<u8>::empty());
        assert(digits_val(Seq::<u8>::empty()) == 0);
        assert(d.last() == d[0]);
        assert(n == digits_val(d.drop_last()) * 10 + (d.last() - 48) as nat);
        assert(n == (d[0] - 48) as nat);
        assert(n < 10);
        assert(enc_nat(n) == seq![(48 + n) as u8]);
        assert(d =~= enc_nat(n));
    } else {
        let dp = d.drop_last();
        assert(dp[0] == d[0]);
        assert(all_digits(dp)) by {
            assert forall|k: int| 0 <= k < dp.len() implies is_digit(#[trigger] dp[k]) by {
                assert(dp[k] == d[k]);
            }
        }
        lemma_digits_canon(dp);
        let np = digits_val(dp);
        if np == 0 {
            lemma_enc_nat_shape(0nat);
            assert(dp == enc_nat(0nat));
            assert(dp[0] == 48);
            assert(false);
        }
        assert(n == np * 10 + (d.last() - 48) as nat);
        assert(np >= 1);
        assert(n >= 10) by (nonlinear_arith)
            requires
                n == np * 10 + (d.last() - 48) as nat,
                np >= 1;
        assert(n / 10 == np && n % 10 == (d.last() - 48) as nat) by (nonlinear_arith)
            requires
                n == np * 10 + (d.last() - 48) as nat,
                ((d.last() - 48) as nat) < 10;
        assert(enc_nat(n) == enc_nat(np).push((48 + n % 10) as u8));
        assert((48 + n % 10) as u8 == d.last());
        assert(d =~= dp.push(d.last()));
        assert(d =~= enc_nat(n));
    }
}

/// Appending further digits never decreases the denoted value.
pub proof fn lemma_digits_val_prefix(s: Seq<u8>, k: int)
    requires
        0 <= k <= s.len(),
    ensures
        digits_val(s.subrange(0, k)) <= digits_val(s),
    decreases s.len() - k,
{
    if k == s.len() {
        assert(s.subrange(0, k) =~= s);
    } else {
        lemma_digits_val_prefix(s.drop_last(), k);
        assert(s.drop_last().subrange(0, k) =~= s.subrange(0, k));
        assert(digits_val(s) == digits_val(s.drop_last()) * 10 + (s.last() - 48) as nat);
        assert(digits_val(s.drop_last()) * 10 >= digits_val(s.drop_last())) by (nonlinear_arith);
    }
}

/// The canonical number token standing in `s` at position `i`: the bytes
/// `[i, j)` are the encoding of `n` and the token is maximal (no digit
/// follows it).
pub open spec fn num_token_at(s: Seq<u8>, i: int, n: u64, j: int) -> bool {
    &&& 0 <= i
    &&& j == i + enc_u64(n).len()
    &&& j <= s.len()
    &&& s.subrange(i, j) == enc_u64(n)
    &&& (j == s.len() || !is_digit(s[j]))
}

/// At one position there is at most one canonical number token.
pub proof fn lemma_num_token_unique(s: Seq<u8>, i: int, n1: u64, j1: int, n2: u64, j2: int)
    requires
        num_token_at(s, i, n1, j1),
        num_token_at(s, i, n2, j2),
    ensures
        n1 == n2,
        j1 == j2,
{
    lemma_enc_nat_shape(n1 as nat);
    lemma_enc_nat_shape(n2 as nat);
    if j1 < j2 {
        // s[j1] is a digit of enc(n2), contradicting maximality of token 1.
        assert(s[j1] == s.subrange(i, j2)[j1 - i]);
        assert(is_digit(enc_u64(n2)[j1 - i]));
        assert(false);
    }
    if j2 < j1 {
        assert(s[j2] == s.subrange(i, j1)[j2 - i]);
        assert(is_digit(enc_u64(n1)[j2 - i]));
        assert(false);
    }
    assert(enc_u64(n1) == enc_u64(n2));
    lemma_enc_nat_val(n1 as nat);
    lemma_enc_nat_val(n2 as nat);
}

/// Exec mirror of `is_digit`.
pub fn digit(b: u8) -> (r: bool)
    ensures
        r == is_digit(b),
{
    48 <= b && b <= 57
}

/// Appends the canonical decimal encoding of `n` to `out`.
pub fn write_u64(out: &mut Vec<u8>, n: u64)
    ensures
        final(out)@ == old(out)@ + enc_u64(n),
    decreases n,
{
    if n < 10 {
        out.push(48 + n as u8);
        assert(out@ =~= old(out)@ + enc_nat(n as nat));
    } else {
        write_u64(out, n / 10);
        out.push(48 + (n % 10) as u8);
        assert(out@ =~= old(out)@ + enc_nat(n as nat));
    }
}

/// Reads the canonical number token at position `i`, returning the value and
/// the position just past it.  Returns `None` exactly when no canonical
/// number token stands at `i`.
pub fn parse_u64(s: &Vec<u8>, i: usize) -> (r: Option<(u64, usize)>)
    requires
        i <= s@.len(),
    ensures
        match r {
            Some((n, j)) => num_token_at(s@, i as int, n, j as int),
            None => forall|n: u64, j: int| !num_token_at(s@, i as int, n, j),
        },
{
    proof {
        // For the failure cases: every token starts with a digit.
        assert forall|n: u64| is_digit(enc_u64(n)[0]) && enc_u64(n).len() >= 1 by {
            lemma_enc_nat_shape(n as nat);
        }
    }
    if i >= s.len() || !digit(s[i]) {
        proof {
            assert forall|n: u64, j: int| !num_token_at(s@, i as int, n, j) by {
                if num_token_at(s@, i as int, n, j) {
                    assert(s@[i as int] == s@.subrange(i as int, j)[0]);
                    assert(is_digit(s@[i as int]));
                    assert(false);
                }
            }
        }
        return None;
    }
    if s[i] == 48 {
        // A canonical token starting with '0' must be exactly "0".
        if i + 1 < s.len() && digit(s[i + 1]) {
            proof {
                assert forall|n: u64, j: int| !num_token_at(s@, i as int, n, j) by {
                    if num_token_at(s@, i as int, n, j) {
                        lemma_enc_nat_shape(n as nat);
                        assert(enc_u64(n)[0] == s@.subrange(i as int, j)[0]);
                        assert(enc_u64(n)[0] == 48);
                        assert(n == 0);
                        assert(j == i + 1);
                        assert(is_digit(s@[j]));
                        assert(false);
                    }
                }
            }
            return None;
        }
        proof {
            lemma_enc_nat_shape(0nat);
            assert(s@.subrange(i as int, i + 1) =~= enc_u64(0u64));
        }
        return Some((0, i + 1));
    }
    let ghost gi = i as int;
    let mut acc: u64 = 0;
    let mut j: usize = i;
    proof {
        assert(s@.subrange(gi, gi) =~= Seq::<u8>::empty());
    }
    while j < s.len() && digit(s[j])
        invariant
            i <= j <= s@.len(),
            gi == i as int,
            s@[gi] != 48,
            is_digit(s@[gi]),
            all_digits(s@.subrange(gi, j as int)),
            acc as nat == digits_val(s@.subrange(gi, j as int)),
        decreases s@.len() - j,
    {
        let d = s[j] - 48;
        if acc > (u64::MAX - d as u64) / 10 {
            // The value of the digit run already exceeds u64::MAX, so no
            // canonical u64 token can stand here.
            proof {
                let run1 = s@.subrange(gi, j + 1);
                assert(run1.drop_last() =~= s@.subrange(gi, j as int));
                assert(run1.last() == s@[j as int]);
                assert(digits_val(run1) == acc as nat * 10 + d as nat);
                assert(acc as nat * 10 + d as nat > u64::MAX as nat) by (nonlinear_arith)
                    requires
                        acc as nat > ((u64::MAX - d as u64) / 10) as nat,
                        d < 10,
                        acc <= u64::MAX;
                assert forall|n: u64, jx: int| !num_token_at(s@, gi, n, jx) by {
                    if num_token_at(s@, gi, n, jx) {
                        lemma_enc_nat_shape(n as nat);
                        lemma_enc_nat_val(n as nat);
                        // The token's digits extend at least past position j.
                        if jx <= j as int {
                            assert(is_digit(s@[jx])) by {
                                if jx < j as int {
                                    assert(s@[jx] == s@.subrange(gi, j as int)[jx - gi]);
                                } else {
                                    assert(s@[jx] == s@[j as int]);
                                }
                            }
                            assert(false);
                        }
                        let tok = s@.subrange(gi, jx);
                        assert(tok =~= enc_u64(n));
                        assert(run1 =~= tok.subrange(0, j + 1 - gi));
                        lemma_digits_val_prefix(tok, j + 1 - gi);
                        assert(digits_val(tok) == n as nat);
                        assert(false);
                    }
                }
            }
            return None;
        }
        proof {
            assert(acc * 10 + d as u64 <= u64::MAX) by (nonlinear_arith)
                requires
                    acc as nat <= ((u64::MAX - d as u64) / 10) as nat,
                    d < 10;
            let run1 = s@.subrange(gi, j + 1);
            assert(run1.drop_last() =~= s@.subrange(gi, j as int));
            assert(run1.last() == s@[j as int]);
            assert(all_digits(run1)) by {
                assert forall|k: int| 0 <= k < run1.len() implies is_digit(#[trigger] run1[k]) by {
                    if k < run1.len() - 1 {
                        assert(run1[k] == s@.subrange(gi, j as int)[k]);
                    }
                }
            }
        }
        acc = acc * 10 + d as u64;
        j = j + 1;
    }
    proof {
        let run = s@.subrange(gi, j as int);
        assert(run.len() >= 1);
        assert(run[0] == s@[gi]);
        lemma_digits_canon(run);
        lemma_enc_nat_val(acc as nat);
        assert(run == enc_u64(acc));
        assert(j as int == gi + enc_u64(acc).len());
    }
    Some((acc, j))
}


/// Appends every byte of `add` to `out`.
pub fn write_bytes(out: &mut Vec<u8>, add: &Vec<u8>)
    ensures
        final(out)@ == old(out)@ + add@,
{
    let mut k: usize = 0;
    while k < add.len()
        invariant
            k <= add@.len(),
            out@ == old(out)@ + add@.subrange(0, k as int),
        decreases add@.len() - k,
    {
        out.push(add[k]);
        k = k + 1;
        proof {
            assert(out@ =~= old(out)@ + add@.subrange(0, k as int));
        }
    }
    proof {
        assert(add@.subrange(0, add@.len() as int) =~= add@);
    }
}

/// Checks that the bytes of `tag` stand in `s` at position `i`; on success
/// returns the position just past them.
pub fn expect(s: &Vec<u8>, i: usize, tag: &Vec<u8>) -> (r: Option<usize>)
    requires
        i <= s@.len(),
    ensures
        match r {
            Some(j) => j == i + tag@.len() && j <= s@.len() && s@.subrange(i as int, j as int)
                == tag@,
            None => !(i + tag@.len() <= s@.len() && s@.subrange(
                i as int,
                i + tag@.len() as int,
            ) == tag@),
        },
{
    if s.len() - i < tag.len() {
        return None;
    }
    let mut k: usize = 0;
    while k < tag.len()
        invariant
            k <= tag@.len(),
            i + tag@.len() <= s@.len(),
            s@.len() <= usize::MAX,
            forall|m: int| 0 <= m < k ==> s@[i + m] == tag@[m],
        decreases tag@.len() - k,
    {
        if s[i + k] != tag[k] {
            proof {
                assert(s@.subrange(i as int, i + tag@.len() as int)[k as int] != tag@[k as int]);
            }
            return None;
        }
        k = k + 1;
    }
    proof {
        assert(s@.subrange(i as int, i + tag@.len() as int) =~= tag@);
    }
    Some(i + tag.len())
}

/// Text that needs no JSON escaping: no control bytes, no quote, no
/// backslash.  All strings persisted by this crate are restricted to this
/// form, which keeps the canonical encoding free of escape sequences.
pub open spec fn plain_text(s: Seq<u8>) -> bool {
    forall|k: int| 0 <= k < s.len() ==> {
        &&& #[trigger] s[k] >= 32
        &&& s[k] != 34
        &&& s[k] != 92
    }
}

/// Canonical JSON string: a quote, the plain bytes, a quote.
pub open spec fn enc_jstr(s: Seq<u8>) -> Seq<u8> {
    seq![34u8] + s + seq![34u8]
}

/// The canonical string token standing in `s` at position `i`.
pub open spec fn jstr_token_at(s: Seq<u8>, i: int, content: Seq<u8>, j: int) -> bool {
    &&& 0 <= i
    &&& plain_text(content)
    &&& j == i + content.len() + 2
    &&& j <= s.len()
    &&& s.subrange(i, j) == enc_jstr(content)
}

/// At one position there is at most one canonical string token.
pub proof fn lemma_jstr_token_unique(s: Seq<u8>, i: int, c1: Seq<u8>, j1: int, c2: Seq<u8>, j2: int)
    requires
        jstr_token_at(s, i, c1, j1),
        jstr_token_at(s, i, c2, j2),
    ensures
        c1 == c2,
        j1 == j2,
{
    if j1 < j2 {
        // the closing quote of token 1 would be a plain byte of content 2
        assert(s[j1 - 1] == s.subrange(i, j1)[j1 - 1 - i]);
        assert(s[j1 - 1] == 34);
        assert(s[j1 - 1] == s.subrange(i, j2)[j1 - 1 - i]);
        assert(c2[j1 - 2 - i] == 34);
        assert(false);
    }
    if j2 < j1 {
        assert(s[j2 - 1] == s.subrange(i, j2)[j2 - 1 - i]);
        assert(s[j2 - 1] == 34);
        assert(s[j2 - 1] == s.subrange(i, j1)[j2 - 1 - i]);
        assert(c1[j2 - 2 - i] == 34);
        assert(false);
    }
    assert(c1 =~= c2) by {
        assert forall|k: int| 0 <= k < c1.len() implies c1[k] == c2[k] by {
            assert(s.subrange(i, j1)[k + 1] == c1[k]);
            assert(s.subrange(i, j2)[k + 1] == c2[k]);
        }
    }
}

/// Appends the canonical JSON string encoding of the plain bytes `c`.
pub fn write_jstr(out: &mut Vec<u8>, c: &Vec<u8>)
    requires
        plain_text(c@),
    ensures
        final(out)@ == old(out)@ + enc_jstr(c@),
{
    out.push(34);
    write_bytes(out, c);
    out.push(34);
    proof {
        assert(out@ =~= old(out)@ + enc_jstr(c@));
    }
}

/// Reads the canonical string token at position `i`.  Returns `None` exactly
/// when no canonical string token stands at `i`.
pub fn parse_jstr(s: &Vec<u8>, i: usize) -> (r: Option<(Vec<u8>, usize)>)
    requires
        i <= s@.len(),
    ensures
        match r {
            Some((c, j)) => jstr_token_at(s@, i as int, c@, j as int),
            None => forall|c: Seq<u8>, j: int| !jstr_token_at(s@, i as int, c, j),
        },
{
    if i >= s.len() || s[i] != 34 {
        proof {
            assert forall|c: Seq<u8>, j: int| !jstr_token_at(s@, i as int, c, j) by {
                if jstr_token_at(s@, i as int, c, j) {
                    assert(s@[i as int] == s@.subrange(i as int, j)[0]);
                    assert(false);
                }
            }
        }
        return None;
    }
    let mut content: Vec<u8> = Vec::new();
    let mut j: usize = i + 1;
    loop
        invariant
            i + 1 <= j <= s@.len(),
            s@[i as int] == 34,
            content@ == s@.subrange(i + 1, j as int),
            plain_text(content@),
        decreases s@.len() - j,
    {
        if j >= s.len() {
            // no closing quote: any token's closer would already have been
            // seen while scanning
            proof {
                assert forall|c: Seq<u8>, j2: int| !jstr_token_at(s@, i as int, c, j2) by {
                    if jstr_token_at(s@, i as int, c, j2) {
                        assert(s@[j2 - 1] == s@.subrange(i as int, j2)[j2 - 1 - i]);
                        assert(s@[j2 - 1] == 34);
                        assert(j2 - 1 < s@.len());
                        // position j2 - 1 lies in the scanned range [i+1, len)
                        assert(content@[j2 - 1 - i - 1] == s@[j2 - 1]);
                        assert(false);
                    }
                }
            }
            return None;
        }
        let b = s[j];
        if b == 34 {
            proof {
                assert(s@.subrange(i as int, j + 1) =~= enc_jstr(content@));
            }
            return Some((content, j + 1));
        }
        if b < 32 || b == 92 {
            // not plain text: no token can contain this byte
            proof {
                assert forall|c: Seq<u8>, j2: int| !jstr_token_at(s@, i as int, c, j2) by {
                    if jstr_token_at(s@, i as int, c, j2) {
                        assert(s@[j2 - 1] == s@.subrange(i as int, j2)[j2 - 1 - i]);
                        assert(s@[j2 - 1] == 34);
                        if j2 - 1 <= j as int {
                            if j2 - 1 == j as int {
                                assert(false);
                            } else {
                                assert(content@[j2 - 1 - i - 1] == s@[j2 - 1]);
                                assert(false);
                            }
                        } else {
                            // byte at j is inside content 
                            assert(c[j - i - 1] == s@.subrange(i as int, j2)[j - i]);
                            assert(c[j - i - 1] == s@[j as int]);
                            assert(false);
                        }
                    }
                }
            }
            return None;
        }
        content.push(b);
        j = j + 1;
        proof {
            assert(content@ =~= s@.subrange(i + 1, j as int));
        }
    }
}

/// The inner items of a canonical JSON list of numbers: the encodings of the
/// elements separated by commas.
pub open spec fn enc_u64_items(v: Seq<u64>) -> Seq<u8>
    decreases v.len(),
{
    if v.len() == 0 {
        Seq::<u8>::empty()
    } else if v.len() == 1 {
        enc_u64(v[0])
    } else {
        enc_u64(v[0]) + seq![44u8] + enc_u64_items(v.drop_first())
    }
}

/// Canonical JSON list of numbers.
pub open spec fn enc_u64_list(v: Seq<u64>) -> Seq<u8> {
    seq![91u8] + enc_u64_items(v) + seq![93u8]
}

/// Adding one element to the end of a list extends its item encoding on the
/// right.
pub proof fn lemma_enc_items_snoc(v: Seq<u64>, x: u64)
    ensures
        enc_u64_items(v.push(x)) == if v.len() == 0 {
            enc_u64(x)
        } else {
            enc_u64_items(v) + seq![44u8] + enc_u64(x)
        },
    decreases v.len(),
{
    let w = v.push(x);
    if v.len() == 0 {
        assert(w.len() == 1);
        assert(w[0] == x);
    } else if v.len() == 1 {
        assert(w.drop_first() =~= v.drop_first().push(x));
        assert(v.drop_first().push(x) =~= seq![x]);
        assert(enc_u64_items(w) == enc_u64(v[0]) + seq![44u8] + enc_u64_items(seq![x]));
        assert(enc_u64_items(seq![x]) == enc_u64(x));
    } else {
        lemma_enc_items_snoc(v.drop_first(), x);
        assert(w.drop_first() =~= v.drop_first().push(x));
        assert(enc_u64_items(w) == enc_u64(w[0]) + seq![44u8] + enc_u64_items(w.drop_first()));
        assert(enc_u64_items(v) + seq![44u8] + enc_u64(x) =~= enc_u64(v[0]) + seq![44u8] + (
        enc_u64_items(v.drop_first()) + seq![44u8] + enc_u64(x)));
    }
}

/// Appends the canonical JSON list encoding of `v`.
pub fn write_u64_list(out: &mut Vec<u8>, v: &Vec<u64>)
    ensures
        final(out)@ == old(out)@ + enc_u64_list(v@),
{
    out.push(91);
    let mut m: usize = 0;
    proof {
        assert(v@.subrange(0, 0) =~= Seq::<u64>::empty());
    }
    while m < v.len()
        invariant
            m <= v@.len(),
            out@ == old(out)@ + seq![91u8] + enc_u64_items(v@.subrange(0, m as int)),
        decreases v@.len() - m,
    {
        if m > 0 {
            out.push(44);
        }
        write_u64(out, v[m]);
        proof {
            lemma_enc_items_snoc(v@.subrange(0, m as int), v@[m as int]);
            assert(v@.subrange(0, m + 1) =~= v@.subrange(0, m as int).push(v@[m as int]));
            assert(out@ =~= old(out)@ + seq![91u8] + enc_u64_items(v@.subrange(0, m + 1)));
        }
        m = m + 1;
    }
    out.push(93);
    proof {
        assert(v@.subrange(0, v@.len() as int) =~= v@);
        assert(out@ =~= old(out)@ + enc_u64_list(v@));
    }
}

/// The nonempty item run standing in `s` at position `i`, terminated by the
/// closing bracket that follows it.
pub open spec fn items_token_at(s: Seq<u8>, i: int, v: Seq<u64>, j: int) -> bool {
    &&& 0 <= i
    &&& v.len() >= 1
    &&& j == i + enc_u64_items(v).len()
    &&& j < s.len()
    &&& s.subrange(i, j) == enc_u64_items(v)
    &&& s[j] == 93
}

/// At one position there is at most one item run.
pub proof fn lemma_items_token_unique(s: Seq<u8>, i: int, v1: Seq<u64>, j1: int, v2: Seq<u64>, j2: int)
    requires
        items_token_at(s, i, v1, j1),
        items_token_at(s, i, v2, j2),
    ensures
        v1 == v2,
        j1 == j2,
    decreases v1.len(),
{
    let e1 = enc_u64(v1[0]);
    let e2 = enc_u64(v2[0]);
    let k1 = i + e1.len();
    let k2 = i + e2.len();
    // each first element is a maximal number token: the byte after it is
    // ',' or ']'
    assert(num_token_at(s, i, v1[0], k1)) by {
        assert(s.subrange(i, k1) =~= e1) by {
            if v1.len() == 1 {
                assert(s.subrange(i, j1) == e1);
            } else {
                assert forall|m: int| 0 <= m < e1.len() implies s.subrange(i, k1)[m] == e1[m] by {
                    assert(s.subrange(i, j1)[m] == e1[m]);
                }
            }
        }
        if v1.len() == 1 {
            assert(s[k1] == 93);
        } else {
            assert(s[k1] == s.subrange(i, j1)[k1 - i]);
            assert(s[k1] == 44);
        }
        lemma_enc_nat_shape(v1[0] as nat);
    }
    assert(num_token_at(s, i, v2[0], k2)) by {
        assert(s.subrange(i, k2) =~= e2) by {
            if v2.len() == 1 {
                assert(s.subrange(i, j2) == e2);
            } else {
                assert forall|m: int| 0 <= m < e2.len() implies s.subrange(i, k2)[m] == e2[m] by {
                    assert(s.subrange(i, j2)[m] == e2[m]);
                }
            }
        }
        if v2.len() == 1 {
            assert(s[k2] == 93);
        } else {
            assert(s[k2] == s.subrange(i, j2)[k2 - i]);
            assert(s[k2] == 44);
        }
        lemma_enc_nat_shape(v2[0] as nat);
    }
    lemma_num_token_unique(s, i, v1[0], k1, v2[0], k2);
    if v1.len() == 1 && v2.len() == 1 {
        assert(v1 =~= v2);
    } else if v1.len() == 1 && v2.len() >= 2 {
        assert(s[k1] == 93);
        assert(s[k2] == s.subrange(i, j2)[k2 - i]);
        assert(s[k2] == 44);
        assert(false);
    } else if v1.len() >= 2 && v2.len() == 1 {
        assert(s[k2] == 93);
        assert(s[k1] == s.subrange(i, j1)[k1 - i]);
        assert(s[k1] == 44);
        assert(false);
    } else {
        // both continue after a comma: recurse on the tails
        assert(items_token_at(s, k1 + 1, v1.drop_first(), j1)) by {
            assert(s.subrange(k1 + 1, j1) =~= enc_u64_items(v1.drop_first())) by {
                assert forall|m: int| 0 <= m < j1 - k1 - 1 implies s.subrange(k1 + 1, j1)[m]
                    == enc_u64_items(v1.drop_first())[m] by {
                    assert(s.subrange(i, j1)[k1 + 1 - i + m] == enc_u64_items(v1)[k1 + 1 - i + m]);
                }
            }
        }
        assert(items_token_at(s, k2 + 1, v2.drop_first(), j2)) by {
            assert(s.subrange(k2 + 1, j2) =~= enc_u64_items(v2.drop_first())) by {
                assert forall|m: int| 0 <= m < j2 - k2 - 1 implies s.subrange(k2 + 1, j2)[m]
                    == enc_u64_items(v2.drop_first())[m] by {
                    assert(s.subrange(i, j2)[k2 + 1 - i + m] == enc_u64_items(v2)[k2 + 1 - i + m]);
                }
            }
        }
        lemma_items_token_unique(s, k1 + 1, v1.drop_first(), j1, v2.drop_first(), j2);
        assert(v1 =~= v2) by {
            assert(v1.drop_first() == v2.drop_first());
            assert forall|m: int| 0 <= m < v1.len() implies v1[m] == v2[m] by {
                if m > 0 {
                    assert(v1.drop_first()[m - 1] == v2.drop_first()[m - 1]);
                }
            }
        }
    }
}

/// Reads the item run standing at position `i` (at least one number,
/// comma-separated, stopping before a closing bracket).  Returns `None`
/// exactly when no such run stands at `i`.
pub fn parse_u64_items(s: &Vec<u8>, i: usize) -> (r: Option<(Vec<u64>, usize)>)
    requires
        i <= s@.len(),
    ensures
        match r {
            Some((v, j)) => items_token_at(s@, i as int, v@, j as int),
            None => forall|v: Seq<u64>, j: int| !items_token_at(s@, i as int, v, j),
        },
    decreases s@.len() - i,
{
    proof {
        // the first element of any run at i is a maximal number token
        assert forall|v: Seq<u64>, j: int|
            items_token_at(s@, i as int, v, j) implies num_token_at(
            s@,
            i as int,
            v[0],
            i + enc_u64(v[0]).len(),
        ) && (v.len() == 1 ==> s@[i + enc_u64(v[0]).len()] == 93) && (v.len() >= 2 ==> s@[i
            + enc_u64(v[0]).len()] == 44) by {
            if items_token_at(s@, i as int, v, j) {
                let e = enc_u64(v[0]);
                let k = i + e.len();
                assert(s@.subrange(i as int, k) =~= e) by {
                    if v.len() == 1 {
                        assert(s@.subrange(i as int, j) == e);
                    } else {
                        assert forall|m: int| 0 <= m < e.len() implies s@.subrange(i as int, k)[m]
                            == e[m] by {
                            assert(s@.subrange(i as int, j)[m] == enc_u64_items(v)[m]);
                        }
                    }
                }
                if v.len() == 1 {
                    assert(s@[k] == 93);
                } else {
                    assert(s@[k] == s@.subrange(i as int, j)[k - i]);
                    assert(s@[k] == 44);
                }
                lemma_enc_nat_shape(v[0] as nat);
            }
        }
    }
    let first = parse_u64(s, i);
    match first {
        None => {
            return None;
        },
        Some((n, k)) => {
            proof {
                assert forall|v: Seq<u64>, j: int|
                    items_token_at(s@, i as int, v, j) implies v[0] == n && i
                    + enc_u64(v[0]).len() == k as int by {
                    lemma_num_token_unique(
                        s@,
                        i as int,
                        v[0],
                        i + enc_u64(v[0]).len(),
                        n,
                        k as int,
                    );
                }
            }
            if k >= s.len() {
                return None;
            }
            let b = s[k];
            if b == 93 {
                let mut v: Vec<u64> = Vec::new();
                v.push(n);
                proof {
                    assert(enc_u64_items(v@) == enc_u64(n));
                    assert(s@.subrange(i as int, k as int) =~= enc_u64_items(v@));
                }
                return Some((v, k));
            }
            if b != 44 {
                return None;
            }
            let rest = parse_u64_items(s, k + 1);
            match rest {
                None => {
                    proof {
                        assert forall|v: Seq<u64>, j: int|
                            !items_token_at(s@, i as int, v, j) by {
                            if items_token_at(s@, i as int, v, j) {
                                assert(v.len() >= 2);
                                assert(items_token_at(s@, k + 1, v.drop_first(), j)) by {
                                    assert(s@.subrange(k + 1, j) =~= enc_u64_items(
                                        v.drop_first(),
                                    )) by {
                                        assert forall|m: int|
                                            0 <= m < j - k - 1 implies s@.subrange(k + 1, j)[m]
                                            == enc_u64_items(v.drop_first())[m] by {
                                            assert(s@.subrange(i as int, j)[k + 1 - i + m]
                                                == enc_u64_items(v)[k + 1 - i + m]);
                                        }
                                    }
                                }
                            }
                        }
                    }
                    return None;
                },
                Some((mut v, j)) => {
                    let ghost v0 = v@;
                    v.insert(0, n);
                    proof {
                        assert(v@.drop_first() =~= v0);
                        assert(enc_u64_items(v@) == enc_u64(n) + seq![44u8] + enc_u64_items(
                            v@.drop_first(),
                        ));
                        assert(s@.subrange(i as int, j as int) =~= enc_u64_items(v@)) by {
                            assert(s@.subrange(i as int, k as int) == enc_u64(n));
                            assert(s@.subrange(k + 1, j as int) == enc_u64_items(v@.drop_first()));
                            assert forall|m: int|
                                0 <= m < j - i implies s@.subrange(i as int, j as int)[m]
                                == enc_u64_items(v@)[m] by {
                                if m < k as int - i {
                                    assert(s@.subrange(i as int, k as int)[m] == enc_u64(n)[m]);
                                } else if m == k as int - i {
                                } else {
                                    assert(s@.subrange(k + 1, j as int)[m - (k + 1 - i)]
                                        == enc_u64_items(v@.drop_first())[m - (k + 1 - i)]);
                                }
                            }
                        }
                    }
                    return Some((v, j));
                },
            }
        },
    }
}

/// The canonical list token standing in `s` at position `i`.
pub open spec fn list_token_at(s: Seq<u8>, i: int, v: Seq<u64>, j: int) -> bool {
    &&& 0 <= i
    &&& j == i + enc_u64_list(v).len()
    &&& j <= s.len()
    &&& s.subrange(i, j) == enc_u64_list(v)
}

/// At one position there is at most one canonical list token.
pub proof fn lemma_list_token_unique(s: Seq<u8>, i: int, v1: Seq<u64>, j1: int, v2: Seq<u64>, j2: int)
    requires
        list_token_at(s, i, v1, j1),
        list_token_at(s, i, v2, j2),
    ensures
        v1 == v2,
        j1 == j2,
{
    if v1.len() == 0 && v2.len() == 0 {
        assert(v1 =~= v2);
    } else if v1.len() == 0 && v2.len() >= 1 {
        lemma_enc_nat_shape(v2[0] as nat);
        assert(s[i + 1] == s.subrange(i, j1)[1]);
        assert(s[i + 1] == 93);
        assert(s[i + 1] == s.subrange(i, j2)[1]);
        assert(s[i + 1] == enc_u64_items(v2)[0]);
        assert(enc_u64_items(v2)[0] == enc_u64(v2[0])[0]);
        assert(false);
    } else if v1.len() >= 1 && v2.len() == 0 {
        lemma_enc_nat_shape(v1[0] as nat);
        assert(s[i + 1] == s.subrange(i, j2)[1]);
        assert(s[i + 1] == 93);
        assert(s[i + 1] == s.subrange(i, j1)[1]);
        assert(s[i + 1] == enc_u64_items(v1)[0]);
        assert(enc_u64_items(v1)[0] == enc_u64(v1[0])[0]);
        assert(false);
    } else {
        assert(items_token_at(s, i + 1, v1, j1 - 1)) by {
            assert(s.subrange(i + 1, j1 - 1) =~= enc_u64_items(v1)) by {
                assert forall|m: int| 0 <= m < j1 - 1 - (i + 1) implies s.subrange(i + 1, j1 - 1)[m]
                    == enc_u64_items(v1)[m] by {
                    assert(s.subrange(i, j1)[m + 1] == enc_u64_list(v1)[m + 1]);
                }
            }
            assert(s[j1 - 1] == s.subrange(i, j1)[j1 - 1 - i]);
        }
        assert(items_token_at(s, i + 1, v2, j2 - 1)) by {
            assert(s.subrange(i + 1, j2 - 1) =~= enc_u64_items(v2)) by {
                assert forall|m: int| 0 <= m < j2 - 1 - (i + 1) implies s.subrange(i + 1, j2 - 1)[m]
                    == enc_u64_items(v2)[m] by {
                    assert(s.subrange(i, j2)[m + 1] == enc_u64_list(v2)[m + 1]);
                }
            }
            assert(s[j2 - 1] == s.subrange(i, j2)[j2 - 1 - i]);
        }
        lemma_items_token_unique(s, i + 1, v1, j1 - 1, v2, j2 - 1);
    }
}

/// Splitting a known concatenation at its seam.
pub proof fn lemma_split(s: Seq<u8>, i: int, a: Seq<u8>, b: Seq<u8>, j: int)
    requires
        0 <= i,
        j == i + a.len() + b.len(),
        j <= s.len(),
        s.subrange(i, j) == a + b,
    ensures
        s.subrange(i, i + a.len()) == a,
        s.subrange(i + a.len(), j) == b,
{
    assert(s.subrange(i, i + a.len()) =~= a) by {
        assert forall|m: int| 0 <= m < a.len() implies s.subrange(i, i + a.len())[m] == a[m] by {
            assert(s.subrange(i, j)[m] == (a + b)[m]);
        }
    }
    assert(s.subrange(i + a.len(), j) =~= b) by {
        assert forall|m: int| 0 <= m < b.len() implies s.subrange(i + a.len(), j)[m] == b[m] by {
            assert(s.subrange(i + a.len(), j)[m] == s[i + a.len() + m]);
            assert(s.subrange(i, j)[m + a.len()] == s[i + a.len() + m]);
            assert(s.subrange(i, j)[m + a.len()] == (a + b)[m + a.len()]);
            assert((a + b)[m + a.len()] == b[m]);
        }
    }
}

/// Reads the canonical list token at position `i`.  Returns `None` exactly
/// when no canonical list of numbers stands at `i`.
pub fn parse_u64_list(s: &Vec<u8>, i: usize) -> (r: Option<(Vec<u64>, usize)>)
    requires
        i <= s@.len(),
    ensures
        match r {
            Some((v, j)) => list_token_at(s@, i as int, v@, j as int),
            None => forall|v: Seq<u64>, j: int| !list_token_at(s@, i as int, v, j),
        },
{
    if i >= s.len() || s[i] != 91 {
        proof {
            assert forall|v: Seq<u64>, j: int| !list_token_at(s@, i as int, v, j) by {
                if list_token_at(s@, i as int, v, j) {
                    assert(s@[i as int] == s@.subrange(i as int, j)[0]);
                    assert(false);
                }
            }
        }
        return None;
    }
    if i + 1 < s.len() && s[i + 1] == 93 {
        let v: Vec<u64> = Vec::new();
        proof {
            assert(enc_u64_items(v@) =~= Seq::<u8>::empty());
            assert(s@.subrange(i as int, i + 2) =~= enc_u64_list(v@));
        }
        return Some((v, i + 2));
    }
    proof {
        // not the empty list: any token here is nonempty
        assert forall|v: Seq<u64>, j: int|
            list_token_at(s@, i as int, v, j) implies v.len() >= 1 && items_token_at(
            s@,
            i + 1,
            v,
            j - 1,
        ) by {
            if v.len() == 0 {
                assert(enc_u64_list(v).len() == 2);
                assert(s@[i + 1] == s@.subrange(i as int, j)[1]);
                assert(s@[i + 1] == 93);
                assert(false);
            }
            lemma_enc_nat_shape(v[0] as nat);
            assert(s@.subrange(i + 1, j - 1) =~= enc_u64_items(v)) by {
                assert forall|m: int| 0 <= m < j - 1 - (i + 1) implies s@.subrange(i + 1, j - 1)[m]
                    == enc_u64_items(v)[m] by {
                    assert(s@.subrange(i as int, j)[m + 1] == enc_u64_list(v)[m + 1]);
                }
            }
            assert(s@[j - 1] == s@.subrange(i as int, j)[j - 1 - i]);
            assert(s@[j - 1] == 93);
        }
    }
    let rest = parse_u64_items(s, i + 1);
    match rest {
        None => None,
        Some((v, j)) => {
            proof {
                assert(s@.subrange(i as int, j + 1) =~= enc_u64_list(v@)) by {
                    assert(s@.subrange(i + 1, j as int) == enc_u64_items(v@));
                    assert forall|m: int| 0 <= m < j + 1 - i implies s@.subrange(i as int, j + 1)[m]
                        == enc_u64_list(v@)[m] by {
                        if m == 0 {
                        } else if m < j - i {
                            assert(s@.subrange(i + 1, j as int)[m - 1] == enc_u64_items(v@)[m - 1]);
                        } else {
                            assert(s@[j as int] == 93);
                        }
                    }
                }
            }
            Some((v, j + 1))
        },
    }
}


/// The numbers standing for a byte sequence in a JSON list.
pub open spec fn u64s_of_bytes(b: Seq<u8>) -> Seq<u64> {
    Seq::new(b.len(), |k: int| b[k] as u64)
}

/// Canonical JSON list encoding of a byte sequence (one number per byte).
pub open spec fn enc_byte_list(b: Seq<u8>) -> Seq<u8> {
    enc_u64_list(u64s_of_bytes(b))
}

/// The canonical byte-list token standing in `s` at position `i`.
pub open spec fn byte_list_token_at(s: Seq<u8>, i: int, b: Seq<u8>, j: int) -> bool {
    list_token_at(s, i, u64s_of_bytes(b), j)
}

/// At one position there is at most one canonical byte-list token.
pub proof fn lemma_byte_list_token_unique(
    s: Seq<u8>,
    i: int,
    b1: Seq<u8>,
    j1: int,
    b2: Seq<u8>,
    j2: int,
)
    requires
        byte_list_token_at(s, i, b1, j1),
        byte_list_token_at(s, i, b2, j2),
    ensures
        b1 == b2,
        j1 == j2,
{
    lemma_list_token_unique(s, i, u64s_of_bytes(b1), j1, u64s_of_bytes(b2), j2);
    assert(b1 =~= b2) by {
        assert forall|k: int| 0 <= k < b1.len() implies b1[k] == b2[k] by {
            assert(u64s_of_bytes(b1)[k] == u64s_of_bytes(b2)[k]);
        }
    }
}

/// Appends the canonical JSON list encoding of the bytes `b`.
pub fn write_byte_list(out: &mut Vec<u8>, b: &Vec<u8>)
    ensures
        final(out)@ == old(out)@ + enc_byte_list(b@),
{
    let mut wide: Vec<u64> = Vec::new();
    let mut k: usize = 0;
    while k < b.len()
        invariant
            k <= b@.len(),
            wide@ == u64s_of_bytes(b@).subrange(0, k as int),
        decreases b@.len() - k,
    {
        wide.push(b[k] as u64);
        k = k + 1;
        proof {
            assert(wide@ =~= u64s_of_bytes(b@).subrange(0, k as int));
        }
    }
    proof {
        assert(wide@ =~= u64s_of_bytes(b@));
    }
    write_u64_list(out, &wide);
}

/// Reads the canonical byte-list token at position `i`.  Returns `None`
/// exactly when no canonical list of byte-sized numbers stands at `i`.
pub fn parse_byte_list(s: &Vec<u8>, i: usize) -> (r: Option<(Vec<u8>, usize)>)
    requires
        i <= s@.len(),
    ensures
        match r {
            Some((b, j)) => byte_list_token_at(s@, i as int, b@, j as int),
            None => forall|b: Seq<u8>, j: int| !byte_list_token_at(s@, i as int, b, j),
        },
{
    let wide = parse_u64_list(s, i);
    match wide {
        None => None,
        Some((v, j)) => {
            let mut b: Vec<u8> = Vec::new();
            let mut k: usize = 0;
            while k < v.len()
                invariant
                    k <= v@.len(),
                    b@.len() == k,
                    forall|m: int| 0 <= m < k ==> b@[m] as u64 == v@[m],
                    list_token_at(s@, i as int, v@, j as int),
                decreases v@.len() - k,
            {
                if v[k] > 255 {
                    // some listed number is no byte, so this is not a
                    // byte list
                    proof {
                        assert forall|b2: Seq<u8>, j2: int|
                            !byte_list_token_at(s@, i as int, b2, j2) by {
                            if byte_list_token_at(s@, i as int, b2, j2) {
                                lemma_list_token_unique(
                                    s@,
                                    i as int,
                                    u64s_of_bytes(b2),
                                    j2,
                                    v@,
                                    j as int,
                                );
                                assert(u64s_of_bytes(b2)[k as int] == v@[k as int]);
                                assert(false);
                            }
                        }
                    }
                    return None;
                }
                b.push(v[k] as u8);
                k = k + 1;
            }
            proof {
                assert(u64s_of_bytes(b@) =~= v@);
            }
            Some((b, j))
        },
    }
}


/// A subrange splits at any interior point into the two adjacent subranges.
pub proof fn lemma_join(s: Seq<u8>, i: int, m: int, j: int)
    requires
        0 <= i <= m <= j <= s.len(),
    ensures
        s.subrange(i, j) == s.subrange(i, m) + s.subrange(m, j),
{
    assert(s.subrange(i, j) =~= s.subrange(i, m) + s.subrange(m, j));
}


/// Checks that text needs no JSON escaping.
pub fn is_plain(b: &Vec<u8>) -> (r: bool)
    ensures
        r == plain_text(b@),
{
    let mut k: usize = 0;
    while k < b.len()
        invariant
            k <= b@.len(),
            forall|m: int| 0 <= m < k ==> b@[m] >= 32 && b@[m] != 34 && b@[m] != 92,
        decreases b@.len() - k,
    {
        let x = b[k];
        if x < 32 || x == 34 || x == 92 {
            return false;
        }
        k = k + 1;
    }
    true
}


/// An exact copy of a byte vector.
pub fn copy_bytes(v: &Vec<u8>) -> (r: Vec<u8>)
    ensures
        r@ == v@,
{
    let mut out: Vec<u8> = Vec::new();
    write_bytes(&mut out, v);
    proof {
        assert(Seq::<u8>::empty() + v@ =~= v@);
    }
    out
}

/// An exact copy of a vector of numbers.
pub fn copy_u64s(v: &Vec<u64>) -> (r: Vec<u64>)
    ensures
        r@ == v@,
{
    let mut out: Vec<u64> = Vec::new();
    let mut k: usize = 0;
    while k < v.len()
        invariant
            k <= v@.len(),
            out@ == v@.subrange(0, k as int),
        decreases v@.len() - k,
    {
        out.push(v[k]);
        k = k + 1;
        proof {
            assert(out@ =~= v@.subrange(0, k as int));
        }
    }
    proof {
        assert(v@.subrange(0, v@.len() as int) =~= v@);
    }
    out
}

} // verus!
