//! The laws of the protocol arithmetic.
//!
//! Completeness: a response computed from the secret satisfies both
//! verification equations, in every group whose generators have order
//! dividing `q`.  And fidelity at the byte boundary: a canonical big-endian
//! byte string is recovered exactly from the number it writes.

use vstd::prelude::*;
use vstd::arithmetic::power::{
    pow,
    lemma1_pow,
    lemma_pow_adds,
    lemma_pow_multiplies,
    lemma_pow_mod_noop,
};
use vstd::arithmetic::div_mod::{
    lemma_mod_bound,
    lemma_small_mod,
    lemma_add_mod_noop_right,
    lemma_mod_equivalence,
    lemma_mod_multiples_vanish,
    lemma_fundamental_div_mod,
    lemma_mul_mod_noop_general,
    lemma_div_pos_is_pos,
};
use vstd::arithmetic::mul::{lemma_mul_is_commutative, lemma_mul_nonnegative};
use vstd::arithmetic::power::{lemma_pow0, lemma_pow1, lemma_pow_increases};
use vstd::arithmetic::div_mod::lemma_fundamental_div_mod_converse;
use crate::engine::{pow_mod, mul_mod, respond_value, verify_rel, valid_group};
use crate::bignum::{nat_of_be, canonical_be};

verus! {

/// A byte string writes a number below `256^len`.
proof fn lemma_nat_of_be_upper(s: Seq<u8>)
    ensures
        nat_of_be(s) < pow(256, s.len()),
    decreases s.len(),
{
    if s.len() == 0 {
        lemma_pow0(256);
    } else {
        let dl = s.drop_last();
        lemma_nat_of_be_upper(dl);
        lemma_pow_adds(256, 1, (s.len() - 1) as nat);
        lemma_pow1(256);
        assert(pow(256, s.len()) == 256 * pow(256, (s.len() - 1) as nat));
        assert(nat_of_be(dl) * 256 + s.last() < 256 * pow(256, (s.len() - 1) as nat))
            by (nonlinear_arith)
            requires
                nat_of_be(dl) < pow(256, (s.len() - 1) as nat),
                s.last() < 256,
                s.len() >= 1,
        ;
    }
}

/// A byte string that opens with a nonzero byte writes a number of full
/// width: at least `256^(len-1)`.
proof fn lemma_nat_of_be_lower(s: Seq<u8>)
    requires
        s.len() >= 1,
        s[0] != 0,
    ensures
        nat_of_be(s) >= pow(256, (s.len() - 1) as nat),
    decreases s.len(),
{
    if s.len() == 1 {
        lemma_pow0(256);
        assert(nat_of_be(s) == nat_of_be(s.drop_last()) * 256 + s[0]);
    } else {
        let dl = s.drop_last();
        assert(dl[0] == s[0]);
        lemma_nat_of_be_lower(dl);
        lemma_pow_adds(256, 1, (s.len() - 2) as nat);
        lemma_pow1(256);
        assert(pow(256, (s.len() - 1) as nat) == 256 * pow(256, (s.len() - 2) as nat));
        assert(nat_of_be(dl) * 256 + s.last() >= 256 * pow(256, (s.len() - 2) as nat))
            by (nonlinear_arith)
            requires
                nat_of_be(dl) >= pow(256, (s.len() - 2) as nat),
        ;
    }
}

/// Round-trip fidelity at the byte boundary: two canonical big-endian byte
/// strings that write the same number are the same string, so writing back
/// the number a string was read as gives that string again, exactly.
pub proof fn lemma_canonical_be_injective(a: Seq<u8>, b: Seq<u8>)
    requires
        canonical_be(a),
        canonical_be(b),
        nat_of_be(a) == nat_of_be(b),
    ensures
        a == b,
    decreases a.len(),
{
    let v = nat_of_be(a);
    if a.len() < b.len() {
        lemma_nat_of_be_upper(a);
        lemma_nat_of_be_lower(b);
        lemma_pow_increases(256, a.len(), (b.len() - 1) as nat);
        assert(false);
    } else if b.len() < a.len() {
        lemma_nat_of_be_upper(b);
        lemma_nat_of_be_lower(a);
        lemma_pow_increases(256, b.len(), (a.len() - 1) as nat);
        assert(false);
    } else if a.len() == 1 {
        assert(nat_of_be(a) == nat_of_be(a.drop_last()) * 256 + a[0]);
        assert(nat_of_be(b) == nat_of_be(b.drop_last()) * 256 + b[0]);
        assert(a =~= b);
    } else {
        let xa = nat_of_be(a.drop_last());
        let xb = nat_of_be(b.drop_last());
        lemma_fundamental_div_mod_converse(v as int, 256, xa as int, a.last() as int);
        lemma_fundamental_div_mod_converse(v as int, 256, xb as int, b.last() as int);
        assert(a.drop_last()[0] == a[0]);
        assert(b.drop_last()[0] == b[0]);
        assert(a.last() == b.last());
        lemma_canonical_be_injective(a.drop_last(), b.drop_last());
        assert forall|i: int| 0 <= i < a.len() implies a[i] == b[i] by {
            if i < a.len() - 1 {
                assert(a[i] == a.drop_last()[i]);
                assert(b[i] == b.drop_last()[i]);
            } else {
                assert(a[i] == a.last());
                assert(b[i] == b.last());
            }
        }
        assert(a =~= b);
    }
}

/// The response stands for `k - c*x` in the exponents: it lies in `[0, q)`
/// and satisfies `s + c*x == k (mod q)`.
pub proof fn lemma_respond_congruence(k: nat, c: nat, x: nat, q: nat)
    requires
        q >= 1,
    ensures
        respond_value(k, c, x, q) < q,
        ((respond_value(k, c, x, q) + c * x) as int) % (q as int) == (k as int) % (q as int),
{
    let qi = q as int;
    let d = (c * x) as int;
    let s = respond_value(k, c, x, q) as int;
    if k >= d {
        lemma_mod_bound(k - d, qi);
        lemma_add_mod_noop_right(d, k - d, qi);
        assert(s + d == d + (k - d) % qi);
        assert((s + d) % qi == (d + (k - d)) % qi);
    } else {
        let r = (d - k) % qi;
        lemma_mod_bound(d - k, qi);
        if r == 0 {
            lemma_mod_equivalence(d, k as int, qi);
            assert(s + d == d);
        } else {
            lemma_fundamental_div_mod(d - k, qi);
            let j = (d - k) / qi;
            assert(d - k == qi * j + r);
            assert(s + d == k + (qi * j + qi));
            assert(qi * j + qi == qi * (j + 1)) by (nonlinear_arith);
            lemma_mod_multiples_vanish(j + 1, k as int, qi);
        }
    }
}

/// One verification equation for one generator `g` of order dividing `q`:
/// when `s + c*x == k (mod q)`, the verifier's product `g^s * (g^x)^c mod p`
/// gives back the commitment `g^k mod p`.
proof fn lemma_one_generator(p: nat, q: nat, g: nat, x: nat, k: nat, c: nat, s: nat)
    requires
        p >= 2,
        q >= 1,
        pow_mod(g, q, p) == 1,
        k < q,
        ((s + c * x) as int) % (q as int) == (k as int) % (q as int),
    ensures
        mul_mod(pow_mod(g, s, p), pow_mod(pow_mod(g, x, p), c, p), p) == pow_mod(g, k, p),
{
    let pi = p as int;
    let qi = q as int;
    let gi = g as int;
    let xc = x * c;
    let n = (s + xc) as nat;

    // The inner exponentiations reduced mod p do not change the product mod p.
    lemma_mod_bound(pow(gi, x), pi);
    lemma_pow_mod_noop(pow(gi, x), c, pi);
    lemma_pow_multiplies(gi, x, c);
    assert(pow_mod(pow_mod(g, x, p), c, p) == (pow(gi, xc) % pi) as nat);

    lemma_mod_bound(pow(gi, s), pi);
    lemma_mod_bound(pow(gi, xc), pi);
    lemma_mul_mod_noop_general(pow(gi, s), pow(gi, xc), pi);
    lemma_pow_adds(gi, s, xc);
    assert(mul_mod(pow_mod(g, s, p), pow_mod(pow_mod(g, x, p), c, p), p) == (pow(gi, n) % pi)
        as nat);

    // The exponent n equals k plus a multiple of q.
    lemma_mul_is_commutative(x as int, c as int);
    lemma_small_mod(k, q);
    assert((n as int) % qi == k as int);
    lemma_fundamental_div_mod(n as int, qi);
    let t = (n as int) / qi;
    lemma_div_pos_is_pos(n as int, qi);
    lemma_mul_nonnegative(qi, t);
    let qt = (qi * t) as nat;
    assert(n == qt + k);

    // Splitting off the multiple of q leaves g^k, because g^q mod p is 1.
    lemma_pow_adds(gi, qt, k);
    lemma_mod_bound(pow(gi, qt), pi);
    lemma_mod_bound(pow(gi, k), pi);
    lemma_mul_mod_noop_general(pow(gi, qt), pow(gi, k), pi);
    assert(pow(gi, n) % pi == ((pow(gi, qt) % pi) * (pow(gi, k) % pi)) % pi);
    lemma_pow_multiplies(gi, q, t as nat);
    assert(qt == q * (t as nat)) by (nonlinear_arith)
        requires
            t >= 0,
            qt == qi * t,
            qi == q,
    ;
    assert(pow(gi, qt) == pow(pow(gi, q), t as nat));
    lemma_pow_mod_noop(pow(gi, q), t as nat, pi);
    lemma_mod_bound(pow(gi, q), pi);
    assert(pow(gi, q) % pi == 1);
    lemma1_pow(t as nat);
    lemma_small_mod(1, p);
    assert(pow(gi, qt) % pi == 1);
    assert(1 * (pow(gi, k) % pi) == pow(gi, k) % pi);
    assert(pow(gi, n) % pi == (pow(gi, k) % pi) % pi);
    lemma_mod_bound(pow(gi, k), pi);
    lemma_small_mod(((pow(gi, k) % pi) as nat), p);
    assert((pow(gi, n) % pi) as nat == pow_mod(g, k, p));
}

/// Completeness of the proof protocol: for every group whose generators have
/// order dividing `q`, every secret `x`, nonce `k` and challenge `c` below
/// `q`, the response computed from them satisfies both verification
/// equations against the commitments `alpha^x, beta^x` and the nonce
/// commitments `alpha^k, beta^k`.
pub proof fn lemma_protocol_completeness(p: nat, q: nat, alpha: nat, beta: nat, x: nat, k: nat, c: nat)
    requires
        valid_group(p, q, alpha, beta),
        x < q,
        k < q,
        c < q,
    ensures
        verify_rel(
            p,
            alpha,
            beta,
            pow_mod(alpha, k, p),
            pow_mod(beta, k, p),
            pow_mod(alpha, x, p),
            pow_mod(beta, x, p),
            c,
            respond_value(k, c, x, q),
        ),
{
    let s = respond_value(k, c, x, q);
    lemma_respond_congruence(k, c, x, q);
    lemma_one_generator(p, q, alpha, x, k, c, s);
    lemma_one_generator(p, q, beta, x, k, c, s);
}

} // verus!
