//! The Chaum-Pedersen proof arithmetic.
//!
//! `ZKP` carries the group constants `(p, q, alpha, beta)`; its methods
//! compute commitments, responses and the verification predicate over
//! arbitrary-precision integers.  The mathematics is stated by the spec
//! functions below, over the natural numbers the `BigUint` values hold.

use vstd::prelude::*;
use vstd::arithmetic::power::{pow, lemma_pow1};
use vstd::arithmetic::div_mod::lemma_mod_bound;
use num_bigint::BigUint;
use rand::Rng;
use num_bigint::RandBigInt;
use crate::bignum::{big_value, big_from_u64, big_from_bytes_be, big_mul, big_sub, big_ge, big_eq, nat_of_be};
use crate::hexcode::{decode_hex, hex_ok, hex_bytes};

verus! {

/// The prime modulus of the 1024-bit MODP group, written in hexadecimal.
pub open spec fn p_hex() -> Seq<char> {
    "B10B8F96A080E01DDE92DE5EAE5D54EC52C99FBCFB06A3C69A6A9DCA52D23B616073E28675A23D189838EF1E2EE652C013ECB4AEA906112324975C3CD49B83BFACCBDD7D90C4BD7098488E9C219A73724EFFD6FAE5644738FAA31A4FF55BCCC0A151AF5F0DC8B4BD45BF37DF365C1A65E68CFDA76D4DA708DF1FB2BC2E4A4371"@
}

/// The 160-bit order of the prime subgroup, written in hexadecimal.
pub open spec fn q_hex() -> Seq<char> {
    "F518AA8781A8DF278ABA4E7D64B7CB9D49462353"@
}

/// The subgroup generator, written in hexadecimal.
pub open spec fn alpha_hex() -> Seq<char> {
    "A4D1CBD5C3FD34126765A442EFB99905F8104DD258AC507FD6406CFF14266D31266FEA1E5C41564B777E690F5504F213160217B4B01B886A5E91547F9E2749F4D7FBD7D3B9A92EE1909D0D2263F80A76A6A24C087A091F531DBF0A0169B6A28AD662A4D18E73AFA32D779D5918D08BC8858F4DCEF97C2A24855E6EEB22B3B2E5"@
}

/// The exponent that derives the second generator from the first, so that
/// every process computes one and the same constant tuple.
pub const BETA_EXPONENT: u64 = 2;

pub open spec fn group_p() -> nat {
    nat_of_be(hex_bytes(p_hex()))
}

pub open spec fn group_q() -> nat {
    nat_of_be(hex_bytes(q_hex()))
}

pub open spec fn group_alpha() -> nat {
    nat_of_be(hex_bytes(alpha_hex()))
}

pub open spec fn group_beta() -> nat {
    pow_mod(group_alpha(), BETA_EXPONENT as nat, group_p())
}

/// The written constants are well-formed hexadecimal and give a modulus and
/// an order large enough to work under.
proof fn lemma_group_literals()
    ensures
        hex_ok(p_hex()),
        hex_ok(q_hex()),
        hex_ok(alpha_hex()),
        group_p() >= 2,
        group_q() >= 1,
{
    reveal_strlit("B10B8F96A080E01DDE92DE5EAE5D54EC52C99FBCFB06A3C69A6A9DCA52D23B616073E28675A23D189838EF1E2EE652C013ECB4AEA906112324975C3CD49B83BFACCBDD7D90C4BD7098488E9C219A73724EFFD6FAE5644738FAA31A4FF55BCCC0A151AF5F0DC8B4BD45BF37DF365C1A65E68CFDA76D4DA708DF1FB2BC2E4A4371");
    reveal_strlit("F518AA8781A8DF278ABA4E7D64B7CB9D49462353");
    reveal_strlit("A4D1CBD5C3FD34126765A442EFB99905F8104DD258AC507FD6406CFF14266D31266FEA1E5C41564B777E690F5504F213160217B4B01B886A5E91547F9E2749F4D7FBD7D3B9A92EE1909D0D2263F80A76A6A24C087A091F531DBF0A0169B6A28AD662A4D18E73AFA32D779D5918D08BC8858F4DCEF97C2A24855E6EEB22B3B2E5");
    assert(hex_ok(q_hex()));
    assert(hex_ok(p_hex()));
    assert(hex_ok(alpha_hex()));
    let qb = hex_bytes(q_hex());
    assert(qb.last() == 0x53 && qb.len() >= 1);
    assert(nat_of_be(qb) == nat_of_be(qb.drop_last()) * 256 + 0x53);
    let pb = hex_bytes(p_hex());
    assert(pb.last() == 0x71 && pb.len() >= 1);
    assert(nat_of_be(pb) == nat_of_be(pb.drop_last()) * 256 + 0x71);
}

/// The group constants are large enough to draw from and reduce by.
pub proof fn lemma_group_bounds()
    ensures
        group_p() >= 2,
        group_q() >= 1,
{
    lemma_group_literals();
}

/// An ASCII alphanumeric character: a digit or a letter of either case.
pub open spec fn is_alphanumeric_char(c: char) -> bool {
    ||| 48 <= c as int && c as int <= 57  // '0' ..= '9'

    ||| 65 <= c as int && c as int <= 90  // 'A' ..= 'Z'

    ||| 97 <= c as int && c as int <= 122  // 'a' ..= 'z'

}

/// `b^e mod m`.
pub open spec fn pow_mod(b: nat, e: nat, m: nat) -> nat
    recommends
        m >= 1,
{
    (pow(b as int, e) % (m as int)) as nat
}

/// `(a * b) mod m`.
pub open spec fn mul_mod(a: nat, b: nat, m: nat) -> nat
    recommends
        m >= 1,
{
    (((a * b) as int) % (m as int)) as nat
}

/// The prover's response to challenge `c`: `k - c*x` reduced into `[0, q)`.
/// When `k < c*x`, the reduction `q - ((c*x - k) mod q)` would give `q`
/// itself whenever the inner remainder is zero, so that case is sent to `0`.
pub open spec fn respond_value(k: nat, c: nat, x: nat, q: nat) -> nat
    recommends
        q >= 1,
{
    let d = c * x;
    if k >= d {
        ((k - d) % (q as int)) as nat
    } else {
        let r = ((d - k) % (q as int)) as nat;
        if r == 0 {
            0nat
        } else {
            (q - r) as nat
        }
    }
}

/// Both verification equations: `r1 = alpha^s * y1^c mod p` and
/// `r2 = beta^s * y2^c mod p`.  A match on a single generator is a failure.
pub open spec fn verify_rel(
    p: nat,
    alpha: nat,
    beta: nat,
    r1: nat,
    r2: nat,
    y1: nat,
    y2: nat,
    c: nat,
    s: nat,
) -> bool {
    &&& r1 == mul_mod(pow_mod(alpha, s, p), pow_mod(y1, c, p), p)
    &&& r2 == mul_mod(pow_mod(beta, s, p), pow_mod(y2, c, p), p)
}

/// Group constants under which the protocol is complete: both generators
/// have order dividing `q` in the multiplicative group mod `p`.
pub open spec fn valid_group(p: nat, q: nat, alpha: nat, beta: nat) -> bool {
    &&& p >= 2
    &&& q >= 1
    &&& pow_mod(alpha, q, p) == 1
    &&& pow_mod(beta, q, p) == 1
}

/// The group constants: prime modulus `p`, subgroup order `q`, and the two
/// generators `alpha` and `beta`.
pub struct ZKP {
    pub prime: BigUint,
    pub order: BigUint,
    pub alpha: BigUint,
    pub beta: BigUint,
}

impl ZKP {
    pub open spec fn prime_v(&self) -> nat {
        big_value(self.prime)
    }

    pub open spec fn order_v(&self) -> nat {
        big_value(self.order)
    }

    pub open spec fn alpha_v(&self) -> nat {
        big_value(self.alpha)
    }

    pub open spec fn beta_v(&self) -> nat {
        big_value(self.beta)
    }

    /// `number^exponent mod modulo`.
    ///
    /// Relies on `num_bigint::BigUint::modpow`: modular exponentiation,
    /// which panics when the modulus is zero.
    #[verifier::external_body]
    pub fn exponentiate(number: &BigUint, exponent: &BigUint, modulo: &BigUint) -> (r: BigUint)
        requires
            big_value(*modulo) >= 1,
        ensures
            big_value(r) == pow_mod(big_value(*number), big_value(*exponent), big_value(*modulo)),
    {
        number.modpow(exponent, modulo)
    }

    /// The response `s = k - c * x mod q`, reduced into `[0, q)`.
    pub fn solve(&self, k: &BigUint, c: &BigUint, x: &BigUint) -> (s: BigUint)
        requires
            self.order_v() >= 1,
        ensures
            big_value(s) == respond_value(big_value(*k), big_value(*c), big_value(*x), self.order_v()),
            big_value(s) < self.order_v(),
    {
        let one = big_from_u64(1);
        let cx = big_mul(c, x);
        if big_ge(k, &cx) {
            let diff = big_sub(k, &cx);
            let s = Self::exponentiate(&diff, &one, &self.order);
            proof {
                lemma_pow1(big_value(diff) as int);
                lemma_mod_bound(big_value(diff) as int, self.order_v() as int);
            }
            s
        } else {
            let diff = big_sub(&cx, k);
            let red = Self::exponentiate(&diff, &one, &self.order);
            proof {
                lemma_pow1(big_value(diff) as int);
                lemma_mod_bound(big_value(diff) as int, self.order_v() as int);
            }
            let zero = big_from_u64(0);
            if big_eq(&red, &zero) {
                zero
            } else {
                big_sub(&self.order, &red)
            }
        }
    }

    /// The verification predicate: true iff `r1 = alpha^s * y1^c mod p`
    /// and `r2 = beta^s * y2^c mod p`.
    pub fn verify(
        &self,
        r_1: &BigUint,
        r_2: &BigUint,
        y_1: &BigUint,
        y_2: &BigUint,
        c: &BigUint,
        s: &BigUint,
    ) -> (ok: bool)
        requires
            self.prime_v() >= 1,
        ensures
            ok == verify_rel(
                self.prime_v(),
                self.alpha_v(),
                self.beta_v(),
                big_value(*r_1),
                big_value(*r_2),
                big_value(*y_1),
                big_value(*y_2),
                big_value(*c),
                big_value(*s),
            ),
    {
        let one = big_from_u64(1);
        let a_s = Self::exponentiate(&self.alpha, s, &self.prime);
        let y1_c = Self::exponentiate(y_1, c, &self.prime);
        let prod1 = big_mul(&a_s, &y1_c);
        let lhs1 = Self::exponentiate(&prod1, &one, &self.prime);
        proof {
            lemma_pow1(big_value(prod1) as int);
        }
        let cond1 = big_eq(r_1, &lhs1);
        let b_s = Self::exponentiate(&self.beta, s, &self.prime);
        let y2_c = Self::exponentiate(y_2, c, &self.prime);
        let prod2 = big_mul(&b_s, &y2_c);
        let lhs2 = Self::exponentiate(&prod2, &one, &self.prime);
        proof {
            lemma_pow1(big_value(prod2) as int);
        }
        let cond2 = big_eq(r_2, &lhs2);
        cond1 && cond2
    }

    /// The constant tuple `(alpha, beta, p, q)` of the 1024-bit group, the
    /// same in every process.  The second generator is derived from the
    /// first by a fixed public exponent; a deployment that needs the
    /// discrete-log relation between the generators to be unknown to every
    /// party must distribute a tuple of its own in place of this one.
    pub fn get_constants() -> (r: (BigUint, BigUint, BigUint, BigUint))
        ensures
            big_value(r.0) == group_alpha(),
            big_value(r.1) == group_beta(),
            big_value(r.2) == group_p(),
            big_value(r.3) == group_q(),
            group_p() >= 2,
            group_q() >= 1,
    {
        proof {
            lemma_group_literals();
        }
        let p_lit = "B10B8F96A080E01DDE92DE5EAE5D54EC52C99FBCFB06A3C69A6A9DCA52D23B616073E28675A23D189838EF1E2EE652C013ECB4AEA906112324975C3CD49B83BFACCBDD7D90C4BD7098488E9C219A73724EFFD6FAE5644738FAA31A4FF55BCCC0A151AF5F0DC8B4BD45BF37DF365C1A65E68CFDA76D4DA708DF1FB2BC2E4A4371";
        let q_lit = "F518AA8781A8DF278ABA4E7D64B7CB9D49462353";
        let alpha_lit = "A4D1CBD5C3FD34126765A442EFB99905F8104DD258AC507FD6406CFF14266D31266FEA1E5C41564B777E690F5504F213160217B4B01B886A5E91547F9E2749F4D7FBD7D3B9A92EE1909D0D2263F80A76A6A24C087A091F531DBF0A0169B6A28AD662A4D18E73AFA32D779D5918D08BC8858F4DCEF97C2A24855E6EEB22B3B2E5";
        let p_bytes = match decode_hex(p_lit) {
            Some(v) => v,
            None => vstd::pervasive::unreached(),
        };
        let q_bytes = match decode_hex(q_lit) {
            Some(v) => v,
            None => vstd::pervasive::unreached(),
        };
        let alpha_bytes = match decode_hex(alpha_lit) {
            Some(v) => v,
            None => vstd::pervasive::unreached(),
        };
        let p = big_from_bytes_be(p_bytes.as_slice());
        let q = big_from_bytes_be(q_bytes.as_slice());
        let alpha = big_from_bytes_be(alpha_bytes.as_slice());
        let e = big_from_u64(BETA_EXPONENT);
        let beta = Self::exponentiate(&alpha, &e, &p);
        (alpha, beta, p, q)
    }

    /// A uniform draw from `[0, bound)`.
    ///
    /// Relies on `rand::thread_rng` and `num_bigint::RandBigInt::gen_biguint_below`,
    /// which panics when the bound is zero.  Nothing relates two draws, so no
    /// more than the bound is stated.  `thread_rng` is no vetted
    /// cryptographic source; a hardened deployment would put one in its place.
    #[verifier::external_body]
    pub fn generate_random_number(bound: &BigUint) -> (r: BigUint)
        requires
            big_value(*bound) >= 1,
        ensures
            big_value(r) < big_value(*bound),
    {
        let mut rng = rand::thread_rng();
        rng.gen_biguint_below(bound)
    }

    /// An unpredictable token of `size` alphanumeric characters.
    ///
    /// Relies on `rand::thread_rng` and `rand::distributions::Alphanumeric`:
    /// an endless stream of characters drawn from the 62 ASCII alphanumerics,
    /// of which `size` are taken.
    #[verifier::external_body]
    pub fn generate_random_string(size: usize) -> (r: String)
        ensures
            r@.len() == size,
            forall|i: int| 0 <= i < r@.len() ==> is_alphanumeric_char(#[trigger] r@[i]),
    {
        rand::thread_rng()
            .sample_iter(rand::distributions::Alphanumeric)
            .take(size)
            .map(char::from)
            .collect()
    }
}

} // verus!
