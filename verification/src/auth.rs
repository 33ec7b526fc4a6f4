//! The verifier-side authentication service.
//!
//! `AuthImpl` sequences Register -> Challenge -> Verify.  It owns two
//! stores: registered users with their commitments, and pending challenge
//! contexts under opaque auth tokens.  Integers cross its boundary as
//! big-endian unsigned bytes, as they do on the wire.

use vstd::prelude::*;
use num_bigint::BigUint;
use crate::bignum::{big_value, big_clone, big_from_bytes_be, big_to_bytes_be, nat_of_be};
use crate::engine::{
    ZKP,
    is_alphanumeric_char,
    verify_rel,
    group_p,
    group_q,
    group_alpha,
    group_beta,
    lemma_group_bounds,
};
use crate::store::StrMap;

verus! {

/// Why an operation failed.
#[derive(Clone, Copy, PartialEq, Eq, Structural, Debug)]
pub enum AuthError {
    /// The referenced user or challenge is unknown.
    NotFound,
    /// The submitted response does not satisfy the verification equations.
    PermissionDenied,
    /// The service state broke an invariant, or no fresh token could be drawn.
    Internal,
}

/// A registered user's commitments `y1 = alpha^x`, `y2 = beta^x` (mod p).
pub struct UserRecord {
    pub y1: BigUint,
    pub y2: BigUint,
}

/// A pending challenge: who it was issued to, the prover's nonce
/// commitments, and the drawn challenge value.
pub struct ChallengeContext {
    pub user_id: String,
    pub r1: BigUint,
    pub r2: BigUint,
    pub c: BigUint,
}

/// What a user record holds, as numbers.
pub ghost struct UserV {
    pub y1: nat,
    pub y2: nat,
}

/// What a pending challenge holds, as numbers.
pub ghost struct ChallengeV {
    pub user_id: Seq<char>,
    pub r1: nat,
    pub r2: nat,
    pub c: nat,
}

/// The service state: registered users and pending challenges.
pub ghost struct AuthView {
    pub users: Map<Seq<char>, UserV>,
    pub challenges: Map<Seq<char>, ChallengeV>,
}

pub open spec fn user_v(r: UserRecord) -> UserV {
    UserV { y1: big_value(r.y1), y2: big_value(r.y2) }
}

pub open spec fn challenge_v(t: ChallengeContext) -> ChallengeV {
    ChallengeV {
        user_id: t.user_id@,
        r1: big_value(t.r1),
        r2: big_value(t.r2),
        c: big_value(t.c),
    }
}

/// Length of the opaque auth and session tokens.
pub const TOKEN_LENGTH: usize = 12;

/// An opaque token as the service mints them: `TOKEN_LENGTH` ASCII
/// alphanumeric characters.
pub open spec fn valid_token(s: Seq<char>) -> bool {
    &&& s.len() == TOKEN_LENGTH
    &&& forall|i: int| 0 <= i < s.len() ==> is_alphanumeric_char(#[trigger] s[i])
}

/// How often a colliding token draw is retried before giving up.
const MINT_ATTEMPTS: usize = 16;

/// The verifier-side service.
pub struct AuthImpl {
    zkp: ZKP,
    user_info: StrMap<UserRecord>,
    challenges: StrMap<ChallengeContext>,
}

impl View for AuthImpl {
    type V = AuthView;

    closed spec fn view(&self) -> AuthView {
        AuthView {
            users: self.user_info@.map_values(|r: UserRecord| user_v(r)),
            challenges: self.challenges@.map_values(|t: ChallengeContext| challenge_v(t)),
        }
    }
}

impl AuthImpl {
    /// The stores hold each key once and the group constants are the fixed
    /// tuple that both sides share.  This holds of every `AuthImpl` ever
    /// constructed, so the operations carry no precondition.
    #[verifier::type_invariant]
    spec fn wf(&self) -> bool {
        &&& self.user_info.well_formed()
        &&& self.challenges.well_formed()
        &&& self.zkp.prime_v() == group_p()
        &&& self.zkp.order_v() == group_q()
        &&& self.zkp.alpha_v() == group_alpha()
        &&& self.zkp.beta_v() == group_beta()
    }

    /// A fresh service with no users and no pending challenges.
    pub fn new() -> (r: Self)
        ensures
            r@.users == Map::<Seq<char>, UserV>::empty(),
            r@.challenges == Map::<Seq<char>, ChallengeV>::empty(),
    {
        let (alpha, beta, p, q) = ZKP::get_constants();
        let r = AuthImpl {
            zkp: ZKP { prime: p, order: q, alpha, beta },
            user_info: StrMap::new(),
            challenges: StrMap::new(),
        };
        proof {
            assert(r@.users =~= Map::<Seq<char>, UserV>::empty());
            assert(r@.challenges =~= Map::<Seq<char>, ChallengeV>::empty());
        }
        r
    }

    /// Registers a user, replacing without condition whatever the name held
    /// before.  Nothing else changes.
    pub fn register(&mut self, user: String, y1: Vec<u8>, y2: Vec<u8>)
        ensures
            final (self)@.users == old(self)@.users.insert(
                user@,
                (UserV { y1: nat_of_be(y1@), y2: nat_of_be(y2@) }),
            ),
            final (self)@.challenges == old(self)@.challenges,
    {
        proof {
            use_type_invariant(&*self);
        }
        let rec = UserRecord {
            y1: big_from_bytes_be(y1.as_slice()),
            y2: big_from_bytes_be(y2.as_slice()),
        };
        let mut users = StrMap::new();
        std::mem::swap(&mut users, &mut self.user_info);
        users.insert(user, rec);
        self.user_info = users;
        proof {
            assert(self@.users =~= old(self)@.users.insert(
                user@,
                (UserV { y1: nat_of_be(y1@), y2: nat_of_be(y2@) }),
            ));
            assert(self@.challenges =~= old(self)@.challenges);
        }
    }

    /// Draws a token that no pending challenge holds yet.  `None` comes
    /// only when the random source collides on every attempt, which takes a
    /// pending challenge to collide with: with none pending, the first draw
    /// is fresh and the mint cannot fail.
    fn mint_fresh_token(&self) -> (r: Option<String>)
        ensures
            r is Some ==> valid_token(r->0@) && !self@.challenges.contains_key(r->0@),
            self@.challenges.dom().len() == 0 ==> r is Some,
    {
        let mut attempts: usize = 0;
        while attempts < MINT_ATTEMPTS
            invariant
                attempts > 0 ==> self@.challenges.dom().len() >= 1,
            decreases MINT_ATTEMPTS - attempts,
        {
            proof {
                use_type_invariant(self);
                assert(self@.challenges.dom() =~= self.challenges@.dom());
            }
            let t = ZKP::generate_random_string(TOKEN_LENGTH);
            if !self.challenges.contains(&t) {
                proof {
                    assert(!self@.challenges.contains_key(t@));
                }
                return Some(t);
            }
            proof {
                self.challenges.lemma_nonempty(t@);
            }
            attempts = attempts + 1;
        }
        None
    }

    /// Issues a challenge to a registered user: draws `c` below `q`, mints a
    /// fresh auth token, stores the context and returns the token with `c`
    /// as bytes.  An unknown user gets `NotFound`; a service whose token
    /// draws all collided gets `Internal`, which cannot happen while no
    /// challenge is pending.  Every failure leaves the state unchanged, and
    /// no stored context is ever overwritten.
    pub fn create_authentication_challenge(
        &mut self,
        user: &String,
        r1: Vec<u8>,
        r2: Vec<u8>,
    ) -> (res: Result<(String, Vec<u8>), AuthError>)
        ensures
            final (self)@.users == old(self)@.users,
            !old(self)@.users.contains_key(user@) <==> (res matches Err(e) && e
                == AuthError::NotFound),
            res is Err ==> final (self)@.challenges == old(self)@.challenges,
            res is Err ==> (res->Err_0 == AuthError::NotFound || res->Err_0
                == AuthError::Internal),
            old(self)@.users.contains_key(user@) && old(self)@.challenges.dom().len() == 0
                ==> res is Ok,
            res matches Ok(out) ==> {
                &&& valid_token(out.0@)
                &&& !old(self)@.challenges.contains_key(out.0@)
                &&& nat_of_be(out.1@) < group_q()
                &&& final (self)@.challenges == old(self)@.challenges.insert(
                    out.0@,
                    (ChallengeV {
                        user_id: user@,
                        r1: nat_of_be(r1@),
                        r2: nat_of_be(r2@),
                        c: nat_of_be(out.1@),
                    }),
                )
            },
    {
        proof {
            use_type_invariant(&*self);
        }
        if !self.user_info.contains(user) {
            return Err(AuthError::NotFound);
        }
        proof {
            lemma_group_bounds();
        }
        let c = ZKP::generate_random_number(&self.zkp.order);
        let auth_id = match self.mint_fresh_token() {
            Some(t) => t,
            None => {
                return Err(AuthError::Internal);
            },
        };
        let c_bytes = big_to_bytes_be(&c);
        let ctx = ChallengeContext {
            user_id: user.clone(),
            r1: big_from_bytes_be(r1.as_slice()),
            r2: big_from_bytes_be(r2.as_slice()),
            c,
        };
        let token = auth_id.clone();
        let mut pending = StrMap::new();
        std::mem::swap(&mut pending, &mut self.challenges);
        pending.insert(auth_id, ctx);
        self.challenges = pending;
        proof {
            assert(self@.users =~= old(self)@.users);
            assert(self@.challenges =~= old(self)@.challenges.insert(
                token@,
                (ChallengeV {
                    user_id: user@,
                    r1: nat_of_be(r1@),
                    r2: nat_of_be(r2@),
                    c: nat_of_be(c_bytes@),
                }),
            ));
        }
        Ok((token, c_bytes))
    }

    /// Checks a submitted response against the stored challenge context and
    /// the user's commitments.  An unknown token gets `NotFound`; a context
    /// whose user record is gone gets `Internal`.  When the context is
    /// found with its user, it is removed either way - a challenge is good
    /// for one attempt - and the caller gets a fresh session token when the
    /// proof checks out, `PermissionDenied` when it does not.
    pub fn verify_authentication(&mut self, auth_id: &String, s: Vec<u8>) -> (res: Result<
        String,
        AuthError,
    >)
        ensures
            final (self)@.users == old(self)@.users,
            !old(self)@.challenges.contains_key(auth_id@) <==> (res matches Err(e) && e
                == AuthError::NotFound),
            (res matches Err(e) && (e == AuthError::NotFound || e == AuthError::Internal))
                ==> final (self)@.challenges == old(self)@.challenges,
            old(self)@.challenges.contains_key(auth_id@) ==> ({
                let ctx = old(self)@.challenges[auth_id@];
                if !old(self)@.users.contains_key(ctx.user_id) {
                    res == Err::<String, AuthError>(AuthError::Internal)
                } else {
                    let u = old(self)@.users[ctx.user_id];
                    let ok = verify_rel(
                        group_p(),
                        group_alpha(),
                        group_beta(),
                        ctx.r1,
                        ctx.r2,
                        u.y1,
                        u.y2,
                        ctx.c,
                        nat_of_be(s@),
                    );
                    &&& final (self)@.challenges == old(self)@.challenges.remove(auth_id@)
                    &&& (ok <==> res is Ok)
                    &&& (res matches Ok(sid) ==> valid_token(sid@))
                    &&& (!ok ==> res == Err::<String, AuthError>(AuthError::PermissionDenied))
                }
            }),
    {
        proof {
            use_type_invariant(&*self);
        }
        let (user_id, r1, r2, c) = match self.challenges.get(auth_id) {
            Some(ctx) => (
                ctx.user_id.clone(),
                big_clone(&ctx.r1),
                big_clone(&ctx.r2),
                big_clone(&ctx.c),
            ),
            None => {
                return Err(AuthError::NotFound);
            },
        };
        let (y1, y2) = match self.user_info.get(&user_id) {
            Some(u) => (big_clone(&u.y1), big_clone(&u.y2)),
            None => {
                return Err(AuthError::Internal);
            },
        };
        let s_big = big_from_bytes_be(s.as_slice());
        proof {
            lemma_group_bounds();
        }
        let ok = self.zkp.verify(&r1, &r2, &y1, &y2, &c, &s_big);
        let mut pending = StrMap::new();
        std::mem::swap(&mut pending, &mut self.challenges);
        pending.remove(auth_id);
        self.challenges = pending;
        proof {
            assert(self@.users =~= old(self)@.users);
            assert(self@.challenges =~= old(self)@.challenges.remove(auth_id@));
        }
        if ok {
            Ok(ZKP::generate_random_string(TOKEN_LENGTH))
        } else {
            Err(AuthError::PermissionDenied)
        }
    }

    /// How many users are registered.
    pub fn user_count(&self) -> (n: usize)
        ensures
            n == self@.users.dom().len(),
    {
        proof {
            use_type_invariant(self);
            assert(self@.users.dom() =~= self.user_info@.dom());
        }
        self.user_info.len()
    }

    /// How many challenges are pending.
    pub fn challenge_count(&self) -> (n: usize)
        ensures
            n == self@.challenges.dom().len(),
    {
        proof {
            use_type_invariant(self);
            assert(self@.challenges.dom() =~= self.challenges@.dom());
        }
        self.challenges.len()
    }
}

/// Two challenges issued in turn get distinct tokens, and neither context
/// disturbs the other: each token still maps to exactly the context stored
/// under it.
pub proof fn lemma_distinct_challenges(
    m0: Map<Seq<char>, ChallengeV>,
    a1: Seq<char>,
    t1: ChallengeV,
    m1: Map<Seq<char>, ChallengeV>,
    a2: Seq<char>,
    t2: ChallengeV,
    m2: Map<Seq<char>, ChallengeV>,
)
    requires
        !m0.contains_key(a1),
        m1 == m0.insert(a1, t1),
        !m1.contains_key(a2),
        m2 == m1.insert(a2, t2),
    ensures
        a1 != a2,
        m2[a1] == t1,
        m2[a2] == t2,
{
}

} // verus!
