use num_bigint::BigUint;
use zkp_chaum_pedersen::auth::{AuthError, AuthImpl};
use zkp_chaum_pedersen::engine::ZKP;

fn commitments(secret: &BigUint) -> (BigUint, BigUint) {
    let (alpha, beta, p, _q) = ZKP::get_constants();
    (
        ZKP::exponentiate(&alpha, secret, &p),
        ZKP::exponentiate(&beta, secret, &p),
    )
}

fn nonce_commitments(k: &BigUint) -> (BigUint, BigUint) {
    let (alpha, beta, p, _q) = ZKP::get_constants();
    (
        ZKP::exponentiate(&alpha, k, &p),
        ZKP::exponentiate(&beta, k, &p),
    )
}

#[test]
fn test_register_challenge_verify_roundtrip() {
    let (_alpha, _beta, _p, q) = ZKP::get_constants();
    let zkp = {
        let (alpha, beta, p, q) = ZKP::get_constants();
        ZKP {
            prime: p,
            order: q,
            alpha,
            beta,
        }
    };
    let mut auth = AuthImpl::new();

    let secret = ZKP::generate_random_number(&q);
    let (y1, y2) = commitments(&secret);
    auth.register("alice".to_string(), y1.to_bytes_be(), y2.to_bytes_be());
    assert_eq!(auth.user_count(), 1);

    let k = ZKP::generate_random_number(&q);
    let (r1, r2) = nonce_commitments(&k);
    let (auth_id, c_bytes) = auth
        .create_authentication_challenge(&"alice".to_string(), r1.to_bytes_be(), r2.to_bytes_be())
        .expect("challenge for a registered user");
    assert_eq!(auth.challenge_count(), 1);
    let c = BigUint::from_bytes_be(&c_bytes);
    assert!(c < q);

    let s = zkp.solve(&k, &c, &secret);
    assert_eq!(auth_id.chars().count(), 12);
    assert!(auth_id.chars().all(|c| c.is_ascii_alphanumeric()));
    let session_id = auth
        .verify_authentication(&auth_id, s.to_bytes_be())
        .expect("a correct response is accepted");
    assert_eq!(session_id.chars().count(), 12);
    assert!(session_id.chars().all(|c| c.is_ascii_alphanumeric()));
    // the context was consumed
    assert_eq!(auth.challenge_count(), 0);
    assert!(matches!(
        auth.verify_authentication(&auth_id, s.to_bytes_be()),
        Err(AuthError::NotFound)
    ));
}

#[test]
fn test_reregistration_replaces_record() {
    let (_alpha, _beta, _p, q) = ZKP::get_constants();
    let mut auth = AuthImpl::new();
    let first = ZKP::generate_random_number(&q);
    let (y1, y2) = commitments(&first);
    auth.register("bob".to_string(), y1.to_bytes_be(), y2.to_bytes_be());
    let second = ZKP::generate_random_number(&q);
    let (y1b, y2b) = commitments(&second);
    auth.register("bob".to_string(), y1b.to_bytes_be(), y2b.to_bytes_be());
    assert_eq!(auth.user_count(), 1);

    // only the second secret authenticates now
    let zkp = {
        let (alpha, beta, p, q) = ZKP::get_constants();
        ZKP {
            prime: p,
            order: q,
            alpha,
            beta,
        }
    };
    let k = ZKP::generate_random_number(&q);
    let (r1, r2) = nonce_commitments(&k);
    let (auth_id, c_bytes) = auth
        .create_authentication_challenge(&"bob".to_string(), r1.to_bytes_be(), r2.to_bytes_be())
        .expect("challenge for a registered user");
    let c = BigUint::from_bytes_be(&c_bytes);
    let s = zkp.solve(&k, &c, &second);
    assert!(auth.verify_authentication(&auth_id, s.to_bytes_be()).is_ok());
}

#[test]
fn test_challenge_unknown_user_not_found() {
    let mut auth = AuthImpl::new();
    let before = auth.challenge_count();
    let res = auth.create_authentication_challenge(
        &"nobody".to_string(),
        vec![1_u8],
        vec![2_u8],
    );
    assert!(matches!(res, Err(AuthError::NotFound)));
    assert_eq!(auth.challenge_count(), before);
    assert_eq!(auth.user_count(), 0);
}

#[test]
fn test_verify_unknown_auth_id_not_found() {
    let mut auth = AuthImpl::new();
    let res = auth.verify_authentication(&"no-such-token".to_string(), vec![1_u8]);
    assert!(matches!(res, Err(AuthError::NotFound)));
}

#[test]
fn test_verify_wrong_solution_permission_denied() {
    let (_alpha, _beta, _p, q) = ZKP::get_constants();
    let zkp = {
        let (alpha, beta, p, q) = ZKP::get_constants();
        ZKP {
            prime: p,
            order: q,
            alpha,
            beta,
        }
    };
    let mut auth = AuthImpl::new();
    let secret = ZKP::generate_random_number(&q);
    let (y1, y2) = commitments(&secret);
    auth.register("carol".to_string(), y1.to_bytes_be(), y2.to_bytes_be());

    let k = ZKP::generate_random_number(&q);
    let (r1, r2) = nonce_commitments(&k);
    let (auth_id, c_bytes) = auth
        .create_authentication_challenge(&"carol".to_string(), r1.to_bytes_be(), r2.to_bytes_be())
        .expect("challenge for a registered user");
    let c = BigUint::from_bytes_be(&c_bytes);
    let s = zkp.solve(&k, &c, &secret);
    let bad = (s + BigUint::from(1_u32)) % &q;
    let res = auth.verify_authentication(&auth_id, bad.to_bytes_be());
    assert!(matches!(res, Err(AuthError::PermissionDenied)));
    // the context is spent even on failure: no second try against it
    assert!(matches!(
        auth.verify_authentication(&auth_id, bad.to_bytes_be()),
        Err(AuthError::NotFound)
    ));
}

#[test]
fn test_two_challenges_distinct_and_independent() {
    let (_alpha, _beta, _p, q) = ZKP::get_constants();
    let zkp = {
        let (alpha, beta, p, q) = ZKP::get_constants();
        ZKP {
            prime: p,
            order: q,
            alpha,
            beta,
        }
    };
    let mut auth = AuthImpl::new();
    let secret = ZKP::generate_random_number(&q);
    let (y1, y2) = commitments(&secret);
    auth.register("dave".to_string(), y1.to_bytes_be(), y2.to_bytes_be());

    let k1 = ZKP::generate_random_number(&q);
    let (r1a, r2a) = nonce_commitments(&k1);
    let (id1, c1_bytes) = auth
        .create_authentication_challenge(&"dave".to_string(), r1a.to_bytes_be(), r2a.to_bytes_be())
        .expect("first challenge");

    let k2 = ZKP::generate_random_number(&q);
    let (r1b, r2b) = nonce_commitments(&k2);
    let (id2, c2_bytes) = auth
        .create_authentication_challenge(&"dave".to_string(), r1b.to_bytes_be(), r2b.to_bytes_be())
        .expect("second challenge");

    assert_ne!(id1, id2);
    assert_eq!(auth.challenge_count(), 2);

    // each context answers only with its own nonce and challenge value
    let c1 = BigUint::from_bytes_be(&c1_bytes);
    let c2 = BigUint::from_bytes_be(&c2_bytes);
    let s2 = zkp.solve(&k2, &c2, &secret);
    assert!(auth.verify_authentication(&id2, s2.to_bytes_be()).is_ok());
    let s1 = zkp.solve(&k1, &c1, &secret);
    assert!(auth.verify_authentication(&id1, s1.to_bytes_be()).is_ok());
    assert_eq!(auth.challenge_count(), 0);
}
