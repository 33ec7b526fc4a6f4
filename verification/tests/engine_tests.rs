use num_bigint::BigUint;
use zkp_chaum_pedersen::engine::ZKP;
use zkp_chaum_pedersen::hexcode::decode_hex;

#[test]
fn test_toy_example() {
    let alpha = BigUint::from(4_u32);
    let beta = BigUint::from(9_u32);
    let prime = BigUint::from(23_u32);
    let order = BigUint::from(11_u32);
    let zkp = ZKP {
        prime: prime.clone(),
        order,
        alpha: alpha.clone(),
        beta: beta.clone(),
    };

    let secret = BigUint::from(6_u32);
    let random_k = BigUint::from(7_u32);
    let random_c = BigUint::from(4_u32);

    let y_1 = ZKP::exponentiate(&alpha, &secret, &prime);
    let y_2 = ZKP::exponentiate(&beta, &secret, &prime);

    assert_eq!(y_1, BigUint::from(2_u32));
    assert_eq!(y_2, BigUint::from(3_u32));

    let r_1 = ZKP::exponentiate(&alpha, &random_k, &prime);
    let r_2 = ZKP::exponentiate(&beta, &random_k, &prime);

    assert_eq!(r_1, BigUint::from(8_u32));
    assert_eq!(r_2, BigUint::from(4_u32));

    let solution = zkp.solve(&random_k, &random_c, &secret);
    assert_eq!(solution, BigUint::from(5_u32));

    let cond = zkp.verify(&r_1, &r_2, &y_1, &y_2, &random_c, &solution);
    assert!(cond)
}

#[test]
fn test_toy_example_with_random_numbers() {
    let alpha = BigUint::from(4_u32);
    let beta = BigUint::from(9_u32);
    let prime = BigUint::from(23_u32);
    let order = BigUint::from(11_u32);
    let zkp = ZKP {
        prime: prime.clone(),
        order: order.clone(),
        alpha: alpha.clone(),
        beta: beta.clone(),
    };

    let secret = BigUint::from(6_u32);
    let random_k = ZKP::generate_random_number(&order);
    let random_c = ZKP::generate_random_number(&order);

    let y_1 = ZKP::exponentiate(&alpha, &secret, &prime);
    let y_2 = ZKP::exponentiate(&beta, &secret, &prime);

    let r_1 = ZKP::exponentiate(&alpha, &random_k, &prime);
    let r_2 = ZKP::exponentiate(&beta, &random_k, &prime);

    let solution = zkp.solve(&random_k, &random_c, &secret);

    let cond = zkp.verify(&r_1, &r_2, &y_1, &y_2, &random_c, &solution);
    assert!(cond)
}

#[test]
fn test_toy_example_with_1024_bit_constants() {
    let p = decode_hex("B10B8F96A080E01DDE92DE5EAE5D54EC52C99FBCFB06A3C69A6A9DCA52D23B616073E28675A23D189838EF1E2EE652C013ECB4AEA906112324975C3CD49B83BFACCBDD7D90C4BD7098488E9C219A73724EFFD6FAE5644738FAA31A4FF55BCCC0A151AF5F0DC8B4BD45BF37DF365C1A65E68CFDA76D4DA708DF1FB2BC2E4A4371")
        .expect("could not decode hex");
    let p = BigUint::from_bytes_be(&p);

    let q = decode_hex("F518AA8781A8DF278ABA4E7D64B7CB9D49462353").expect("could not decode hex");
    let q = BigUint::from_bytes_be(&q);

    let alpha = decode_hex("A4D1CBD5C3FD34126765A442EFB99905F8104DD258AC507FD6406CFF14266D31266FEA1E5C41564B777E690F5504F213160217B4B01B886A5E91547F9E2749F4D7FBD7D3B9A92EE1909D0D2263F80A76A6A24C087A091F531DBF0A0169B6A28AD662A4D18E73AFA32D779D5918D08BC8858F4DCEF97C2A24855E6EEB22B3B2E5")
        .expect("could not decode hex");
    let alpha = BigUint::from_bytes_be(&alpha);
    let beta = alpha.modpow(&ZKP::generate_random_number(&q), &p);

    let zkp = ZKP {
        prime: p.clone(),
        order: q.clone(),
        alpha: alpha.clone(),
        beta: beta.clone(),
    };

    let x = ZKP::generate_random_number(&q);
    let k = ZKP::generate_random_number(&q);
    let c = ZKP::generate_random_number(&q);

    let y_1 = ZKP::exponentiate(&alpha, &x, &p);
    let y_2 = ZKP::exponentiate(&beta, &x, &p);

    let r_1 = ZKP::exponentiate(&alpha, &k, &p);
    let r_2 = ZKP::exponentiate(&beta, &k, &p);

    let s = zkp.solve(&k, &c, &x);
    let cond = zkp.verify(&r_1, &r_2, &y_1, &y_2, &c, &s);
    assert!(cond)
}

#[test]
fn test_toy_example_wrong_solution() {
    let alpha = BigUint::from(4_u32);
    let beta = BigUint::from(9_u32);
    let prime = BigUint::from(23_u32);
    let order = BigUint::from(11_u32);
    let zkp = ZKP {
        prime: prime.clone(),
        order,
        alpha: alpha.clone(),
        beta: beta.clone(),
    };

    let secret = BigUint::from(6_u32);
    let random_k = BigUint::from(7_u32);
    let random_c = BigUint::from(4_u32);

    let y_1 = ZKP::exponentiate(&alpha, &secret, &prime);
    let y_2 = ZKP::exponentiate(&beta, &secret, &prime);
    let r_1 = ZKP::exponentiate(&alpha, &random_k, &prime);
    let r_2 = ZKP::exponentiate(&beta, &random_k, &prime);

    // (5 + 1) mod 11 = 6 in place of the correct 5
    let bad_solution = BigUint::from(6_u32);
    let cond = zkp.verify(&r_1, &r_2, &y_1, &y_2, &random_c, &bad_solution);
    assert!(!cond)
}

#[test]
fn test_respond_in_range_and_complete() {
    // Every combination of k, c, x below q: the response lies in [0, q),
    // satisfies k = s + c*x (mod q), and passes verification.
    let alpha = BigUint::from(4_u32);
    let beta = BigUint::from(9_u32);
    let prime = BigUint::from(23_u32);
    let order = BigUint::from(11_u32);
    let zkp = ZKP {
        prime: prime.clone(),
        order: order.clone(),
        alpha: alpha.clone(),
        beta: beta.clone(),
    };
    for k in 0_u32..11 {
        for c in 0_u32..11 {
            for x in 0_u32..11 {
                let kb = BigUint::from(k);
                let cb = BigUint::from(c);
                let xb = BigUint::from(x);
                let s = zkp.solve(&kb, &cb, &xb);
                assert!(s < order);
                let s_u32: u32 = s.try_into().expect("response fits in a machine word");
                assert_eq!((s_u32 + c * x) % 11, k % 11);

                let y_1 = ZKP::exponentiate(&alpha, &xb, &prime);
                let y_2 = ZKP::exponentiate(&beta, &xb, &prime);
                let r_1 = ZKP::exponentiate(&alpha, &kb, &prime);
                let r_2 = ZKP::exponentiate(&beta, &kb, &prime);
                let sb = BigUint::from(s_u32);
                assert!(zkp.verify(&r_1, &r_2, &y_1, &y_2, &cb, &sb));
            }
        }
    }
}

#[test]
fn test_solve_normalizes_zero() {
    // k < c*x with (c*x - k) mod q == 0: the naive reduction would yield q;
    // the response must be 0.
    let zkp = ZKP {
        prime: BigUint::from(23_u32),
        order: BigUint::from(11_u32),
        alpha: BigUint::from(4_u32),
        beta: BigUint::from(9_u32),
    };
    let k = BigUint::from(2_u32);
    let c = BigUint::from(4_u32);
    let x = BigUint::from(6_u32);
    // c*x - k = 22, and 22 mod 11 = 0
    let s = zkp.solve(&k, &c, &x);
    assert_eq!(s, BigUint::from(0_u32));
}

#[test]
fn test_exponentiate_edge_values() {
    let p = BigUint::from(23_u32);
    // zero exponent
    assert_eq!(
        ZKP::exponentiate(&BigUint::from(5_u32), &BigUint::from(0_u32), &p),
        BigUint::from(1_u32)
    );
    // base equal to the modulus
    assert_eq!(
        ZKP::exponentiate(&p, &BigUint::from(3_u32), &p),
        BigUint::from(0_u32)
    );
}

#[test]
fn test_get_constants_fixed_tuple() {
    // The tuple is a constant: two calls agree, and p and q are the written
    // hexadecimal constants.
    let (alpha1, beta1, p1, q1) = ZKP::get_constants();
    let (alpha2, beta2, p2, q2) = ZKP::get_constants();
    assert_eq!(alpha1, alpha2);
    assert_eq!(beta1, beta2);
    assert_eq!(p1, p2);
    assert_eq!(q1, q2);

    let q_bytes = decode_hex("F518AA8781A8DF278ABA4E7D64B7CB9D49462353").expect("valid hex");
    assert_eq!(q1, BigUint::from_bytes_be(&q_bytes));
    assert!(p1 > BigUint::from(1_u32));
    assert!(alpha1 < p1);
    assert!(beta1 < p1);
}

#[test]
fn test_full_flow_with_shared_constants() {
    // The fixed tuple supports the whole protocol end to end.
    let (alpha, beta, p, q) = ZKP::get_constants();
    let zkp = ZKP {
        prime: p.clone(),
        order: q.clone(),
        alpha: alpha.clone(),
        beta: beta.clone(),
    };
    let x = ZKP::generate_random_number(&q);
    let k = ZKP::generate_random_number(&q);
    let c = ZKP::generate_random_number(&q);
    let y_1 = ZKP::exponentiate(&alpha, &x, &p);
    let y_2 = ZKP::exponentiate(&beta, &x, &p);
    let r_1 = ZKP::exponentiate(&alpha, &k, &p);
    let r_2 = ZKP::exponentiate(&beta, &k, &p);
    let s = zkp.solve(&k, &c, &x);
    assert!(zkp.verify(&r_1, &r_2, &y_1, &y_2, &c, &s));
}

#[test]
fn test_decode_hex_exact() {
    assert_eq!(decode_hex("0aFF"), Some(vec![10_u8, 255_u8]));
    assert_eq!(decode_hex(""), Some(vec![]));
    // odd length
    assert_eq!(decode_hex("abc"), None);
    // a character that is no hexadecimal digit
    assert_eq!(decode_hex("0g"), None);
}

#[test]
fn test_random_number_below_bound() {
    let bound = BigUint::from(100_u32);
    for _ in 0..200 {
        assert!(ZKP::generate_random_number(&bound) < bound);
    }
}

#[test]
fn test_random_string_length_and_characters() {
    let s = ZKP::generate_random_string(12);
    assert_eq!(s.chars().count(), 12);
    assert!(s.chars().all(|c| c.is_ascii_alphanumeric()));
    let empty = ZKP::generate_random_string(0);
    assert_eq!(empty.chars().count(), 0);
}
