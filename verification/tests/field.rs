use num_bigint::BigUint;

fn to_u128(x: &BigUint) -> u128 {
    let mut bytes = x.to_bytes_le();
    bytes.resize(16, 0u8);
    u128::from_le_bytes(bytes[..].try_into().unwrap())
}

#[test]
fn add() {
    let r: u128 = field128::field::rand();
    assert_eq!(r, field128::field::add(r, 0));

    // test addition within bounds
    assert_eq!(5, field128::field::add(2, 3));

    // test overflow
    let m: u128 = field128::field::MODULUS;
    let t: u128 = m - 1;
    assert_eq!(0, field128::field::add(t, 1));
    assert_eq!(1, field128::field::add(t, 2));

    // test random values
    let r1: u128 = field128::field::rand();
    let r2: u128 = field128::field::rand();

    let expected = (BigUint::from(r1) + BigUint::from(r2)) % BigUint::from(field128::field::M);
    let expected: u128 = to_u128(&expected);
    assert_eq!(expected, field128::field::add(r1, r2));
}

#[test]
fn sub_wraparound() {
    assert_eq!(2, field128::field::sub(5, 3));
    let m: u128 = field128::field::M;
    assert_eq!(m - 1, field128::field::sub(0, 1));
    assert_eq!(0, field128::field::sub(m - 1, m - 1));
}

#[test]
fn mul_small() {
    assert_eq!(6, field128::field::mul(2, 3));
    assert_eq!(0, field128::field::mul(0, 0));
}

#[test]
fn identities() {
    let r: u128 = field128::field::rand();
    assert_eq!(r, field128::field::add(r, field128::field::ZERO));
    assert_eq!(r, field128::field::mul(r, field128::field::ONE));
    assert_eq!(0, field128::field::mul(r, field128::field::ZERO));
}

#[test]
fn additive_inverse() {
    let m: u128 = field128::field::M;
    for a in [0u128, 1, 2, 12345, m / 2, m - 1] {
        let neg: u128 = field128::field::sub(0, a);
        assert_eq!(0, field128::field::add(a, neg));
    }
    let r: u128 = field128::field::rand();
    assert_eq!(0, field128::field::add(r, field128::field::sub(0, r)));
}

#[test]
fn commutativity() {
    let a: u128 = field128::field::rand();
    let b: u128 = field128::field::rand();
    assert_eq!(field128::field::add(a, b), field128::field::add(b, a));
    assert_eq!(field128::field::mul(a, b), field128::field::mul(b, a));
}

#[test]
fn associativity_distributivity() {
    let a: u128 = field128::field::rand();
    let b: u128 = field128::field::rand();
    let c: u128 = field128::field::rand();

    let bc: u128 = field128::field::add(b, c);
    assert_eq!(
        field128::field::add(field128::field::add(a, b), c),
        field128::field::add(a, bc)
    );

    let ab: u128 = field128::field::mul(a, b);
    assert_eq!(
        field128::field::mul(ab, c),
        field128::field::mul(a, field128::field::mul(b, c))
    );

    assert_eq!(
        field128::field::mul(a, bc),
        field128::field::add(ab, field128::field::mul(a, c))
    );

    // cross-check the triple product against exact integer arithmetic
    let m = BigUint::from(field128::field::M);
    let expected = (BigUint::from(a) * BigUint::from(b) * BigUint::from(c)) % &m;
    assert_eq!(to_u128(&expected), field128::field::mul(ab, c));
}

#[test]
fn mul_cross_check() {
    let m = BigUint::from(field128::field::M);
    for _ in 0..50 {
        let a: u128 = field128::field::rand();
        let b: u128 = field128::field::rand();
        let product = (BigUint::from(a) * BigUint::from(b)) % &m;
        assert_eq!(to_u128(&product), field128::field::mul(a, b));
        let total = (BigUint::from(a) + BigUint::from(b)) % &m;
        assert_eq!(to_u128(&total), field128::field::add(a, b));
    }

    let top: u128 = field128::field::M - 1;
    let half: u128 = 1u128 << 127;
    for (a, b) in [(top, top), (top, 1), (0, top), (half, half), (top, 2)] {
        let product = (BigUint::from(a) * BigUint::from(b)) % &m;
        assert_eq!(to_u128(&product), field128::field::mul(a, b));
    }
}

#[test]
fn mul_interesting_pairs() {
    let m: u128 = field128::field::M;
    let values: [u128; 14] = [
        0,
        1,
        2,
        3,
        u64::MAX as u128,
        1u128 << 64,
        (1u128 << 64) + 1,
        45u128 << 40,
        (45u128 << 40) - 1,
        1u128 << 127,
        m - 1,
        m - 2,
        m - (1u128 << 64),
        m / 2,
    ];
    let big_m = BigUint::from(m);
    for &a in values.iter() {
        for &b in values.iter() {
            let product = (BigUint::from(a) * BigUint::from(b)) % &big_m;
            assert_eq!(to_u128(&product), field128::field::mul(a, b));
            let total = (BigUint::from(a) + BigUint::from(b)) % &big_m;
            assert_eq!(to_u128(&total), field128::field::add(a, b));
            let difference = (BigUint::from(a) + &big_m - BigUint::from(b)) % &big_m;
            assert_eq!(to_u128(&difference), field128::field::sub(a, b));
        }
    }
}

#[test]
fn carry_propagation() {
    assert_eq!((0, 1), field128::field::add64_with_carry(u64::MAX, 1, 0));
    assert_eq!((u64::MAX, 0), field128::field::add64_with_carry(u64::MAX, 0, 0));
    assert_eq!((0, 1), field128::field::add64_with_carry(u64::MAX, 0, 1));
    assert_eq!((5, 0), field128::field::add64_with_carry(2, 2, 1));
}

#[test]
fn sampler_in_range() {
    for _ in 0..10_000 {
        let r: u128 = field128::field::rand();
        assert!(r < field128::field::M);
    }
}

#[test]
fn sampler_uniformity() {
    // chi-square over 16 coarse buckets
    let m: u128 = field128::field::M;
    let width: u128 = m / 16;
    let n: u32 = 160_000;
    let mut counts = [0u64; 16];
    for _ in 0..n {
        let r: u128 = field128::field::rand();
        let mut bucket: usize = (r / width) as usize;
        if bucket > 15 {
            bucket = 15;
        }
        counts[bucket] += 1;
    }
    let expected: f64 = (n as f64) / 16.0;
    let mut chi2: f64 = 0.0;
    for &c in counts.iter() {
        let d: f64 = (c as f64) - expected;
        chi2 += d * d / expected;
    }
    assert!(chi2 < 80.0, "chi-square statistic too large: {}", chi2);
}
