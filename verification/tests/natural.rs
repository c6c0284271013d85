use raytracer::natural::{divide_by_ten, is_zero, shifted};

/// The number of at most four limbs.
fn number(limbs: &[u32]) -> u128 {
    assert!(limbs.len() <= 4);
    limbs.iter().fold(0, |n, &limb| n << 32 | limb as u128)
}

#[test]
fn shifted_is_a_product_by_a_power_of_two() {
    assert_eq!(shifted(0, 0), vec![0, 0, 0]);
    assert_eq!(number(&shifted(1, 0)), 1);
    assert_eq!(number(&shifted(5, 3)), 40);
    assert_eq!(number(&shifted(u64::MAX, 0)), u64::MAX as u128);
    assert_eq!(number(&shifted(u64::MAX, 31)), (u64::MAX as u128) << 31);
    assert_eq!(number(&shifted(3, 32)), 3 << 32);
    assert_eq!(number(&shifted(0x10_0000_0000_0000, 11)), 1 << 63);
    for shift in 0..64 {
        assert_eq!(number(&shifted(0x1f_ffff_ffff_ffff, shift)), 0x1f_ffff_ffff_ffffu128 << shift);
    }
}

#[test]
fn each_32_bits_of_shift_are_one_more_limb() {
    assert_eq!(shifted(1, 31).len(), 3);
    assert_eq!(shifted(1, 32), vec![0, 0, 1, 0]);
    assert_eq!(shifted(1, 64), vec![0, 0, 1, 0, 0]);
    assert_eq!(shifted(1, 971).len(), 33);
    assert_eq!(shifted(7, 100), vec![0, 0, 7 << 4, 0, 0, 0]);
}

#[test]
fn is_zero_looks_at_every_limb() {
    assert!(is_zero(&vec![]));
    assert!(is_zero(&vec![0]));
    assert!(is_zero(&vec![0, 0, 0]));
    assert!(!is_zero(&vec![0, 0, 1]));
    assert!(!is_zero(&vec![1, 0, 0]));
    assert!(!is_zero(&vec![0, 1, 0]));
}

#[test]
fn divide_by_ten_gives_quotient_and_remainder() {
    let cases: [u128; 8] = [
        0,
        7,
        10,
        4294967295,
        4294967296,
        42949672965,
        u64::MAX as u128,
        u128::MAX,
    ];
    for &n in cases.iter() {
        let mut limbs = vec![
            (n >> 96) as u32,
            (n >> 64) as u32,
            (n >> 32) as u32,
            n as u32,
        ];
        let remainder = divide_by_ten(&mut limbs);
        assert_eq!(remainder as u128, n % 10);
        assert_eq!(limbs.len(), 4);
        assert_eq!(number(&limbs), n / 10);
    }
}

#[test]
fn divide_by_ten_of_no_limbs_is_zero() {
    let mut limbs = Vec::new();
    assert_eq!(divide_by_ten(&mut limbs), 0);
    assert!(limbs.is_empty());
}
