use amm::error::AmmError;
use amm::state::{fee_le_bytes, Pool, MAX_FEE_BPS};

#[test]
fn new_pool_stores_its_fields() {
    let p = Pool::new([1u8; 32], [2u8; 32], 30, 254, 253).unwrap();
    assert_eq!(p.mint_a, [1u8; 32]);
    assert_eq!(p.mint_b, [2u8; 32]);
    assert_eq!(p.fee, 30);
    assert_eq!(p.bump, 254);
    assert_eq!(p.lp_bump, 253);
}

#[test]
fn fee_above_maximum_is_refused_at_creation() {
    let r = Pool::new([0u8; 32], [0u8; 32], MAX_FEE_BPS + 1, 255, 255);
    assert!(matches!(r, Err(AmmError::InvalidFeeRate)));
    assert!(Pool::new([0u8; 32], [0u8; 32], MAX_FEE_BPS, 255, 255).is_ok());
}

#[test]
fn authority_seeds_lay_out_the_proof_material() {
    let p = Pool::new([1u8; 32], [2u8; 32], 515, 7, 9).unwrap();
    let seeds = p.authority_seeds();
    assert_eq!(seeds.len(), 5);
    assert_eq!(seeds[0], b"pool".to_vec());
    assert_eq!(seeds[1], vec![1u8; 32]);
    assert_eq!(seeds[2], vec![2u8; 32]);
    // 515 = 0x0203, little endian: low byte first.
    assert_eq!(seeds[3], vec![3u8, 2u8]);
    assert_eq!(seeds[4], vec![7u8]);
}

#[test]
fn lp_mint_seeds_use_the_pool_identity() {
    let p = Pool::new([1u8; 32], [2u8; 32], 0, 7, 9).unwrap();
    let seeds = p.lp_mint_seeds(&[5u8; 32]);
    assert_eq!(seeds.len(), 3);
    assert_eq!(seeds[0], b"lp".to_vec());
    assert_eq!(seeds[1], vec![5u8; 32]);
    assert_eq!(seeds[2], vec![9u8]);
}

#[test]
fn fee_bytes_match_the_native_encoding() {
    for fee in [0u16, 1, 255, 256, 515, 10_000, u16::MAX] {
        assert_eq!(fee_le_bytes(fee), fee.to_le_bytes().to_vec());
    }
}
