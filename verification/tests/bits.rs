use bit_vec::BitVec;
use lsb_stego::{
    bit_vec_from_u32, combine_bit_vecs, get_last_bit, modify_last_bit, u32_from_bit_vec,
};

fn bools(bv: &BitVec) -> Vec<bool> {
    let mut out = Vec::new();
    for i in 0..bv.len() {
        out.push(bv.get(i).unwrap());
    }
    out
}

fn from_bools(bits: &[bool]) -> BitVec {
    let mut bv = BitVec::new();
    for &b in bits {
        bv.push(b);
    }
    bv
}

#[test]
fn modify_last_bit_sets_the_lowest_bit() {
    assert_eq!(modify_last_bit(0b1010_1010, true), 0b1010_1011);
    assert_eq!(modify_last_bit(0, true), 1);
    assert_eq!(modify_last_bit(254, true), 255);
    assert_eq!(modify_last_bit(10, true), 11);
}

#[test]
fn modify_last_bit_clears_the_lowest_bit() {
    assert_eq!(modify_last_bit(0b1010_1011, false), 0b1010_1010);
    assert_eq!(modify_last_bit(255, false), 254);
    assert_eq!(modify_last_bit(1, false), 0);
    assert_eq!(modify_last_bit(61, false), 60);
}

#[test]
fn modify_last_bit_keeps_a_bit_that_is_already_there() {
    assert_eq!(modify_last_bit(7, true), 7);
    assert_eq!(modify_last_bit(8, false), 8);
    assert_eq!(modify_last_bit(0, false), 0);
    assert_eq!(modify_last_bit(255, true), 255);
}

#[test]
fn modify_last_bit_matches_mask_formula_on_every_byte() {
    for v in 0..=255u8 {
        assert_eq!(modify_last_bit(v, true), (v & 0xFE) | 1);
        assert_eq!(modify_last_bit(v, false), v & 0xFE);
    }
}

#[test]
fn modify_last_bit_preserves_upper_seven_bits() {
    for v in 0..=255u8 {
        assert_eq!(modify_last_bit(v, true) & 0xFE, v & 0xFE);
        assert_eq!(modify_last_bit(v, false) & 0xFE, v & 0xFE);
    }
}

#[test]
fn get_last_bit_reads_the_lowest_bit() {
    assert!(!get_last_bit(0));
    assert!(get_last_bit(1));
    assert!(!get_last_bit(2));
    assert!(get_last_bit(3));
    assert!(!get_last_bit(0b1000_0000));
    assert!(get_last_bit(0b0111_1111));
    assert!(!get_last_bit(254));
    assert!(get_last_bit(255));
}

#[test]
fn get_last_bit_matches_parity_on_every_byte() {
    for v in 0..=255u8 {
        assert_eq!(get_last_bit(v), v % 2 == 1);
    }
}

#[test]
fn get_last_bit_reads_what_modify_last_bit_wrote() {
    for v in 0..=255u8 {
        assert!(get_last_bit(modify_last_bit(v, true)));
        assert!(!get_last_bit(modify_last_bit(v, false)));
        assert_eq!(modify_last_bit(v, get_last_bit(v)), v);
    }
}

#[test]
fn combine_bit_vecs_concatenates_in_order() {
    let a = from_bools(&[true, false, true]);
    let b = from_bools(&[false, false, true, true]);
    let c = combine_bit_vecs(&a, &b);
    assert_eq!(bools(&c), vec![true, false, true, false, false, true, true]);
    let d = combine_bit_vecs(&b, &a);
    assert_eq!(bools(&d), vec![false, false, true, true, true, false, true]);
}

#[test]
fn combine_bit_vecs_leaves_its_arguments_alone() {
    let a = from_bools(&[true, false, true]);
    let b = from_bools(&[false, true]);
    let _ = combine_bit_vecs(&a, &b);
    assert_eq!(bools(&a), vec![true, false, true]);
    assert_eq!(bools(&b), vec![false, true]);
}

#[test]
fn combine_bit_vecs_with_empty_sides() {
    let empty = BitVec::new();
    let a = from_bools(&[true, true, false]);
    assert_eq!(bools(&combine_bit_vecs(&empty, &a)), vec![true, true, false]);
    assert_eq!(bools(&combine_bit_vecs(&a, &empty)), vec![true, true, false]);
    assert_eq!(combine_bit_vecs(&empty, &empty).len(), 0);
}

#[test]
fn combine_bit_vecs_across_a_storage_block() {
    let a = BitVec::from_bytes(&[0xAB, 0xCD, 0xEF, 0x01, 0x23]);
    let b = BitVec::from_bytes(&[0x45, 0x67]);
    let c = combine_bit_vecs(&a, &b);
    assert_eq!(c.len(), 56);
    assert_eq!(c.to_bytes(), vec![0xAB, 0xCD, 0xEF, 0x01, 0x23, 0x45, 0x67]);
}

#[test]
fn bit_vec_from_u32_is_big_endian() {
    let bits = bit_vec_from_u32(267);
    assert_eq!(bits.len(), 32);
    assert_eq!(bits.to_bytes(), vec![0x00, 0x00, 0x01, 0x0b]);
    let bits = bit_vec_from_u32(0x1234_5678);
    assert_eq!(bits.to_bytes(), vec![0x12, 0x34, 0x56, 0x78]);
}

#[test]
fn bit_vec_from_u32_puts_the_top_bit_first() {
    let bits = bit_vec_from_u32(0x8000_0000);
    assert_eq!(bits.get(0), Some(true));
    for i in 1..32 {
        assert_eq!(bits.get(i), Some(false));
    }
    let bits = bit_vec_from_u32(1);
    for i in 0..31 {
        assert_eq!(bits.get(i), Some(false));
    }
    assert_eq!(bits.get(31), Some(true));
    assert_eq!(bits.get(32), None);
}

#[test]
fn bit_vec_from_u32_bit_i_is_bit_31_minus_i_of_the_word() {
    for &x in &[0u32, 1, 2, 40, 267, 0xDEAD_BEEF, 0x7FFF_FFFF, 0xFFFF_FFFF] {
        let bits = bit_vec_from_u32(x);
        assert_eq!(bits.len(), 32);
        for i in 0..32usize {
            assert_eq!(bits.get(i), Some((x >> (31 - i)) & 1 == 1));
        }
    }
}

#[test]
fn u32_from_bit_vec_reads_big_endian() {
    assert_eq!(u32_from_bit_vec(&BitVec::from_bytes(&[0x00, 0x00, 0x01, 0x0b])), 267);
    assert_eq!(u32_from_bit_vec(&BitVec::from_bytes(&[0x12, 0x34, 0x56, 0x78])), 0x1234_5678);
    assert_eq!(u32_from_bit_vec(&BitVec::from_bytes(&[0xFF, 0xFF, 0xFF, 0xFF])), u32::MAX);
    assert_eq!(u32_from_bit_vec(&BitVec::from_bytes(&[0, 0, 0, 0])), 0);
}

#[test]
fn u32_from_bit_vec_ignores_bits_after_the_first_32() {
    let bits = BitVec::from_bytes(&[0x00, 0x00, 0x00, 0x05, 0xFF, 0xFF]);
    assert_eq!(u32_from_bit_vec(&bits), 5);
    let mut bits = BitVec::from_bytes(&[0x00, 0x00, 0x00, 0x05]);
    bits.push(true);
    assert_eq!(u32_from_bit_vec(&bits), 5);
}

#[test]
fn u32_round_trips_through_bits() {
    for &x in &[0u32, 1, 255, 256, 65_535, 65_536, 0x00FF_00FF, 0xDEAD_BEEF, u32::MAX] {
        assert_eq!(u32_from_bit_vec(&bit_vec_from_u32(x)), x);
    }
}
