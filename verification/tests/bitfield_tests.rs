use torrent_engine::bitfield::{calc_byte_index_and_mask, Bitfield, BitfieldError};

#[test]
fn test_bitfield() {
    let bitfield: Vec<u8> = Bitfield::full(16);
    assert_eq!(&[0b11111111u8, 0b11111111][..], bitfield.as_slice());
    let mut bitfield: Vec<u8> = Bitfield::full(19);
    assert_eq!(&[0b11111111u8, 0b11111111, 0b11100000][..], bitfield.as_slice());
    bitfield.remove_bit(10).unwrap();
    assert_eq!(&[255u8, 0b11011111, 0b11100000][..], bitfield.as_slice());
    let mut bitfield: Vec<u8> = Bitfield::empty(20);
    assert_eq!(&[0u8, 0, 0][..], bitfield.as_slice());
    bitfield.add_bit(15).unwrap();
    assert_eq!(&[0u8, 1, 0][..], bitfield.as_slice());

    let a: Vec<u8> = vec![0b00000000u8, 0b00011100, 0b11100011];
    let b: Vec<u8> = vec![0b11100011u8, 0b00011100, 0b00111001];
    assert_eq!(vec![0b11100011u8, 0b00000000, 0b00011000], a.interest(&b).unwrap());
}

#[test]
fn full_sets_all_bits_below_count_and_pads_with_zero() {
    let f: Vec<u8> = Bitfield::full(19);
    assert_eq!(f.len(), 3);
    for i in 0u32..19 {
        assert!(f.have_bit(i));
    }
    for i in 19u32..24 {
        assert!(!f.have_bit(i));
    }
    let f: Vec<u8> = Bitfield::full(8);
    assert_eq!(f, vec![0xffu8]);
    let f: Vec<u8> = Bitfield::full(0);
    assert_eq!(f, Vec::<u8>::new());
}

#[test]
fn empty_has_same_length_and_no_bits() {
    let e: Vec<u8> = Bitfield::empty(19);
    assert_eq!(e, vec![0u8, 0, 0]);
    for i in 0u32..24 {
        assert!(!e.have_bit(i));
    }
    let e: Vec<u8> = Bitfield::empty(0);
    assert_eq!(e, Vec::<u8>::new());
}

#[test]
fn interest_is_subset_of_theirs_and_disjoint_from_ours() {
    let mine: Vec<u8> = vec![0b11001010u8, 0b00001111];
    let theirs: Vec<u8> = vec![0b10101010u8, 0b11110000];
    let want = mine.interest(&theirs).unwrap();
    for i in 0u32..16 {
        if want.have_bit(i) {
            assert!(theirs.have_bit(i));
            assert!(!mine.have_bit(i));
        }
    }
    for k in 0usize..2 {
        assert_eq!(want[k] & mine[k], 0);
    }
}

#[test]
fn interest_rejects_different_lengths() {
    let a: Vec<u8> = vec![0u8, 0];
    let b: Vec<u8> = vec![0u8];
    assert_eq!(a.interest(&b), Err(BitfieldError));
}

#[test]
fn bit_operations_reject_out_of_range_indices() {
    let mut f: Vec<u8> = Bitfield::empty(8);
    assert_eq!(f.add_bit(8), Err(BitfieldError));
    assert_eq!(f.remove_bit(100), Err(BitfieldError));
    assert_eq!(f, vec![0u8]);
    assert!(!f.have_bit(8));
    assert!(!f.have_bit(1000));
}

#[test]
fn byte_index_and_mask_layout() {
    assert_eq!(calc_byte_index_and_mask(0), (0, 0b10000000));
    assert_eq!(calc_byte_index_and_mask(7), (0, 0b00000001));
    assert_eq!(calc_byte_index_and_mask(12), (1, 0b00001000));
}
