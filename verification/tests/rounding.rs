use ewram_alloc::align::checked_align_up;

#[test]
fn aligned_address_stays() {
    assert_eq!(checked_align_up(0x2000000, 1), Some(0x2000000));
    assert_eq!(checked_align_up(0x2000000, 4096), Some(0x2000000));
    assert_eq!(checked_align_up(0x2000007, 1), Some(0x2000007));
    assert_eq!(checked_align_up(0, 8), Some(0));
}

#[test]
fn unaligned_address_moves_to_the_next_multiple() {
    assert_eq!(checked_align_up(0x2000001, 8), Some(0x2000008));
    assert_eq!(checked_align_up(0x2000007, 8), Some(0x2000008));
    assert_eq!(checked_align_up(0x2000009, 8), Some(0x2000010));
    assert_eq!(checked_align_up(100, 64), Some(128));
    assert_eq!(checked_align_up(1, 2), Some(2));
}

#[test]
fn rounding_past_the_word_is_reported() {
    assert_eq!(checked_align_up(usize::MAX, 2), None);
    assert_eq!(checked_align_up(usize::MAX, 1), Some(usize::MAX));
    let top: usize = 1 << (usize::BITS - 1);
    assert_eq!(checked_align_up(top, top), Some(top));
    assert_eq!(checked_align_up(top + 1, top), None);
    assert_eq!(checked_align_up(1, top), Some(top));
}
