use ewram_alloc::allocator::EwramAllocator;
use ewram_alloc::config::{check_config, ConfigError};
use ewram_alloc::region::{EWRAM_SIZE, EWRAM_START, IWRAM_START, NULL, VRAM_START};

#[test]
fn region_constants() {
    assert_eq!(EWRAM_START, 0x2000000);
    assert_eq!(IWRAM_START, 0x3000000);
    assert_eq!(VRAM_START, 0x6000000);
    assert_eq!(EWRAM_SIZE, 256_000);
    assert_eq!(NULL, 0);
}

#[test]
fn fixed_heap_starts_committed_to_its_ceiling() {
    let heap = EwramAllocator::new(false, 64, 1024);
    assert!(!heap.is_growable());
    assert_eq!(heap.offset(), 64);
    assert_eq!(heap.limit(), 1024);
    assert_eq!(heap.end(), EWRAM_START + 64 + 1024);
    assert_eq!(heap.cursor(), EWRAM_START + 64);
}

#[test]
fn growable_heap_starts_with_nothing_committed() {
    let heap = EwramAllocator::new(true, 64, 1024);
    assert!(heap.is_growable());
    assert_eq!(heap.offset(), 64);
    assert_eq!(heap.limit(), 1024);
    assert_eq!(heap.end(), NULL);
    assert_eq!(heap.cursor(), EWRAM_START + 64);
}

#[test]
fn whole_region_is_a_valid_window() {
    assert_eq!(check_config(0, 256_000), Ok(()));
    assert_eq!(check_config(256_000, 0), Ok(()));
    assert_eq!(check_config(128_000, 128_000), Ok(()));
    assert_eq!(check_config(0, 0), Ok(()));
    let heap = EwramAllocator::new(false, 0, 256_000);
    assert_eq!(heap.end(), EWRAM_START + 256_000);
}

#[test]
fn negative_offset_is_rejected() {
    assert_eq!(check_config(-1, 10), Err(ConfigError::NegativeOffset));
    assert_eq!(check_config(isize::MIN, 10), Err(ConfigError::NegativeOffset));
}

#[test]
fn negative_limit_is_rejected() {
    assert_eq!(check_config(0, -1), Err(ConfigError::NegativeLimit));
    assert_eq!(check_config(10, isize::MIN), Err(ConfigError::NegativeLimit));
}

#[test]
fn window_past_the_region_is_rejected() {
    assert_eq!(check_config(0, 256_001), Err(ConfigError::ExceedsRegion));
    assert_eq!(check_config(1, 256_000), Err(ConfigError::ExceedsRegion));
    assert_eq!(check_config(256_001, 0), Err(ConfigError::ExceedsRegion));
    assert_eq!(check_config(isize::MAX, isize::MAX), Err(ConfigError::ExceedsRegion));
}

#[test]
fn offset_is_checked_before_limit_and_sum() {
    assert_eq!(check_config(-1, -1), Err(ConfigError::NegativeOffset));
    assert_eq!(check_config(-1, 300_000), Err(ConfigError::NegativeOffset));
    assert_eq!(check_config(300_000, -1), Err(ConfigError::NegativeLimit));
}

#[test]
fn error_messages() {
    assert_eq!(ConfigError::NegativeOffset.message(), "heap cannot begin before 0x2000000");
    assert_eq!(ConfigError::NegativeLimit.message(), "limit cannot be less than 0");
    assert_eq!(ConfigError::ExceedsRegion.message(), "offset + limit cannot exceed 256K");
}

#[test]
fn try_new_builds_what_new_builds() {
    let heap = match EwramAllocator::try_new(false, 16, 32) {
        Ok(heap) => heap,
        Err(e) => panic!("{}", e.message()),
    };
    assert_eq!(heap.cursor(), EWRAM_START + 16);
    assert_eq!(heap.end(), EWRAM_START + 48);
    let heap = match EwramAllocator::try_new(true, 16, 32) {
        Ok(heap) => heap,
        Err(e) => panic!("{}", e.message()),
    };
    assert_eq!(heap.cursor(), EWRAM_START + 16);
    assert_eq!(heap.end(), NULL);
}

#[test]
fn try_new_names_the_broken_rule() {
    assert_eq!(EwramAllocator::try_new(false, -4, 32).err(), Some(ConfigError::NegativeOffset));
    assert_eq!(EwramAllocator::try_new(true, 4, -32).err(), Some(ConfigError::NegativeLimit));
    assert_eq!(
        EwramAllocator::try_new(true, 200_000, 56_001).err(),
        Some(ConfigError::ExceedsRegion)
    );
}
