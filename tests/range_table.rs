use cowlock::data::{RangeTable, RangedSeek};

#[test]
fn from_count_splits_full_range() {
    let t = RangeTable::<u64>::from_count::<u64>(4);
    assert_eq!(t.get(0), Some(0));
    assert_eq!(t.get(4_611_686_018_427_387_903), Some(0));
    assert_eq!(t.get(4_611_686_018_427_387_904), Some(1));
    assert_eq!(t.get(u64::MAX), Some(3));
}

#[test]
fn from_count_one_bucket() {
    let t = RangeTable::<u64>::from_count::<u64>(1);
    assert_eq!(t.get(12345), Some(0));
    assert_eq!(t.get(u64::MAX), Some(1));
}

#[test]
fn from_separation_buckets() {
    let t = RangeTable::<u64>::from_separation::<u64>(1000);
    assert_eq!(t.get(0), Some(0));
    assert_eq!(t.get(999), Some(0));
    assert_eq!(t.get(1000), Some(1));
    assert_eq!(t.get(u64::MAX), Some(18_446_744_073_709_551));
}

#[test]
fn from_separation_whole_range() {
    let t = RangeTable::<u64>::from_separation::<u64>(u64::MAX);
    assert_eq!(t.get(u64::MAX - 1), Some(0));
    assert_eq!(t.get(u64::MAX), Some(1));
}

#[test]
fn u64_division_helpers() {
    assert_eq!(10u64.rs_div_floor(3), 3);
    assert_eq!(10u64.rs_div_usize_ceil(3), 4);
    assert_eq!(9u64.rs_div_usize_ceil(3), 3);
    assert_eq!(0u64.rs_div_usize_ceil(5), 0);
    assert_eq!(u64::MAX.rs_div_usize_ceil(2), 9_223_372_036_854_775_808);
    assert_eq!(u64::MAX.rs_sub(u64::RS_MIN), u64::MAX);
    assert_eq!(7u64.rs_into(), 7);
}

#[test]
fn from_count_three_buckets() {
    let t = RangeTable::<u64>::from_count::<u64>(3);
    assert_eq!(t.get(6_148_914_691_236_517_204), Some(0));
    assert_eq!(t.get(6_148_914_691_236_517_205), Some(1));
    assert_eq!(t.get(u64::MAX), Some(3));
}

#[test]
fn from_separation_ten() {
    let t = RangeTable::<u64>::from_separation::<u64>(10);
    assert_eq!(t.get(9), Some(0));
    assert_eq!(t.get(25), Some(2));
    assert_eq!(t.get(u64::MAX), Some(1_844_674_407_370_955_161));
}
