use unzipr::byte_unit::{EiBToBytes, GiBToBytes, KiBToBytes, MiBToBytes, PiBToBytes, TiBToBytes};
use unzipr::rust_ext::ResultExt;

#[test]
fn units_are_powers_of_1024() {
    assert_eq!(1.KiB(), 1024);
    assert_eq!(4.KiB(), 4096);
    assert_eq!(8u8.KiB(), 8192);
    assert_eq!(1u16.MiB(), 1_048_576);
    assert_eq!(3u32.GiB(), 3_221_225_472);
    assert_eq!(2u64.TiB(), 2_199_023_255_552);
    assert_eq!(1usize.PiB(), 1_125_899_906_842_624);
    assert_eq!(1i64.EiB(), 1_152_921_504_606_846_976);
    assert_eq!(15u128.EiB(), 17_293_822_569_102_704_640);
    assert_eq!(0i8.KiB(), 0);
    assert_eq!(0isize.EiB(), 0);
}

#[test]
fn what_does_not_fit_is_cut_off() {
    assert_eq!(16u8.EiB(), 0);
    assert_eq!(17u8.EiB(), 1_152_921_504_606_846_976);
    assert_eq!(u64::MAX.KiB(), usize::MAX - 1023);
    assert_eq!((-1i8).KiB(), usize::MAX - 1023);
    assert_eq!((-1i128).MiB(), usize::MAX - 1_048_575);
    assert_eq!((1u128 << 64).KiB(), 0);
    assert_eq!(((1u128 << 64) + 3).GiB(), 3_221_225_472);
    assert_eq!(i16::MIN.TiB(), (i16::MIN as usize) << 40);
    assert_eq!(isize::MIN.KiB(), 0);
}

#[test]
fn every_number_type_has_the_units() {
    assert_eq!(2u8.KiB(), 2048);
    assert_eq!(2i8.KiB(), 2048);
    assert_eq!(2u16.KiB(), 2048);
    assert_eq!(2i16.KiB(), 2048);
    assert_eq!(2u32.KiB(), 2048);
    assert_eq!(2i32.KiB(), 2048);
    assert_eq!(2u64.KiB(), 2048);
    assert_eq!(2i64.KiB(), 2048);
    assert_eq!(2u128.KiB(), 2048);
    assert_eq!(2i128.KiB(), 2048);
    assert_eq!(2usize.KiB(), 2048);
    assert_eq!(2isize.KiB(), 2048);
    assert_eq!(2i32.MiB(), 2 << 20);
    assert_eq!(2i32.GiB(), 2 << 30);
    assert_eq!(2i32.TiB(), 2 << 40);
    assert_eq!(2i32.PiB(), 2 << 50);
    assert_eq!(2i32.EiB(), 2 << 60);
}

#[test]
fn errors_are_looked_at() {
    let mut seen = Vec::new();
    let failed: Result<u8, &str> = Err("broken");
    failed.if_err(|err| seen.push(err));
    let fine: Result<u8, &str> = Ok(1);
    fine.if_err(|err| seen.push(err));
    assert_eq!(seen, vec!["broken"]);
}

#[test]
fn what_the_closure_returns_is_dropped() {
    let failed: Result<(), u32> = Err(7);
    let mut doubled = 0;
    failed.if_err(|err| {
        doubled = err * 2;
        doubled
    });
    assert_eq!(doubled, 14);
}
