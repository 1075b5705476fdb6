//! The disk-usage counter: construction, accumulation, and rendering.

use kdeets::DiskSize;

#[test]
fn test_disksize_creation() {
    let size = DiskSize::new(1024);
    assert!(matches!(size.bytes(), 1024));
}

#[test]
fn test_disksize_zero() {
    let size = DiskSize::new(0);
    assert!(matches!(size.bytes(), 0));
}

#[test]
fn test_disksize_large_value() {
    let size = DiskSize::new(u64::MAX);
    assert!(matches!(size.bytes(), u64::MAX));
}

#[test]
fn test_disksize_add_assign() {
    let mut size = DiskSize::new(100);
    size.add(50);
    assert_eq!(size.bytes(), 150);
}

#[test]
fn test_disksize_add_assign_zero() {
    let mut size = DiskSize::new(100);
    size.add(0);
    assert_eq!(size.bytes(), 100);
}

#[test]
fn test_disksize_add_assign_large_number() {
    let mut size = DiskSize::new(100);
    size.add(u64::MAX - 100);
    assert_eq!(size.bytes(), u64::MAX);
}

#[test]
fn test_disksize_add_assign_multiple_times() {
    let mut size = DiskSize::new(100);
    size.add(50);
    size.add(25);
    size.add(25);
    assert_eq!(size.bytes(), 200);
}

#[test]
fn test_display_bytes() {
    let size = DiskSize::new(500);
    assert_eq!(size.render(), "500.00 B");
}

#[test]
fn test_display_kibibytes() {
    let size = DiskSize::new(2048);
    assert_eq!(size.render(), "2.00 KiB");
}

#[test]
fn test_display_mebibytes() {
    let size = DiskSize::new(2097152);
    assert_eq!(size.render(), "2.00 MiB");
}

#[test]
fn test_display_gibibytes() {
    let size = DiskSize::new(2147483648);
    assert_eq!(size.render(), "2.00 GiB");
}

#[test]
fn test_display_tebibytes() {
    let size = DiskSize::new(2199023255552);
    assert_eq!(size.render(), "2.00 TiB");
}

#[test]
fn test_display_zero() {
    let size = DiskSize::new(0);
    assert_eq!(size.render(), "0.00 B");
}

#[test]
fn test_display_maximum_size() {
    let size = DiskSize::new(u64::MAX);
    assert_eq!(size.render(), "16.00 EiB");
}

#[test]
fn test_display_exact_boundaries() {
    let size = DiskSize::new(1024);
    assert_eq!(size.render(), "1.00 KiB");
    let size = DiskSize::new(1048576);
    assert_eq!(size.render(), "1.00 MiB");
    let size = DiskSize::new(1073741824);
    assert_eq!(size.render(), "1.00 GiB");
    let size = DiskSize::new(1099511627776);
    assert_eq!(size.render(), "1.00 TiB");
    let size = DiskSize::new(1125899906842624);
    assert_eq!(size.render(), "1.00 PiB");
    let size = DiskSize::new(1152921504606846976);
    assert_eq!(size.render(), "1.00 EiB");
}

#[test]
fn test_zero_returns_zero_disksize() {
    let size = DiskSize::zero();
    assert_eq!(size.bytes(), 0);
}

#[test]
fn test_zero_disksize_equality() {
    let size1 = DiskSize::zero();
    let size2 = DiskSize::zero();
    assert_eq!(size1, size2);
}

#[test]
fn test_zero_disksize_is_empty() {
    let size = DiskSize::zero();
    assert!(size.bytes() == 0);
}

#[test]
fn test_disksize_new_zero() {
    let size = DiskSize::new(0);
    assert_eq!(size.bytes(), 0);
}

#[test]
fn test_disksize_new_positive() {
    let size = DiskSize::new(1024);
    assert_eq!(size.bytes(), 1024);
}

#[test]
fn test_disksize_new_large_value() {
    let size = DiskSize::new(u64::MAX);
    assert_eq!(size.bytes(), u64::MAX);
}

#[test]
fn test_saturating_add_caps_at_max() {
    let mut size = DiskSize::new(u64::MAX - 10);
    size.saturating_add(100);
    assert_eq!(size.bytes(), u64::MAX);
}
