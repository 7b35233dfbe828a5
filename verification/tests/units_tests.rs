use dirsize::units::{format_size, unit_of, Unit};

/// The formatting rule the tool follows, written with floating point the
/// way a shell one-liner would check it: pick the unit by magnitude,
/// divide, print with two decimals.
fn reference_format(size: u64) -> String {
    let (div, label): (f64, &str) = match size {
        0..=1023 => (1.0, "B"),
        1024..=1_048_575 => (1024.0, "KB"),
        1_048_576..=1_073_741_823 => (1_048_576.0, "MB"),
        1_073_741_824..=1_099_511_627_775 => (1_073_741_824.0, "GB"),
        1_099_511_627_776.. => (1_099_511_627_776.0, "TB"),
    };
    let value = size as f64 / div;
    format!("{value:.2} {label}")
}

#[test]
fn unit_boundaries() {
    assert_eq!(unit_of(0), Unit::B);
    assert_eq!(unit_of(1023), Unit::B);
    assert_eq!(unit_of(1024), Unit::KB);
    assert_eq!(unit_of(1_048_575), Unit::KB);
    assert_eq!(unit_of(1_048_576), Unit::MB);
    assert_eq!(unit_of(1_073_741_823), Unit::MB);
    assert_eq!(unit_of(1_073_741_824), Unit::GB);
    assert_eq!(unit_of(1_099_511_627_775), Unit::GB);
    assert_eq!(unit_of(1_099_511_627_776), Unit::TB);
    assert_eq!(unit_of(u64::MAX), Unit::TB);
}

#[test]
fn format_at_unit_boundaries() {
    assert_eq!(format_size(1023), "1023.00 B");
    assert_eq!(format_size(1024), "1.00 KB");
    assert_eq!(format_size(1_048_576), "1.00 MB");
    assert_eq!(format_size(1_073_741_824), "1.00 GB");
    assert_eq!(format_size(1_099_511_627_776), "1.00 TB");
}

#[test]
fn format_small_totals() {
    assert_eq!(format_size(0), "0.00 B");
    assert_eq!(format_size(1), "1.00 B");
    assert_eq!(format_size(512), "512.00 B");
}

#[test]
fn format_rounds_to_two_decimals() {
    // 1100 / 1024 = 1.0742...
    assert_eq!(format_size(1100), "1.07 KB");
    // 1048575 / 1024 = 1023.999..., which rounds up to 1024.00
    assert_eq!(format_size(1_048_575), "1024.00 KB");
}

#[test]
fn format_rounds_halves_to_even() {
    // 1152 / 1024 = 1.125: the half rounds down to the even 1.12
    assert_eq!(format_size(1152), "1.12 KB");
    // 1408 / 1024 = 1.375: the half rounds up to the even 1.38
    assert_eq!(format_size(1408), "1.38 KB");
}

#[test]
fn format_matches_float_reference() {
    let samples: [u64; 24] = [
        0,
        1,
        7,
        512,
        1023,
        1024,
        1025,
        1100,
        1152,
        1408,
        65_536,
        999_999,
        1_048_575,
        1_048_576,
        10_485_760,
        123_456_789,
        1_073_741_823,
        1_073_741_824,
        99_999_999_999,
        1_099_511_627_775,
        1_099_511_627_776,
        5_000_000_000_000,
        987_654_321_098_765,
        4_503_599_627_370_495,
    ];
    for &size in samples.iter() {
        assert_eq!(format_size(size), reference_format(size), "size {size}");
    }
}

#[test]
fn unit_labels() {
    assert_eq!(Unit::B.label(), "B");
    assert_eq!(Unit::KB.label(), "KB");
    assert_eq!(Unit::MB.label(), "MB");
    assert_eq!(Unit::GB.label(), "GB");
    assert_eq!(Unit::TB.label(), "TB");
}
