use measurement_generator::size::{completion_message, human_readable, UNIT_COUNT};

const UNITS: [&str; 9] = ["B", "KiB", "MiB", "GiB", "TiB", "PiB", "EiB", "ZiB", "YiB"];

/// The same size computed in double precision.
fn with_floats(value: u64) -> String {
    let mut scaled = value as f64;
    let mut unit = 0;
    while scaled > 1024.0 && unit + 1 < UNITS.len() {
        scaled /= 1024.0;
        unit += 1;
    }
    format!("{:.2} {}", scaled, UNITS[unit])
}

#[test]
fn there_are_nine_units() {
    assert_eq!(UNIT_COUNT, UNITS.len());
}

#[test]
fn small_sizes_are_written_in_bytes() {
    assert_eq!(human_readable(0), "0.00 B");
    assert_eq!(human_readable(1), "1.00 B");
    assert_eq!(human_readable(999), "999.00 B");
    assert_eq!(human_readable(1023), "1023.00 B");
}

#[test]
fn a_size_of_exactly_1024_stays_in_its_unit() {
    assert_eq!(human_readable(1024), "1024.00 B");
    assert_eq!(human_readable(1024 * 1024), "1024.00 KiB");
    assert_eq!(human_readable(1024 * 1024 * 1024), "1024.00 MiB");
}

#[test]
fn a_size_above_1024_moves_to_the_next_unit() {
    assert_eq!(human_readable(1025), "1.00 KiB");
    assert_eq!(human_readable(1536), "1.50 KiB");
    assert_eq!(human_readable(1024 * 1024 + 1), "1.00 MiB");
    assert_eq!(human_readable(3 * 1024 * 1024 / 2), "1.50 MiB");
    assert_eq!(human_readable(5 * 1024 * 1024 * 1024), "5.00 GiB");
    assert_eq!(human_readable(13_795_898_567), "12.85 GiB");
    assert_eq!(human_readable(1 << 40), "1024.00 GiB");
    assert_eq!(human_readable((1 << 40) + 1), "1.00 TiB");
    assert_eq!(human_readable((1 << 50) + 1), "1.00 PiB");
}

#[test]
fn the_largest_sizes_are_written_in_exbibytes() {
    assert_eq!(human_readable(1 << 60), "1024.00 PiB");
    assert_eq!(human_readable((1 << 60) + 1), "1024.00 PiB");
    assert_eq!(human_readable((1 << 60) + 4096), "1.00 EiB");
    assert_eq!(human_readable(u64::MAX), "16.00 EiB");
}

#[test]
fn hundredths_are_rounded_to_nearest() {
    assert_eq!(human_readable(1029), "1.00 KiB");
    assert_eq!(human_readable(1030), "1.01 KiB");
    assert_eq!(human_readable(2047), "2.00 KiB");
    assert_eq!(human_readable(1024 * 1024 - 1), "1024.00 KiB");
}

#[test]
fn a_tie_goes_to_the_even_hundredth() {
    // 1152 / 1024 = 1.125 and 1408 / 1024 = 1.375
    assert_eq!(human_readable(1152), "1.12 KiB");
    assert_eq!(human_readable(1408), "1.38 KiB");
    assert_eq!(human_readable(2176), "2.12 KiB");
    assert_eq!(human_readable(1152 * 1024), "1.12 MiB");
}

#[test]
fn sizes_agree_with_double_precision_below_two_mebibytes() {
    for value in 0..(2u64 << 20) {
        assert_eq!(human_readable(value), with_floats(value), "size {}", value);
    }
}

#[test]
fn sizes_agree_with_double_precision_around_powers_of_two() {
    for bit in 0..64u32 {
        let power = 1u64 << bit;
        for delta in 0..3000u64 {
            for value in [power.wrapping_add(delta), power.wrapping_sub(delta)] {
                assert_eq!(human_readable(value), with_floats(value), "size {}", value);
            }
        }
    }
}

#[test]
fn sizes_agree_with_double_precision_on_scattered_values() {
    let mut value: u64 = 0x9E37_79B9_7F4A_7C15;
    for _ in 0..200_000 {
        value = value.wrapping_mul(6364136223846793005).wrapping_add(1442695040888963407);
        let shifted = value >> (value % 64);
        assert_eq!(human_readable(shifted), with_floats(shifted), "size {}", shifted);
    }
}

#[test]
fn sizes_agree_with_double_precision_at_halfway_points() {
    // Above 2^53 not every integer survives the rounding to 53 bits: check the
    // integers on both sides of each halfway point near a few anchors.
    for bit in 53..64u32 {
        let step = 1u64 << (bit - 52);
        let base = 1u64 << bit;
        for k in 0..200u64 {
            let mid = base + k * step + step / 2;
            for value in [mid - 1, mid, mid + 1] {
                assert_eq!(human_readable(value), with_floats(value), "size {}", value);
            }
        }
    }
}

#[test]
fn completion_message_reports_the_size() {
    assert_eq!(completion_message(0), "Completed, final file size: 0.00 B");
    assert_eq!(completion_message(1536), "Completed, final file size: 1.50 KiB");
}
