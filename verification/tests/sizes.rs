use nebula_ssh::local_files;
use nebula_ssh::local_monitor::format_bytes;
use nebula_ssh::sftp;
use nebula_ssh::text::decimal;
use nebula_ssh::text::octal;
use nebula_ssh::units::divide_round_half_even;
use nebula_ssh::units::nearest_double;
use nebula_ssh::units::scaled_tenths_of;

#[test]
fn decimal_and_octal_digits() {
    assert_eq!(decimal(0), "0");
    assert_eq!(decimal(7), "7");
    assert_eq!(decimal(10), "10");
    assert_eq!(decimal(1234567890), "1234567890");
    assert_eq!(decimal(u64::MAX), "18446744073709551615");
    assert_eq!(octal(0), "0");
    assert_eq!(octal(8), "10");
    assert_eq!(octal(0o755), "755");
    assert_eq!(octal(0o644), "644");
}

#[test]
fn rounding_goes_to_the_even_neighbour_on_a_tie() {
    assert_eq!(divide_round_half_even(5, 2), 2);
    assert_eq!(divide_round_half_even(7, 2), 4);
    assert_eq!(divide_round_half_even(9, 4), 2);
    assert_eq!(divide_round_half_even(11, 4), 3);
    assert_eq!(divide_round_half_even(10, 4), 2);
    assert_eq!(divide_round_half_even(14, 4), 4);
}

#[test]
fn nearest_double_matches_the_float_conversion() {
    let samples: [u64; 12] = [
        0,
        1,
        (1u64 << 53) - 1,
        1u64 << 53,
        (1u64 << 53) + 1,
        (1u64 << 53) + 3,
        (1u64 << 54) - 1,
        (1u64 << 60) + 129,
        (1u64 << 63) + 1024,
        (1u64 << 63) + 1025,
        u64::MAX - 1024,
        u64::MAX,
    ];
    for n in samples {
        assert_eq!(nearest_double(n), (n as f64) as u128, "for {}", n);
    }
}

#[test]
fn local_format_size_values() {
    assert_eq!(local_files::format_size(0), "0.0 B");
    assert_eq!(local_files::format_size(1), "1.0 B");
    assert_eq!(local_files::format_size(1023), "1023.0 B");
    assert_eq!(local_files::format_size(1024), "1.0 KB");
    assert_eq!(local_files::format_size(1536), "1.5 KB");
    assert_eq!(local_files::format_size(1280), "1.2 KB");
    assert_eq!(local_files::format_size(1792), "1.8 KB");
    assert_eq!(local_files::format_size(1048576), "1.0 MB");
    assert_eq!(local_files::format_size(1073741824), "1.0 GB");
    assert_eq!(local_files::format_size(1099511627776), "1.0 TB");
    assert_eq!(local_files::format_size(u64::MAX), "16777216.0 TB");
}

#[test]
fn remote_format_size_values() {
    assert_eq!(sftp::format_size(0), "0 B");
    assert_eq!(sftp::format_size(512), "512.0 B");
    assert_eq!(sftp::format_size(2048), "2.0 KB");
    assert_eq!(sftp::format_size(5 * 1024 * 1024 + 512 * 1024), "5.5 MB");
}

#[test]
fn format_bytes_values() {
    assert_eq!(format_bytes(0), "0.0B");
    assert_eq!(format_bytes(1536), "1.5KB");
    assert_eq!(format_bytes(500_000_000_000), "465.7GB");
    assert_eq!(format_bytes(1_000_000_000_000), "931.3GB");
}

fn float_reference(size: u64, separator: &str) -> String {
    let units = ["B", "KB", "MB", "GB", "TB"];
    let mut s = size as f64;
    let mut k = 0;
    while s >= 1024.0 && k < units.len() - 1 {
        s /= 1024.0;
        k += 1;
    }
    format!("{:.1}{}{}", s, separator, units[k])
}

#[test]
fn sizes_agree_with_float_formatting() {
    let mut n: u64 = 1;
    let mut i: u64 = 0;
    while i < 4000 {
        assert_eq!(local_files::format_size(n), float_reference(n, " "), "for {}", n);
        assert_eq!(format_bytes(n), float_reference(n, ""), "for {}", n);
        n = n.wrapping_mul(6364136223846793005).wrapping_add(1442695040888963407);
        i += 1;
    }
    let mut m: u64 = 0;
    while m < 70000 {
        assert_eq!(local_files::format_size(m), float_reference(m, " "), "for {}", m);
        m += 1;
    }
    let mut shift = 0;
    while shift < 64 {
        let base = 1u64 << shift;
        for delta in [0u64, 1, 2, 3, 127, 128, 129, 255, 256, 257, 511, 512, 513] {
            let v = base.wrapping_add(delta);
            assert_eq!(local_files::format_size(v), float_reference(v, " "), "for {}", v);
            let w = base.wrapping_sub(delta);
            assert_eq!(local_files::format_size(w), float_reference(w, " "), "for {}", w);
        }
        shift += 1;
    }
    assert_eq!(scaled_tenths_of(1280), 12);
}
