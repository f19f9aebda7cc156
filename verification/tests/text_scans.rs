use nebula_ssh::scan::char_is_space;
use nebula_ssh::scan::contains_text;
use nebula_ssh::scan::starts_with_text;
use nebula_ssh::scan::trim;
use nebula_ssh::text::parse_i32;
use nebula_ssh::text::signed_decimal;
use nebula_ssh::text::socket_address;

#[test]
fn white_space_is_what_the_standard_library_calls_white_space() {
    let mut code: u32 = 0;
    while code <= 0x10ffff {
        if let Some(c) = char::from_u32(code) {
            assert_eq!(char_is_space(c), c.is_whitespace(), "U+{:04X}", code);
        }
        code += 1;
    }
}

#[test]
fn trim_agrees_with_the_standard_library() {
    let samples = [
        "",
        " ",
        "\n",
        "  /home/alice \n",
        "/home/alice",
        "\t\r\n x y \u{a0}\u{3000}",
        "\u{2003}caf\u{e9}\u{2003}",
        "a",
        " a",
        "a ",
        "   ",
        "inner  space",
        "\u{feff}bom",
    ];
    for s in samples {
        assert_eq!(trim(s), s.trim(), "{:?}", s);
    }
}

#[test]
fn searching_agrees_with_the_standard_library() {
    let hay = ["", "Darwin", "Linux", "Darwin Kernel Version 23", "xDarwi", "aaab", "\u{e9}t\u{e9}"];
    let needles = ["", "Darwin", "D", "n", "ab", "aab", "b", "t\u{e9}", "Linux!", "\u{e9}"];
    for h in hay {
        for n in needles {
            assert_eq!(contains_text(h, n), h.contains(n), "{:?} in {:?}", n, h);
            assert_eq!(starts_with_text(h, n), h.starts_with(n), "{:?} at {:?}", n, h);
        }
    }
}

#[test]
fn parse_i32_agrees_with_the_standard_library() {
    let samples = [
        "",
        "0",
        "7",
        "10000",
        "-1",
        "+1",
        "+",
        "-",
        "--1",
        "+-1",
        "007",
        "-007",
        "2147483647",
        "2147483648",
        "-2147483648",
        "-2147483649",
        "99999999999999999999999",
        "00000000000000000000005",
        "12a",
        "a12",
        " 12",
        "12 ",
        "1_000",
        "1.5",
        "\u{661}\u{662}",
        "-0",
        "+0",
        "4294967296",
    ];
    for s in samples {
        assert_eq!(parse_i32(s), s.parse::<i32>().ok(), "{:?}", s);
    }
    assert_eq!(parse_i32("10000"), Some(10000));
    assert_eq!(parse_i32("-2147483648"), Some(i32::MIN));
    assert_eq!(parse_i32("2147483648"), None);
}

#[test]
fn signed_decimal_agrees_with_the_standard_library() {
    for n in [0i64, 1, -1, 9, 10, -10, 12345, -12345, i64::MAX, i64::MIN, i64::MIN + 1] {
        assert_eq!(signed_decimal(n), n.to_string());
    }
}

#[test]
fn socket_address_joins_host_and_port() {
    assert_eq!(socket_address("example.org", 22), "example.org:22");
    assert_eq!(socket_address("127.0.0.1", 0), "127.0.0.1:0");
    assert_eq!(socket_address("h", 65535), "h:65535");
    assert_eq!(socket_address("", -7), ":-7");
}
