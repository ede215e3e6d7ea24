use referee::decimal::{parse_u32, render_u32};

#[test]
fn parse_accepts_plain_decimals() {
    assert_eq!(Some(0), parse_u32("0"));
    assert_eq!(Some(7), parse_u32("7"));
    assert_eq!(Some(42), parse_u32("42"));
    assert_eq!(Some(100), parse_u32("100"));
    assert_eq!(Some(4294967295), parse_u32("4294967295"));
    // Leading zeros are digits like any other.
    assert_eq!(Some(7), parse_u32("007"));
}

#[test]
fn parse_rejects_everything_else() {
    assert_eq!(None, parse_u32(""));
    assert_eq!(None, parse_u32("+5"));
    assert_eq!(None, parse_u32("-1"));
    assert_eq!(None, parse_u32(" 5"));
    assert_eq!(None, parse_u32("5 "));
    assert_eq!(None, parse_u32("12a"));
    assert_eq!(None, parse_u32("a12"));
    assert_eq!(None, parse_u32("1.0"));
}

#[test]
fn parse_rejects_values_too_large() {
    assert_eq!(None, parse_u32("4294967296"));
    assert_eq!(None, parse_u32("99999999999999999999"));
}

#[test]
fn render_gives_canonical_decimals() {
    assert_eq!("0", render_u32(0));
    assert_eq!("7", render_u32(7));
    assert_eq!("10", render_u32(10));
    assert_eq!("100", render_u32(100));
    assert_eq!("4294967295", render_u32(4294967295));
}

#[test]
fn render_then_parse_round_trips() {
    for v in [0u32, 1, 9, 10, 99, 100, 123456, 4294967295] {
        assert_eq!(Some(v), parse_u32(&render_u32(v)));
    }
}
