use mandelbrot::parse::parse_dimensions;

#[test]
fn parses_a_plain_resolution() {
    assert_eq!(parse_dimensions("1920x1080"), Some((1920, 1080)));
    assert_eq!(parse_dimensions("4x4"), Some((4, 4)));
    assert_eq!(parse_dimensions("1x4294967295"), Some((1, 4294967295)));
}

#[test]
fn accepts_a_leading_plus() {
    assert_eq!(parse_dimensions("+12x+13"), Some((12, 13)));
}

#[test]
fn rejects_zero_dimensions() {
    assert_eq!(parse_dimensions("0x10"), None);
    assert_eq!(parse_dimensions("10x0"), None);
    assert_eq!(parse_dimensions("0x0"), None);
}

#[test]
fn rejects_malformed_input() {
    assert_eq!(parse_dimensions(""), None);
    assert_eq!(parse_dimensions("10"), None);
    assert_eq!(parse_dimensions("x"), None);
    assert_eq!(parse_dimensions("10x"), None);
    assert_eq!(parse_dimensions("x10"), None);
    assert_eq!(parse_dimensions("axb"), None);
    assert_eq!(parse_dimensions("10x10x10"), None);
    assert_eq!(parse_dimensions("-1x10"), None);
    assert_eq!(parse_dimensions(" 10x10"), None);
    assert_eq!(parse_dimensions("10x1 0"), None);
}

#[test]
fn rejects_values_that_do_not_fit() {
    assert_eq!(parse_dimensions("4294967296x2"), None);
    assert_eq!(parse_dimensions("2x99999999999999999999"), None);
}
