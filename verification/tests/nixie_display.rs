use cyberpunk_display::fixed::{parse_fixed, Fixed};
use cyberpunk_display::nixie::decimal_to_bytes;

fn px(s: &str) -> Fixed {
    parse_fixed(&s.chars().collect()).unwrap()
}

#[test]
fn test_float_to_bytes() {
    assert_eq!(decimal_to_bytes(px("100.2")).bytes, b"TIMD100200BBBLBB".to_vec());
    assert_eq!(decimal_to_bytes(px("0.1513")).bytes, b"TIMD151300LBBBBB".to_vec());
    assert_eq!(decimal_to_bytes(px("13568.0")).bytes, b"TIMD135680BBBBBL".to_vec());
    assert_eq!(decimal_to_bytes(px("141.51165")).bytes, b"TIMD141512BBBLBB".to_vec());
    assert_eq!(decimal_to_bytes(px("94395.23")).bytes, b"TIMD943952BBBBBL".to_vec());
    assert_eq!(decimal_to_bytes(px("124395.52")).bytes, b"TIMD124396BBBBBB".to_vec());
    assert_eq!(decimal_to_bytes(px("99999.73")).bytes, b"TIMD999997BBBBBL".to_vec());
    assert_eq!(decimal_to_bytes(px("100000")).bytes, b"TIMD100000BBBBBB".to_vec());
    assert_eq!(decimal_to_bytes(px("999999.5")).bytes, b"TIMD100000BBBBBB".to_vec());
}

#[test]
fn test_whole_number_shows_no_point() {
    // the same value without fractional digits in its text lights no lamp
    assert_eq!(decimal_to_bytes(px("13568")).bytes, b"TIMD135680BBBBBB".to_vec());
}

#[test]
fn test_flip_first_decimal_point() {
    let mut msg = decimal_to_bytes(px("100.2"));
    assert_eq!(msg.bytes[10], b'B');
    msg.flip_first_decimal_point();
    assert_eq!(msg.bytes, b"TIMD100200LBBLBB".to_vec());
    msg.flip_first_decimal_point();
    assert_eq!(msg.bytes, b"TIMD100200BBBLBB".to_vec());
}

#[test]
fn test_same_bytes() {
    let a = decimal_to_bytes(px("100.2"));
    let b = decimal_to_bytes(px("100.20"));
    let c = decimal_to_bytes(px("100.3"));
    assert!(a.same_bytes(&b));
    assert!(!a.same_bytes(&c));
}
