use factorio_rcon::codec::{push_i32_le, read_i32_le};
use factorio_rcon::text::{push_decimal, push_signed_decimal};

#[test]
fn le_bytes_match_std() {
    for x in [i32::MIN, -65536, -256, -1, 0, 1, 127, 128, 255, 256, 1 << 24, i32::MAX] {
        let mut buf = vec![9u8];
        push_i32_le(&mut buf, x);
        assert_eq!(&buf[1..], &x.to_le_bytes());
        assert_eq!(read_i32_le(&buf, 1), x);
    }
}

#[test]
fn decimal_text() {
    let mut s = String::from("n=");
    push_decimal(&mut s, 0);
    assert_eq!(s, "n=0");
    let mut s = String::new();
    push_decimal(&mut s, 1234567890);
    assert_eq!(s, "1234567890");
    let mut s = String::new();
    push_signed_decimal(&mut s, -42);
    assert_eq!(s, "-42");
    let mut s = String::new();
    push_signed_decimal(&mut s, i64::MIN);
    assert_eq!(s, i64::MIN.to_string());
}
