use rand::{thread_rng, Rng};
use unshare::decimal::{
    format_decimal, format_pid_fixed, push_decimal, push_decimal_text, push_signed_decimal_text,
    MAX_PID_LEN,
};

fn fmt_normal(val: i32) -> String {
    let mut buf = [0u8; MAX_PID_LEN + 1];
    let slice = format_pid_fixed(&mut buf, val);
    assert_eq!(slice[slice.len() - 1], 0);
    String::from_utf8(slice[..slice.len() - 1].to_vec()).unwrap()
}

#[test]
fn test_format() {
    assert_eq!(fmt_normal(0), "0");
    assert_eq!(fmt_normal(1), "1");
    assert_eq!(fmt_normal(7), "7");
    assert_eq!(fmt_normal(79), "79");
    assert_eq!(fmt_normal(254), "254");
    assert_eq!(fmt_normal(1158), "1158");
    assert_eq!(fmt_normal(77839), "77839");
}

#[test]
fn test_random() {
    for _ in 0..100000 {
        let x: i32 = thread_rng().gen();
        if x < 0 {
            continue;
        }
        assert_eq!(fmt_normal(x), format!("{}", x));
    }
}

#[test]
fn format_pid_is_right_aligned_and_leaves_the_rest() {
    let mut buf = [b'x'; 13];
    let len = {
        let slice = format_pid_fixed(&mut buf, 4711);
        assert_eq!(slice, b"4711\0");
        slice.len()
    };
    assert_eq!(len, 5);
    assert_eq!(&buf[..8], b"xxxxxxxx");
    assert_eq!(&buf[8..], b"4711\0");
}

#[test]
fn format_pid_largest() {
    assert_eq!(fmt_normal(i32::MAX), "2147483647");
    let mut buf = [0u8; 11];
    assert_eq!(format_pid_fixed(&mut buf, i32::MAX), b"2147483647\0");
}

#[test]
fn decimal_numerals() {
    assert_eq!(format_decimal(0), b"0".to_vec());
    assert_eq!(format_decimal(10), b"10".to_vec());
    assert_eq!(format_decimal(65535), b"65535".to_vec());
    assert_eq!(format_decimal(u64::MAX), b"18446744073709551615".to_vec());
    let mut out = b"pid=".to_vec();
    push_decimal(&mut out, 1234567890);
    assert_eq!(out, b"pid=1234567890".to_vec());
}

#[test]
fn decimal_text() {
    let mut out = String::from("n=");
    push_decimal_text(&mut out, 0);
    push_decimal_text(&mut out, 907);
    assert_eq!(out, "n=0907");
    let mut out = String::new();
    push_signed_decimal_text(&mut out, -1);
    out.push(' ');
    push_signed_decimal_text(&mut out, 0);
    out.push(' ');
    push_signed_decimal_text(&mut out, i32::MIN);
    out.push(' ');
    push_signed_decimal_text(&mut out, i32::MAX);
    assert_eq!(out, "-1 0 -2147483648 2147483647");
    let mut out = String::new();
    push_decimal_text(&mut out, u64::MAX);
    assert_eq!(out, "18446744073709551615");
}
