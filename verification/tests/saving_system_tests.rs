use rust_shooter::saving_system::{get_record, parse_i32, save_record};

#[test]
fn formatting_gives_plain_decimal() {
    assert_eq!(save_record(0), b"0".to_vec());
    assert_eq!(save_record(7), b"7".to_vec());
    assert_eq!(save_record(12345), b"12345".to_vec());
    assert_eq!(save_record(-42), b"-42".to_vec());
    assert_eq!(save_record(i32::MAX), b"2147483647".to_vec());
    assert_eq!(save_record(i32::MIN), b"-2147483648".to_vec());
}

#[test]
fn parsing_accepts_signed_decimals() {
    assert_eq!(parse_i32(&b"12".to_vec()), Some(12));
    assert_eq!(parse_i32(&b"+7".to_vec()), Some(7));
    assert_eq!(parse_i32(&b"-0".to_vec()), Some(0));
    assert_eq!(parse_i32(&b"007".to_vec()), Some(7));
    assert_eq!(parse_i32(&b"2147483647".to_vec()), Some(i32::MAX));
    assert_eq!(parse_i32(&b"-2147483648".to_vec()), Some(i32::MIN));
}

#[test]
fn parsing_rejects_everything_else() {
    assert_eq!(parse_i32(&b"".to_vec()), None);
    assert_eq!(parse_i32(&b"-".to_vec()), None);
    assert_eq!(parse_i32(&b"+".to_vec()), None);
    assert_eq!(parse_i32(&b"abc".to_vec()), None);
    assert_eq!(parse_i32(&b"12x".to_vec()), None);
    assert_eq!(parse_i32(&b" 12".to_vec()), None);
    assert_eq!(parse_i32(&b"--5".to_vec()), None);
    assert_eq!(parse_i32(&b"2147483648".to_vec()), None);
    assert_eq!(parse_i32(&b"-2147483649".to_vec()), None);
    assert_eq!(parse_i32(&b"99999999999999999999".to_vec()), None);
}

#[test]
fn text_record_round_trips() {
    for value in [0, 1, -1, 10, 99, -12345, i32::MAX, i32::MIN] {
        let bytes = save_record(value);
        assert_eq!(parse_i32(&bytes), Some(value));
    }
}

#[test]
fn missing_text_store_reads_zero() {
    assert_eq!(get_record(&None), 0);
}

#[test]
fn text_store_reads_its_value() {
    assert_eq!(get_record(&Some(b"123".to_vec())), 123);
    assert_eq!(get_record(&Some(b"-9".to_vec())), -9);
}
