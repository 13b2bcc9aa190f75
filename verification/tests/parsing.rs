use w1temp::Error;

fn record_lines(input: &str) -> Vec<String> {
    input.lines().map(|l| l.to_string()).collect()
}

#[test]
fn parse() {
    let input = "60 01 4b 46 7f ff 0c 10 14 : crc=14 YES\n60 01 4b 46 7f ff 0c 10 14 t=22000\n";
    match w1temp::parse_record(&record_lines(input)) {
        Ok(milli) => {
            let temp = milli as f64 / 1000.0;
            if !(temp > 21.999 && temp < 22.001) {
                panic!("wrong temperature {:?}", temp);
            }
        }
        Err(e) => panic!("parse failed: {:?}", e),
    }
}

#[test]
fn parses_example_to_twenty_two() {
    let lines = record_lines(
        "60 01 4b 46 7f ff 0c 10 14 : crc=14 YES\n60 01 4b 46 7f ff 0c 10 14 t=22000\n",
    );
    let milli = w1temp::parse_record(&lines).unwrap();
    assert_eq!(milli, 22000);
    assert_eq!(milli as f64 / 1000.0, 22.0);
}

#[test]
fn parses_negative_value() {
    let lines = record_lines(
        "60 01 4b 46 7f ff 0c 10 14 : crc=14 YES\n60 01 4b 46 7f ff 0c 10 14 t=-5000\n",
    );
    let milli = w1temp::parse_record(&lines).unwrap();
    assert_eq!(milli, -5000);
    assert_eq!(milli as f64 / 1000.0, -5.0);
}

#[test]
fn crc_flag_other_than_yes_is_mismatch() {
    // the second line is not even well-formed; the mismatch must win anyway
    let lines = record_lines("60 01 4b 46 7f ff 0c 10 14 : crc=14 NO\n###garbage###\n");
    assert!(matches!(w1temp::parse_record(&lines), Err(Error::BadCRC)));
}

#[test]
fn crc_flag_with_trailing_text_is_mismatch() {
    // the 12th field keeps everything after the 11th space verbatim,
    // embedded spaces included, so it is "YES but", not "YES"
    let lines = record_lines("a b c d e f g h i j k YES but\nx t=1\n");
    assert!(matches!(w1temp::parse_record(&lines), Err(Error::BadCRC)));
}

#[test]
fn short_crc_line_is_invalid_data() {
    let lines = record_lines("too few fields\n60 01 4b 46 7f ff 0c 10 14 t=22000\n");
    match w1temp::parse_record(&lines) {
        Err(Error::InvalidData { msg, data }) => {
            assert_eq!(msg, "CRC line");
            assert_eq!(data, "too few fields");
        }
        other => panic!("expected invalid data, got {:?}", other),
    }
}

#[test]
fn empty_input_is_missing_crc_line() {
    let lines: Vec<String> = Vec::new();
    match w1temp::parse_record(&lines) {
        Err(Error::InvalidData { msg, data }) => {
            assert_eq!(msg, "missing CRC line");
            assert_eq!(data, "");
        }
        other => panic!("expected invalid data, got {:?}", other),
    }
}

#[test]
fn single_line_is_missing_data_line() {
    let lines = record_lines("60 01 4b 46 7f ff 0c 10 14 : crc=14 YES\n");
    match w1temp::parse_record(&lines) {
        Err(Error::InvalidData { msg, data }) => {
            assert_eq!(msg, "missing data line");
            assert_eq!(data, "");
        }
        other => panic!("expected invalid data, got {:?}", other),
    }
}

#[test]
fn short_temperature_line_is_invalid_data() {
    let lines = record_lines("60 01 4b 46 7f ff 0c 10 14 : crc=14 YES\nonly three fields\n");
    match w1temp::parse_record(&lines) {
        Err(Error::InvalidData { msg, data }) => {
            assert_eq!(msg, "wrong number of fields in temperature line");
            assert_eq!(data, "only three fields");
        }
        other => panic!("expected invalid data, got {:?}", other),
    }
}

#[test]
fn temperature_line_without_equals_is_invalid_data() {
    let line = "60 01 4b 46 7f ff 0c 10 14 temperature";
    let lines = record_lines(&format!("60 01 4b 46 7f ff 0c 10 14 : crc=14 YES\n{}\n", line));
    match w1temp::parse_record(&lines) {
        Err(Error::InvalidData { msg, data }) => {
            assert_eq!(msg, "no '=' in temperature line");
            assert_eq!(data, line);
        }
        other => panic!("expected invalid data, got {:?}", other),
    }
}

#[test]
fn non_numeric_temperature_value_is_invalid_data() {
    let line = "60 01 4b 46 7f ff 0c 10 14 t=abc";
    let lines = record_lines(&format!("60 01 4b 46 7f ff 0c 10 14 : crc=14 YES\n{}\n", line));
    match w1temp::parse_record(&lines) {
        Err(Error::InvalidData { msg, data }) => {
            assert_eq!(msg, "unable to parse temperature value");
            assert_eq!(data, line);
        }
        other => panic!("expected invalid data, got {:?}", other),
    }
}

#[test]
fn digits_mixed_with_letters_are_invalid_data() {
    let lines = record_lines(
        "60 01 4b 46 7f ff 0c 10 14 : crc=14 YES\n60 01 4b 46 7f ff 0c 10 14 t=22x00\n",
    );
    assert!(matches!(
        w1temp::parse_record(&lines),
        Err(Error::InvalidData { .. })
    ));
}

#[test]
fn empty_temperature_value_is_invalid_data() {
    let lines = record_lines(
        "60 01 4b 46 7f ff 0c 10 14 : crc=14 YES\n60 01 4b 46 7f ff 0c 10 14 t=\n",
    );
    assert!(matches!(
        w1temp::parse_record(&lines),
        Err(Error::InvalidData { .. })
    ));
}

#[test]
fn overflowing_temperature_value_is_invalid_data() {
    let lines = record_lines(
        "60 01 4b 46 7f ff 0c 10 14 : crc=14 YES\n60 01 4b 46 7f ff 0c 10 14 t=99999999999999999999\n",
    );
    assert!(matches!(
        w1temp::parse_record(&lines),
        Err(Error::InvalidData { .. })
    ));
}

#[test]
fn parsing_twice_yields_identical_results() {
    let ok_lines = record_lines(
        "60 01 4b 46 7f ff 0c 10 14 : crc=14 YES\n60 01 4b 46 7f ff 0c 10 14 t=31062\n",
    );
    let first = w1temp::parse_record(&ok_lines).unwrap();
    let second = w1temp::parse_record(&ok_lines).unwrap();
    assert_eq!(first, second);

    let bad_lines = record_lines("60 01 4b 46 7f ff 0c 10 14 : crc=14 NO\nwhatever\n");
    assert!(matches!(w1temp::parse_record(&bad_lines), Err(Error::BadCRC)));
    assert!(matches!(w1temp::parse_record(&bad_lines), Err(Error::BadCRC)));
}

#[test]
fn integer_text_edge_cases() {
    assert_eq!(w1temp::parse_int_text("22000"), Some(22000));
    assert_eq!(w1temp::parse_int_text("-5000"), Some(-5000));
    assert_eq!(w1temp::parse_int_text("+5000"), Some(5000));
    assert_eq!(w1temp::parse_int_text("0"), Some(0));
    assert_eq!(
        w1temp::parse_int_text("-9223372036854775808"),
        Some(i64::MIN)
    );
    assert_eq!(
        w1temp::parse_int_text("9223372036854775807"),
        Some(i64::MAX)
    );
    assert_eq!(w1temp::parse_int_text("9223372036854775808"), None);
    assert_eq!(w1temp::parse_int_text("-9223372036854775809"), None);
    assert_eq!(w1temp::parse_int_text(""), None);
    assert_eq!(w1temp::parse_int_text("-"), None);
    assert_eq!(w1temp::parse_int_text("+"), None);
    assert_eq!(w1temp::parse_int_text("1.5"), None);
    assert_eq!(w1temp::parse_int_text("1e3"), None);
    assert_eq!(w1temp::parse_int_text(" 1"), None);
}
