use sea::reef::{float_text, parse, ReefParseError, ReefValue};

fn s(x: &str) -> String {
    x.to_string()
}

#[test]
fn reads_keys_and_values() {
    let code = "a=\"hi\"\n# a comment\n\n  b=true  \nn=1.5e3\na=false\n";
    let table = parse(code).unwrap();
    assert_eq!(
        table,
        vec![
            (s("a"), ReefValue::Boolean(false)),
            (s("b"), ReefValue::Boolean(true)),
            (s("n"), ReefValue::Number(s("1.5e3"))),
        ]
    );
}

#[test]
fn string_value_loses_its_quotes() {
    assert_eq!(ReefValue::from_str("\"name\""), Ok(ReefValue::String(s("name"))));
}

#[test]
fn unreadable_value_is_an_error() {
    assert_eq!(parse("x=1\ny=maybe\n"), Err(ReefParseError::ValueParseError));
    assert_eq!(ReefValue::from_str("True"), Err(ReefParseError::ValueParseError));
}

#[test]
fn space_around_equals_belongs_to_key_and_value() {
    assert_eq!(parse("k = 1"), Err(ReefParseError::ValueParseError));
}

#[test]
fn numbers_follow_the_float_syntax() {
    for ok in ["1", "-2.5", "+.5", "5.", "1e10", "2.5E-3", "inf", "-Infinity", "NaN"] {
        assert!(float_text(ok), "{ok}");
        assert!(ok.parse::<f64>().is_ok(), "{ok}");
    }
    for bad in ["", ".", "e5", "1e", "1.2.3", "0x10", " 1", "infin", "--1"] {
        assert!(!float_text(bad), "{bad}");
        assert!(bad.parse::<f64>().is_err(), "{bad}");
    }
}

#[test]
fn empty_file_is_an_empty_table() {
    assert_eq!(parse(""), Ok(vec![]));
    assert_eq!(parse("# only a comment\n\n"), Ok(vec![]));
}
