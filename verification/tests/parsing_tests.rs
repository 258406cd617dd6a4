use sticks::material_parser::{parse_color_ambient_value, parse_name_value, Color, Value};
use sticks::parser_utilities::{parse_integer, parse_number, Number};

fn num(s: &str) -> Number {
    let negative = s.starts_with('-');
    let t = if negative { &s[1..] } else { s };
    match t.split_once('.') {
        Some((i, f)) => Number {
            negative,
            integer: i.to_string(),
            fraction: if f.is_empty() { None } else { Some(f.to_string()) },
        },
        None => Number {
            negative,
            integer: t.to_string(),
            fraction: None,
        },
    }
}

#[test]
fn test_parse3() {
    let test_case = "1.0";

    assert_eq!(Some((3, num("1.0"))), parse_number(test_case, 0));
}

#[test]
fn test_parse1() {
    let test_case = "Ka 0.123 13.244 1.0";

    assert_eq!(
        Some((
            test_case.chars().count(),
            Value::ColorAmbient(Color {
                r: num("0.123"),
                g: num("13.244"),
                b: num("1.0"),
            })
        )),
        parse_color_ambient_value(test_case, 0)
    );
}

#[test]
fn test_parse2() {
    let test_case = "newmtl Material";

    assert_eq!(
        Some((test_case.chars().count(), Value::Name("Material".to_string()))),
        parse_name_value(test_case, 0)
    );
}

#[test]
fn number_literal_edge_shapes() {
    // A trailing dot is consumed, and the fraction stays absent.
    assert_eq!(
        Some((2, Number { negative: false, integer: "1".to_string(), fraction: None })),
        parse_number("1.", 0)
    );
    // A leading dot is not a number: a leading digit is mandatory.
    assert_eq!(None, parse_number(".5", 0));
    // A leading plus is not accepted.
    assert_eq!(None, parse_number("+1", 0));
    // A sign alone is not a number.
    assert_eq!(None, parse_number("-", 0));
    // Leading zeros are kept as written.
    assert_eq!(
        Some((
            8,
            Number {
                negative: true,
                integer: "007".to_string(),
                fraction: Some("500".to_string()),
            }
        )),
        parse_number("-007.500", 0)
    );
    // Only the literal is consumed.
    assert_eq!(
        Some((3, Number { negative: false, integer: "1".to_string(), fraction: Some("5".to_string()) })),
        parse_number("1.5e3", 0)
    );
}

#[test]
fn integer_literal_edge_shapes() {
    assert_eq!(Some((2, -1)), parse_integer("-1", 0));
    assert_eq!(Some((1, 0)), parse_integer("0", 0));
    assert_eq!(Some((19, 9223372036854775807)), parse_integer("9223372036854775807", 0));
    // A magnitude past the index type fails the literal, so its line
    // matches no rule.
    assert_eq!(None, parse_integer("9223372036854775808", 0));
    assert_eq!(None, parse_integer("99999999999999999999999999", 0));
    assert_eq!(None, parse_integer("x", 0));
}
