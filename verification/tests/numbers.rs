use data_feed::coerce::{coerce_decimal, coerce_integer};
use data_feed::decimal::{parse_decimal, Decimal};
use data_feed::integer::parse_integer;
use data_feed::json::{Json, JsonNumber};

fn float(number: &Decimal) -> f64 {
    number.to_text().parse().expect("a float")
}

fn read(text: &str) -> Option<f64> {
    parse_decimal(text).map(|number| float(&number))
}

fn scalar(text: &str) -> Json {
    Json::parse(text).expect("a JSON scalar")
}

#[test]
fn integers_are_read_as_the_standard_library_reads_them() {
    let samples = [
        "0", "7", "-7", "+7", "007", "-0", "+0", "1000000", "9223372036854775807",
        "9223372036854775808", "-9223372036854775808", "-9223372036854775809",
        "99999999999999999999999999999999999999999", "", "+", "-", "+-1", "--1", " 1", "1 ",
        "1_000", "1.0", "1e3", "0x10", "１２", "12a", "a12", "1,000",
        "340282366920938463463374607431768211456",
        "000000000000000000000000000000000000000000000000001",
    ];
    for sample in samples {
        assert_eq!(parse_integer(sample), sample.parse::<i64>().ok(), "reading {:?}", sample);
    }
}

#[test]
fn integer_limits_are_exact() {
    assert_eq!(parse_integer("9223372036854775807"), Some(i64::MAX));
    assert_eq!(parse_integer("-9223372036854775808"), Some(i64::MIN));
    assert_eq!(parse_integer("9223372036854775808"), None);
    assert_eq!(parse_integer("-9223372036854775809"), None);
}

#[test]
fn decimals_are_held_as_they_are_spelled() {
    for text in ["190.12", "189.50", "190.1200", "191", "-0.5", "+.5", "5.", "1e3", "1.25E-3"] {
        assert_eq!(parse_decimal(text).expect("a decimal").to_text(), text);
    }
    assert_eq!(read("190.12"), Some(190.12));
    assert_eq!(read("189.50"), Some(189.5));
    assert_eq!(read("190.1200"), Some(190.12));
    assert_eq!(read("-0.5"), Some(-0.5));
    assert_eq!(read("+.5"), Some(0.5));
    assert_eq!(read("5."), Some(5.0));
    assert_eq!(read("1e3"), Some(1000.0));
    assert_eq!(read("1.25E-3"), Some(0.00125));
    assert_eq!(read("12.5e+2"), Some(1250.0));
    assert_eq!(read("0000.0100"), Some(0.01));
    assert_eq!(read("-0").map(f64::to_bits), Some((-0.0f64).to_bits()));
}

#[test]
fn decimals_reject_what_is_no_number() {
    let rejected = [
        "", "+", "-", ".", "e5", ".e5", "1e", "1e+", "1e-", "1.2.3", "1e5.5", " 1", "1 ", "1,5",
        "0x1p3", "inf", "-inf", "infinity", "nan", "NaN", "1_000", "１.５", "--1", "1e--1", "abc",
        "1f", "$1",
    ];
    for text in rejected {
        assert!(parse_decimal(text).is_none(), "reading {:?}", text);
    }
}

#[test]
fn decimals_of_any_length_are_read() {
    assert_eq!(read("20000000000000000000"), Some(2e19));
    assert_eq!(read("18446744073709551616"), Some(18446744073709551616.0));
    assert_eq!(read("1.00000000000000000000"), Some(1.0));
    assert_eq!(read("1.8446744073709551616"), Some(1.8446744073709551616));
    assert_eq!(read("123456789012345678901234567890123456789012345678901234567890"),
        Some(1.2345678901234568e59));
    assert_eq!(read("0.000000000000000000000000000000000000000000000000000000000001"),
        Some(1e-60));
    let zeros = "0".repeat(400);
    assert_eq!(read(&zeros), Some(0.0));
    assert_eq!(read(&format!("{}1", zeros)), Some(1.0));
    assert_eq!(read(&format!("0.{}1", zeros)), Some(0.0));
    assert_eq!(read(&format!("1{}e-400", zeros)), Some(1.0));
    assert_eq!(read(&format!("0.{}1e401", zeros)), Some(1.0));
    assert_eq!(read(&format!("{}.{}e999999999", zeros, zeros)), Some(0.0));
}

#[test]
fn decimals_have_no_lower_bound() {
    assert_eq!(read("5e-324"), Some(5e-324));
    assert_eq!(read("1e-400"), Some(0.0));
    assert_eq!(read("1e-2147483649"), Some(0.0));
    assert_eq!(read("-1e-99999999999999999999999999999999999999999999").map(f64::to_bits),
        Some((-0.0f64).to_bits()));
    assert_eq!(read("0e99999999999999999999999999999999999999999999"), Some(0.0));
    assert_eq!(read("0.000e+340282366920938463463374607431768211456"), Some(0.0));
    assert_eq!(read("1e000000000000000000000000000000000000000000002"), Some(100.0));
}

#[test]
fn decimals_stop_where_the_floats_stop() {
    assert_eq!(read("1.7976931348623157e308"), Some(f64::MAX));
    assert_eq!(read("1.7976931348623158e308"), Some(f64::MAX));
    assert_eq!(read("17976931348623158e292"), Some(f64::MAX));
    assert_eq!(read("0.00017976931348623158e312"), Some(f64::MAX));
    assert_eq!(read("179769313486231580793728971405303415079934132710037826936173778980444968292764750946649017977587207096330286416692887910946555547851940402630657488671505820681908902000708383676273854845817711531764475730270069855571366959622842914819860834936475292719074168444365510704342711559699508093042880177904174497791"), Some(f64::MAX));
    assert_eq!(read("179769313486231580793728971405303415079934132710037826936173778980444968292764750946649017977587207096330286416692887910946555547851940402630657488671505820681908902000708383676273854845817711531764475730270069855571366959622842914819860834936475292719074168444365510704342711559699508093042880177904174497791.99999999"), Some(f64::MAX));
    assert_eq!(read("179769313486231580793728971405303415079934132710037826936173778980444968292764750946649017977587207096330286416692887910946555547851940402630657488671505820681908902000708383676273854845817711531764475730270069855571366959622842914819860834936475292719074168444365510704342711559699508093042880177904174497792"), None);
    assert_eq!(read("179769313486231580793728971405303415079934132710037826936173778980444968292764750946649017977587207096330286416692887910946555547851940402630657488671505820681908902000708383676273854845817711531764475730270069855571366959622842914819860834936475292719074168444365510704342711559699508093042880177904174497792.0"), None);
    assert_eq!(read("179769313486231580793728971405303415079934132710037826936173778980444968292764750946649017977587207096330286416692887910946555547851940402630657488671505820681908902000708383676273854845817711531764475730270069855571366959622842914819860834936475292719074168444365510704342711559699508093042880177904174497792.00000001"), None);
    assert_eq!(read("1797693134862315807937289714053034150799341327100378269361737789804449682927647509466490179775872070963302864166928879109465555478519404026306574886715058206819089020007083836762738548458177115317644757302700698555713669596228429148198608349364752927190741684443655107043427115596995080930428801779041744977920e-1"), None);
    assert_eq!(read("0.179769313486231580793728971405303415079934132710037826936173778980444968292764750946649017977587207096330286416692887910946555547851940402630657488671505820681908902000708383676273854845817711531764475730270069855571366959622842914819860834936475292719074168444365510704342711559699508093042880177904174497792e309"), None);
    assert_eq!(read("1.7976931348623159e308"), None);
    assert_eq!(read("1.8e308"), None);
    assert_eq!(read("2e308"), None);
    assert_eq!(read("1e309"), None);
    assert_eq!(read("1e999"), None);
    assert_eq!(read("-1e999"), None);
    assert_eq!(read("0.1e310"), None);
    assert_eq!(read("1e99999999999999999999999999999999999999999999"), None);
    assert_eq!(read("1e340282366920938463463374607431768211456"), None);
    assert_eq!(read("1e308"), Some(1e308));
    assert_eq!(read("9.99999999999999999999999e307"), Some(1e308));
    assert_eq!(read("-1.7976931348623158e308"), Some(f64::MIN));
}

#[test]
fn decimals_are_read_where_a_finite_float_is_spelled() {
    let samples = [
        "0", "1", "-1", "+1", "1.", ".1", "1.5", "190.12", "1e5", "1E5", "1e+5", "1e-5", "007.50",
        "", ".", "e", "1e", "+", "-", "1..", "1.e", "1x", "x1", "1e1e1", " 1", "1 ", "+-1",
        "123456789.123456789", "0.000000001", "5e-324", "1e-5000", "1e308", "1e309", "1e999",
        "20000000000000000000", "1.7976931348623158e308", "1.7976931348623159e308", "inf", "nan",
        "179769313486231580793728971405303415079934132710037826936173778980444968292764750946649017977587207096330286416692887910946555547851940402630657488671505820681908902000708383676273854845817711531764475730270069855571366959622842914819860834936475292719074168444365510704342711559699508093042880177904174497791",
        "179769313486231580793728971405303415079934132710037826936173778980444968292764750946649017977587207096330286416692887910946555547851940402630657488671505820681908902000708383676273854845817711531764475730270069855571366959622842914819860834936475292719074168444365510704342711559699508093042880177904174497793",
    ];
    for sample in samples {
        let theirs = sample.parse::<f64>().ok().filter(|value| value.is_finite());
        assert_eq!(read(sample), theirs, "reading {:?}", sample);
    }
}

#[test]
fn a_float_written_out_reads_back_the_same() {
    let floats = [
        0.0, 1.0, -1.0, 0.1, 190.12, 2e19, 1e21, 1e22, 1e300, f64::MAX, f64::MIN, f64::MIN_POSITIVE,
        5e-324, 123456789012345680000.0, 1.0 / 3.0, 4.35, 1e-7,
    ];
    for float in floats {
        assert_eq!(read(&format!("{}", float)), Some(float), "reading {}", float);
        assert_eq!(read(&format!("{:e}", float)), Some(float), "reading {:e}", float);
        let number = coerce_decimal(&scalar(&format!("{:e}", float))).expect("a price");
        assert_eq!(number.to_text().parse::<f64>().unwrap(), float);
    }
}

#[test]
fn a_copy_of_a_decimal_spells_the_same() {
    let number = parse_decimal("-12.50e3").expect("a decimal");
    assert_eq!(number.duplicate().to_text(), "-12.50e3");
    assert_eq!(number.to_text(), "-12.50e3");
}

#[test]
fn volume_is_taken_from_numbers_and_strings() {
    assert_eq!(coerce_integer(&scalar("1000000")), Some(1000000));
    assert_eq!(coerce_integer(&scalar("\"1000000\"")), Some(1000000));
    assert_eq!(coerce_integer(&scalar("-5")), Some(-5));
    assert_eq!(coerce_integer(&scalar("\"-5\"")), Some(-5));
    assert_eq!(coerce_integer(&scalar("9223372036854775807")), Some(i64::MAX));
    assert_eq!(coerce_integer(&scalar("-9223372036854775808")), Some(i64::MIN));
}

#[test]
fn volume_is_never_truncated() {
    assert_eq!(coerce_integer(&scalar("1000000.0")), None);
    assert_eq!(coerce_integer(&scalar("1.5")), None);
    assert_eq!(coerce_integer(&scalar("1e3")), None);
    assert_eq!(coerce_integer(&scalar("\"1.0\"")), None);
    assert_eq!(coerce_integer(&scalar("\"1e3\"")), None);
    assert_eq!(coerce_integer(&scalar("9223372036854775808")), None);
    assert_eq!(coerce_integer(&scalar("18446744073709551615")), None);
    assert_eq!(coerce_integer(&scalar("\"9223372036854775808\"")), None);
    assert_eq!(coerce_integer(&scalar("\"\"")), None);
    assert_eq!(coerce_integer(&scalar("\" 12\"")), None);
}

#[test]
fn prices_are_taken_from_numbers_and_strings() {
    let price = |text: &str| coerce_decimal(&scalar(text)).map(|number| float(&number));
    assert_eq!(price("\"190.12\""), Some(190.12));
    assert_eq!(price("191.0"), Some(191.0));
    assert_eq!(price("190.80"), Some(190.8));
    assert_eq!(price("\"190.80\""), Some(190.8));
    assert_eq!(price("191"), Some(191.0));
    assert_eq!(price("-3"), Some(-3.0));
    assert_eq!(price("\"20000000000000000000\""), Some(2e19));
    assert_eq!(price("20000000000000000000"), Some(2e19));
    assert_eq!(price("\"abc\""), None);
    assert_eq!(price("\"\""), None);
    assert_eq!(price("\"inf\""), None);
    assert_eq!(price("\"NaN\""), None);
    assert_eq!(price("\"1e999\""), None);
    assert_eq!(price("\"-1e999\""), None);
    assert_eq!(price("\"1.7976931348623159e308\""), None);
}

#[test]
fn prices_written_as_numbers_spell_the_float_of_the_source() {
    let samples = [
        "0.1", "190.80", "1e300", "1e-300", "1.7976931348623157e308", "5e-324", "123456789012",
        "0.30000000000000004", "1e16", "1e21", "1.5e-7", "-0.0", "18446744073709551615", "-1",
        "100000000000000000000", "4.35", "2.2250738585072014e-308",
    ];
    for sample in samples {
        let price = coerce_decimal(&scalar(sample)).expect("a price");
        assert_eq!(float(&price), sample.parse::<f64>().unwrap(), "reading {}", sample);
    }
}

#[test]
fn other_shapes_are_no_numbers() {
    for text in ["null", "true", "false", "[]", "[1]", "{}", "{\"1. open\": 1}"] {
        assert_eq!(coerce_integer(&scalar(text)), None);
        assert!(coerce_decimal(&scalar(text)).is_none());
    }
}

#[test]
fn coercion_goes_by_what_the_scalar_holds() {
    let number = Json::Number(JsonNumber { integer: Some(42), literal: String::from("42") });
    assert_eq!(coerce_integer(&number), Some(42));
    assert_eq!(coerce_decimal(&number).map(|price| float(&price)), Some(42.0));
    let fraction = Json::Number(JsonNumber { integer: None, literal: String::from("42.5") });
    assert_eq!(coerce_integer(&fraction), None);
    assert_eq!(coerce_decimal(&fraction).map(|price| float(&price)), Some(42.5));
    assert_eq!(coerce_integer(&Json::Text(String::from("+42"))), Some(42));
    assert_eq!(coerce_integer(&Json::Null), None);
    assert!(coerce_decimal(&Json::Bool(true)).is_none());
    assert!(coerce_decimal(&Json::Array(vec![Json::Null])).is_none());
}
