//! Calculator scenarios: the payload grammar, the division-by-zero decision
//! on double bit patterns, and the exact reply bytes, with the real IEEE-754
//! arithmetic and `serde_json` number rendering supplied as the embedding
//! program supplies them.
use rusty_calc::calc::evaluate_step;
use rusty_calc::calc::parse_calc;
use rusty_calc::calc::CalcParseError;
use rusty_calc::calc::CalcStep;
use rusty_calc::calc::Calculation;
use rusty_calc::calc::Operation;
use rusty_calc::calc::RawCalc;
use rusty_calc::router::calc_failure_response;
use rusty_calc::router::calc_result_response;
use rusty_calc::router::route;
use rusty_calc::router::Action;
use rusty_calc::response::CalcFailure;

/// The numeric glue the library leaves to its embedding: reading the operand
/// lexemes as doubles, carrying out the arithmetic, and rendering the result
/// as `serde_json` renders a double.
fn run_calc(rc: &RawCalc) -> Vec<u8> {
    let lhs: f64 = std::str::from_utf8(&rc.lhs).unwrap().parse().unwrap();
    let rhs: f64 = std::str::from_utf8(&rc.rhs).unwrap().parse().unwrap();
    let c = Calculation { op: rc.op, lhs: lhs.to_bits(), rhs: rhs.to_bits() };
    match evaluate_step(&c) {
        CalcStep::DivisionByZero => calc_failure_response(CalcFailure::DivisionByZero),
        CalcStep::Compute => {
            let l = f64::from_bits(c.lhs);
            let r = f64::from_bits(c.rhs);
            let v = match c.op {
                Operation::Add => l + r,
                Operation::Sub => l - r,
                Operation::Mul => l * r,
                Operation::Div => l / r,
            };
            let num = serde_json::to_string(&v).unwrap();
            calc_result_response(num.as_bytes())
        }
    }
}

fn post_calc(body: &[u8]) -> Vec<u8> {
    match route(b"POST /calc HTTP/1.1\r\n\r\n", body) {
        Action::Respond(v) => v,
        Action::Calculate(rc) => run_calc(&rc),
        _ => panic!("unexpected action"),
    }
}

fn expected_ok_json(body: &str) -> Vec<u8> {
    format!(
        "HTTP/1.1 200 OK\r\nContent-Type: application/json; charset=UTF-8\r\nContent-Length: {}\r\n\r\n{}",
        body.len(),
        body
    )
    .into_bytes()
}

#[test]
fn addition_replies_with_the_sum() {
    let resp = post_calc(b"{\"op\":\"+\",\"lhs\":2,\"rhs\":3}");
    assert_eq!(resp, expected_ok_json("{\"error\":null,\"result\":5.0}"));
}

#[test]
fn division_by_zero_is_reported_in_the_error_field() {
    let resp = post_calc(b"{\"op\":\"/\",\"lhs\":5,\"rhs\":0}");
    assert_eq!(
        resp,
        expected_ok_json("{\"error\":\"division by zero\",\"result\":null}")
    );
}

#[test]
fn division_of_zero_by_zero_is_still_the_error() {
    // the decision does not depend on the left operand
    let resp = post_calc(b"{\"op\":\"/\",\"lhs\":0,\"rhs\":0}");
    assert_eq!(
        resp,
        expected_ok_json("{\"error\":\"division by zero\",\"result\":null}")
    );
}

#[test]
fn division_by_negative_zero_is_the_error() {
    let resp = post_calc(b"{\"op\":\"/\",\"lhs\":1,\"rhs\":-0.0}");
    assert_eq!(
        resp,
        expected_ok_json("{\"error\":\"division by zero\",\"result\":null}")
    );
}

#[test]
fn division_by_a_value_that_underflows_to_zero_is_the_error() {
    // 1e-400 reads as exactly 0.0 in double precision
    let resp = post_calc(b"{\"op\":\"/\",\"lhs\":1,\"rhs\":1e-400}");
    assert_eq!(
        resp,
        expected_ok_json("{\"error\":\"division by zero\",\"result\":null}")
    );
}

#[test]
fn other_operators_compute_in_double_precision() {
    assert_eq!(
        post_calc(b"{\"op\":\"-\",\"lhs\":2.5,\"rhs\":3}"),
        expected_ok_json("{\"error\":null,\"result\":-0.5}")
    );
    assert_eq!(
        post_calc(b"{\"op\":\"*\",\"lhs\":4,\"rhs\":2.5}"),
        expected_ok_json("{\"error\":null,\"result\":10.0}")
    );
    assert_eq!(
        post_calc(b"{\"op\":\"/\",\"lhs\":1,\"rhs\":4}"),
        expected_ok_json("{\"error\":null,\"result\":0.25}")
    );
}

#[test]
fn an_overflowing_product_renders_as_null() {
    // the result is infinite; a non-finite double renders as null
    let resp = post_calc(b"{\"op\":\"*\",\"lhs\":1e308,\"rhs\":1e308}");
    assert_eq!(resp, expected_ok_json("{\"error\":null,\"result\":null}"));
}

#[test]
fn malformed_json_yields_an_invalid_json_error_reply() {
    let resp = post_calc(b"not json");
    let text = String::from_utf8(resp).unwrap();
    let body_at = text.find("\r\n\r\n").unwrap() + 4;
    let body = &text[body_at..];
    assert!(body.starts_with("{\"error\":\"invalid JSON"));
    assert!(body.ends_with("\",\"result\":null}"));
    assert_eq!(
        post_calc(b"not json"),
        expected_ok_json("{\"error\":\"invalid JSON: expected an object\",\"result\":null}")
    );
}

#[test]
fn truncated_object_yields_an_invalid_json_error_reply() {
    let resp = post_calc(b"{");
    let text = String::from_utf8(resp).unwrap();
    assert!(text.contains("invalid JSON"));
    assert!(text.ends_with("\",\"result\":null}"));
}

#[test]
fn fields_parse_in_any_order_with_whitespace() {
    let rc = parse_calc(b" { \"rhs\" : 3 , \"op\" : \"+\" , \"lhs\" : 2 } ").unwrap();
    assert_eq!(rc.op, Operation::Add);
    assert_eq!(rc.lhs, b"2");
    assert_eq!(rc.rhs, b"3");
}

#[test]
fn number_lexemes_cover_the_json_grammar() {
    let rc = parse_calc(b"{\"op\":\"*\",\"lhs\":-12.5e-3,\"rhs\":0.25E+2}").unwrap();
    assert_eq!(rc.lhs, b"-12.5e-3");
    assert_eq!(rc.rhs, b"0.25E+2");
}

#[test]
fn grammar_violations_are_rejected() {
    assert_eq!(parse_calc(b""), Err(CalcParseError::ExpectedObject));
    assert_eq!(parse_calc(b"[1,2]"), Err(CalcParseError::ExpectedObject));
    assert_eq!(parse_calc(b"{}"), Err(CalcParseError::MissingField));
    assert_eq!(
        parse_calc(b"{\"op\":\"+\",\"lhs\":2}"),
        Err(CalcParseError::MissingField)
    );
    assert_eq!(
        parse_calc(b"{\"op\":\"+\",\"lhs\":2,\"rhs\":3,\"lhs\":4}"),
        Err(CalcParseError::DuplicateField)
    );
    assert_eq!(
        parse_calc(b"{\"op\":\"%\",\"lhs\":2,\"rhs\":3}"),
        Err(CalcParseError::UnknownOperator)
    );
    assert_eq!(
        parse_calc(b"{\"op\":\"+\",\"lhs\":2,\"rhs\":3,\"extra\":1}"),
        Err(CalcParseError::UnknownField)
    );
    assert_eq!(
        parse_calc(b"{\"op\":\"+\",\"lhs\":02,\"rhs\":3}"),
        Err(CalcParseError::ExpectedSeparator)
    );
    assert_eq!(
        parse_calc(b"{\"op\":\"+\",\"lhs\":2.,\"rhs\":3}"),
        Err(CalcParseError::ExpectedValue)
    );
    assert_eq!(
        parse_calc(b"{\"op\":\"+\",\"lhs\":2,\"rhs\":3} x"),
        Err(CalcParseError::TrailingData)
    );
    assert_eq!(
        parse_calc(b"{\"op\":\"+\",\"lhs\":2,\"rhs\":3"),
        Err(CalcParseError::ExpectedSeparator)
    );
    assert_eq!(
        parse_calc(b"{\"op\" \"+\",\"lhs\":2,\"rhs\":3}"),
        Err(CalcParseError::ExpectedColon)
    );
    assert_eq!(
        parse_calc(b"{\"op\":+,\"lhs\":2,\"rhs\":3}"),
        Err(CalcParseError::ExpectedValue)
    );
    assert_eq!(parse_calc(b"{3:4}"), Err(CalcParseError::ExpectedKey));
}

#[test]
fn every_failure_reply_is_exactly_framed() {
    let resp = calc_failure_response(CalcFailure::InvalidJson(CalcParseError::MissingField));
    assert_eq!(
        resp,
        expected_ok_json("{\"error\":\"invalid JSON: missing field\",\"result\":null}")
    );
    let resp = calc_result_response(b"2.5");
    assert_eq!(resp, expected_ok_json("{\"error\":null,\"result\":2.5}"));
}
