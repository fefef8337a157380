//! Routing: from a framed request to what the connection must do next.
//!
//! The router owns every protocol decision. The two numeric steps it cannot
//! take itself — reading a number lexeme as an IEEE-754 double, and carrying
//! out the arithmetic — are handed back to the caller through
//! [`Action::Calculate`]; the caller returns through
//! [`calc_result_response`] or [`calc_failure_response`], both of which pin
//! the reply bytes exactly.
use vstd::prelude::*;

use crate::bytes::bytes_eq;
use crate::calc::parse_calc;
use crate::calc::spec_parse_calc;
use crate::calc::RawCalc;
use crate::lit::lit_path_calc;
use crate::lit::lit_path_root;
use crate::lit::vec_path_calc;
use crate::lit::vec_path_root;
use crate::method::method_of;
use crate::method::parse_method;
use crate::method::HTTPMethod;
use crate::reqline::method_token;
use crate::reqline::parse_request_line;
use crate::reqline::path_of;
use crate::reqline::request_line;
use crate::response::build_failure_body;
use crate::response::build_not_found;
use crate::response::build_ok_json;
use crate::response::build_success_body;
use crate::response::failure_body;
use crate::response::failure_msg;
use crate::response::not_found_response;
use crate::response::ok_json_response;
use crate::response::success_body;
use crate::response::CalcFailure;

verus! {

/// What the connection must do with a framed request.
pub enum Action {
    /// Write these response bytes and await the next request.
    Respond(Vec<u8>),
    /// `GET /`: load the page resource and respond with `build_ok_html`
    /// around its bytes; a resource that cannot be loaded is a transport
    /// error scoped to this one exchange.
    ServePage,
    /// `POST /calc` with a well-formed calculation: read the operand lexemes
    /// as doubles, carry the arithmetic out, and respond through
    /// `calc_result_response` or `calc_failure_response`.
    Calculate(RawCalc),
    /// The request line names no supported verb: close the connection
    /// without writing a byte.
    CloseUnsupported,
}

/// Routes a framed request.
///
/// `GET` anywhere but `/` and `POST` anywhere but `/calc` are answered with
/// the fixed `404` response: empty body, `Content-Length: 0`. A `POST /calc`
/// body that fails to parse is answered `200 OK` with an `invalid JSON`
/// error reply; the failure never outranks the transport.
pub fn route(head: &[u8], body: &[u8]) -> (r: Action)
    ensures
        ({
            let line = request_line(head@);
            match method_of(method_token(line)) {
                None => r is CloseUnsupported,
                Some(HTTPMethod::GET) => if path_of(line) == lit_path_root() {
                    r is ServePage
                } else {
                    r matches Action::Respond(v) && v@ == not_found_response()
                },
                Some(HTTPMethod::POST) => if path_of(line) == lit_path_calc() {
                    match spec_parse_calc(body@) {
                        Ok(t) => r matches Action::Calculate(rc) && rc.op == t.0 && rc.lhs@
                            == t.1 && rc.rhs@ == t.2,
                        Err(k) => r matches Action::Respond(v) && v@ == ok_json_response(
                            failure_body(failure_msg(CalcFailure::InvalidJson(k))),
                        ),
                    }
                } else {
                    r matches Action::Respond(v) && v@ == not_found_response()
                },
            }
        }),
{
    let (mtok, path) = parse_request_line(head);
    match parse_method(mtok.as_slice()) {
        Err(_) => Action::CloseUnsupported,
        Ok(HTTPMethod::GET) => {
            if bytes_eq(path.as_slice(), vec_path_root().as_slice()) {
                Action::ServePage
            } else {
                Action::Respond(build_not_found())
            }
        },
        Ok(HTTPMethod::POST) => {
            if bytes_eq(path.as_slice(), vec_path_calc().as_slice()) {
                match parse_calc(body) {
                    Ok(rc) => Action::Calculate(rc),
                    Err(k) => {
                        let b = build_failure_body(CalcFailure::InvalidJson(k));
                        Action::Respond(build_ok_json(b.as_slice()))
                    },
                }
            } else {
                Action::Respond(build_not_found())
            }
        },
    }
}

/// The `200 OK` reply of a calculation that produced a result: a null error
/// field and the rendered result number.
pub fn calc_result_response(num: &[u8]) -> (v: Vec<u8>)
    ensures
        v@ == ok_json_response(success_body(num@)),
{
    let b = build_success_body(num);
    build_ok_json(b.as_slice())
}

/// The `200 OK` reply of a calculation that failed: the failure's message in
/// the error field and a null result.
pub fn calc_failure_response(f: CalcFailure) -> (v: Vec<u8>)
    ensures
        v@ == ok_json_response(failure_body(failure_msg(f))),
{
    let b = build_failure_body(f);
    build_ok_json(b.as_slice())
}

} // verus!
