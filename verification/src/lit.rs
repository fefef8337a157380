//! Byte constants of the wire protocol and of the JSON envelope, each with
//! the spec sequence it denotes.
use vstd::prelude::*;

verus! {

/// The bytes of `"\r\n\r\n"`.
pub open spec fn lit_crlfcrlf() -> Seq<u8> {
    seq![13u8, 10, 13, 10]
}

/// Appends the bytes of `"\r\n\r\n"`.
pub fn push_crlfcrlf(v: &mut Vec<u8>)
    ensures
        final(v)@ == old(v)@ + lit_crlfcrlf(),
{
    v.push(13);
    v.push(10);
    v.push(13);
    v.push(10);
    assert(v@ =~= old(v)@ + lit_crlfcrlf());
}

/// The bytes of `"HTTP/1.1 404 Not Found\r\nContent-Length: 0\r\n\r\n"`.
pub open spec fn lit_resp_404() -> Seq<u8> {
    seq![72u8, 84, 84, 80, 47, 49, 46, 49, 32, 52, 48, 52, 32, 78, 111, 116, 32, 70, 111, 117, 110, 100, 13, 10, 67, 111, 110, 116, 101, 110, 116, 45, 76, 101, 110, 103, 116, 104, 58, 32, 48, 13, 10, 13, 10]
}

/// Appends the bytes of `"HTTP/1.1 404 Not Found\r\nContent-Length: 0\r\n\r\n"`.
#[verifier::rlimit(60)]
pub fn push_resp_404(v: &mut Vec<u8>)
    ensures
        final(v)@ == old(v)@ + lit_resp_404(),
{
    v.push(72);
    v.push(84);
    v.push(84);
    v.push(80);
    v.push(47);
    v.push(49);
    v.push(46);
    v.push(49);
    v.push(32);
    v.push(52);
    v.push(48);
    v.push(52);
    v.push(32);
    v.push(78);
    v.push(111);
    v.push(116);
    v.push(32);
    v.push(70);
    v.push(111);
    v.push(117);
    v.push(110);
    v.push(100);
    v.push(13);
    v.push(10);
    v.push(67);
    v.push(111);
    v.push(110);
    v.push(116);
    v.push(101);
    v.push(110);
    v.push(116);
    v.push(45);
    v.push(76);
    v.push(101);
    v.push(110);
    v.push(103);
    v.push(116);
    v.push(104);
    v.push(58);
    v.push(32);
    v.push(48);
    v.push(13);
    v.push(10);
    v.push(13);
    v.push(10);
    assert(v@ =~= old(v)@ + lit_resp_404());
}

/// The bytes of `"HTTP/1.1 200 OK\r\nContent-Type: text/html; charset=UTF-8\r\nContent-Length: "`.
pub open spec fn lit_ok_html_pre() -> Seq<u8> {
    seq![72u8, 84, 84, 80, 47, 49, 46, 49, 32, 50, 48, 48, 32, 79, 75, 13, 10, 67, 111, 110, 116, 101, 110, 116, 45, 84, 121, 112, 101, 58, 32, 116, 101, 120, 116, 47, 104, 116, 109, 108, 59, 32, 99, 104, 97, 114, 115, 101, 116, 61, 85, 84, 70, 45, 56, 13, 10, 67, 111, 110, 116, 101, 110, 116, 45, 76, 101, 110, 103, 116, 104, 58, 32]
}

/// Appends the bytes of `"HTTP/1.1 200 OK\r\nContent-Type: text/html; charset=UTF-8\r\nContent-Length: "`.
#[verifier::rlimit(60)]
pub fn push_ok_html_pre(v: &mut Vec<u8>)
    ensures
        final(v)@ == old(v)@ + lit_ok_html_pre(),
{
    v.push(72);
    v.push(84);
    v.push(84);
    v.push(80);
    v.push(47);
    v.push(49);
    v.push(46);
    v.push(49);
    v.push(32);
    v.push(50);
    v.push(48);
    v.push(48);
    v.push(32);
    v.push(79);
    v.push(75);
    v.push(13);
    v.push(10);
    v.push(67);
    v.push(111);
    v.push(110);
    v.push(116);
    v.push(101);
    v.push(110);
    v.push(116);
    v.push(45);
    v.push(84);
    v.push(121);
    v.push(112);
    v.push(101);
    v.push(58);
    v.push(32);
    v.push(116);
    v.push(101);
    v.push(120);
    v.push(116);
    v.push(47);
    v.push(104);
    v.push(116);
    v.push(109);
    v.push(108);
    v.push(59);
    v.push(32);
    v.push(99);
    v.push(104);
    v.push(97);
    v.push(114);
    v.push(115);
    v.push(101);
    v.push(116);
    v.push(61);
    v.push(85);
    v.push(84);
    v.push(70);
    v.push(45);
    v.push(56);
    v.push(13);
    v.push(10);
    v.push(67);
    v.push(111);
    v.push(110);
    v.push(116);
    v.push(101);
    v.push(110);
    v.push(116);
    v.push(45);
    v.push(76);
    v.push(101);
    v.push(110);
    v.push(103);
    v.push(116);
    v.push(104);
    v.push(58);
    v.push(32);
    assert(v@ =~= old(v)@ + lit_ok_html_pre());
}

/// The bytes of `"HTTP/1.1 200 OK\r\nContent-Type: application/json; charset=UTF-8\r\nContent-Length: "`.
pub open spec fn lit_ok_json_pre() -> Seq<u8> {
    seq![72u8, 84, 84, 80, 47, 49, 46, 49, 32, 50, 48, 48, 32, 79, 75, 13, 10, 67, 111, 110, 116, 101, 110, 116, 45, 84, 121, 112, 101, 58, 32, 97, 112, 112, 108, 105, 99, 97, 116, 105, 111, 110, 47, 106, 115, 111, 110, 59, 32, 99, 104, 97, 114, 115, 101, 116, 61, 85, 84, 70, 45, 56, 13, 10, 67, 111, 110, 116, 101, 110, 116, 45, 76, 101, 110, 103, 116, 104, 58, 32]
}

/// Appends the bytes of `"HTTP/1.1 200 OK\r\nContent-Type: application/json; charset=UTF-8\r\nContent-Length: "`.
#[verifier::rlimit(100)]
pub fn push_ok_json_pre(v: &mut Vec<u8>)
    ensures
        final(v)@ == old(v)@ + lit_ok_json_pre(),
{
    v.push(72);
    v.push(84);
    v.push(84);
    v.push(80);
    v.push(47);
    v.push(49);
    v.push(46);
    v.push(49);
    v.push(32);
    v.push(50);
    v.push(48);
    v.push(48);
    v.push(32);
    v.push(79);
    v.push(75);
    v.push(13);
    v.push(10);
    v.push(67);
    v.push(111);
    v.push(110);
    v.push(116);
    v.push(101);
    v.push(110);
    v.push(116);
    v.push(45);
    assert(v@ =~= old(v)@ + lit_ok_json_pre().take(25));
    v.push(84);
    v.push(121);
    v.push(112);
    v.push(101);
    v.push(58);
    v.push(32);
    v.push(97);
    v.push(112);
    v.push(112);
    v.push(108);
    v.push(105);
    v.push(99);
    v.push(97);
    v.push(116);
    v.push(105);
    v.push(111);
    v.push(110);
    v.push(47);
    v.push(106);
    v.push(115);
    v.push(111);
    v.push(110);
    v.push(59);
    v.push(32);
    v.push(99);
    assert(v@ =~= old(v)@ + lit_ok_json_pre().take(50));
    v.push(104);
    v.push(97);
    v.push(114);
    v.push(115);
    v.push(101);
    v.push(116);
    v.push(61);
    v.push(85);
    v.push(84);
    v.push(70);
    v.push(45);
    v.push(56);
    v.push(13);
    v.push(10);
    v.push(67);
    v.push(111);
    v.push(110);
    v.push(116);
    v.push(101);
    v.push(110);
    v.push(116);
    v.push(45);
    v.push(76);
    v.push(101);
    v.push(110);
    assert(v@ =~= old(v)@ + lit_ok_json_pre().take(75));
    v.push(103);
    v.push(116);
    v.push(104);
    v.push(58);
    v.push(32);
    assert(v@ =~= old(v)@ + lit_ok_json_pre());
}

/// The bytes of `"{\"error\":null,\"result\":"`.
pub open spec fn lit_result_pre() -> Seq<u8> {
    seq![123u8, 34, 101, 114, 114, 111, 114, 34, 58, 110, 117, 108, 108, 44, 34, 114, 101, 115, 117, 108, 116, 34, 58]
}

/// Appends the bytes of `"{\"error\":null,\"result\":"`.
pub fn push_result_pre(v: &mut Vec<u8>)
    ensures
        final(v)@ == old(v)@ + lit_result_pre(),
{
    v.push(123);
    v.push(34);
    v.push(101);
    v.push(114);
    v.push(114);
    v.push(111);
    v.push(114);
    v.push(34);
    v.push(58);
    v.push(110);
    v.push(117);
    v.push(108);
    v.push(108);
    v.push(44);
    v.push(34);
    v.push(114);
    v.push(101);
    v.push(115);
    v.push(117);
    v.push(108);
    v.push(116);
    v.push(34);
    v.push(58);
    assert(v@ =~= old(v)@ + lit_result_pre());
}

/// The bytes of `"}"`.
pub open spec fn lit_close_brace() -> Seq<u8> {
    seq![125u8]
}

/// Appends the bytes of `"}"`.
pub fn push_close_brace(v: &mut Vec<u8>)
    ensures
        final(v)@ == old(v)@ + lit_close_brace(),
{
    v.push(125);
    assert(v@ =~= old(v)@ + lit_close_brace());
}

/// The bytes of `"{\"error\":\""`.
pub open spec fn lit_error_pre() -> Seq<u8> {
    seq![123u8, 34, 101, 114, 114, 111, 114, 34, 58, 34]
}

/// Appends the bytes of `"{\"error\":\""`.
pub fn push_error_pre(v: &mut Vec<u8>)
    ensures
        final(v)@ == old(v)@ + lit_error_pre(),
{
    v.push(123);
    v.push(34);
    v.push(101);
    v.push(114);
    v.push(114);
    v.push(111);
    v.push(114);
    v.push(34);
    v.push(58);
    v.push(34);
    assert(v@ =~= old(v)@ + lit_error_pre());
}

/// The bytes of `"\",\"result\":null}"`.
pub open spec fn lit_error_suf() -> Seq<u8> {
    seq![34u8, 44, 34, 114, 101, 115, 117, 108, 116, 34, 58, 110, 117, 108, 108, 125]
}

/// Appends the bytes of `"\",\"result\":null}"`.
pub fn push_error_suf(v: &mut Vec<u8>)
    ensures
        final(v)@ == old(v)@ + lit_error_suf(),
{
    v.push(34);
    v.push(44);
    v.push(34);
    v.push(114);
    v.push(101);
    v.push(115);
    v.push(117);
    v.push(108);
    v.push(116);
    v.push(34);
    v.push(58);
    v.push(110);
    v.push(117);
    v.push(108);
    v.push(108);
    v.push(125);
    assert(v@ =~= old(v)@ + lit_error_suf());
}

/// The bytes of `"division by zero"`.
pub open spec fn lit_msg_div_zero() -> Seq<u8> {
    seq![100u8, 105, 118, 105, 115, 105, 111, 110, 32, 98, 121, 32, 122, 101, 114, 111]
}

/// Appends the bytes of `"division by zero"`.
pub fn push_msg_div_zero(v: &mut Vec<u8>)
    ensures
        final(v)@ == old(v)@ + lit_msg_div_zero(),
{
    v.push(100);
    v.push(105);
    v.push(118);
    v.push(105);
    v.push(115);
    v.push(105);
    v.push(111);
    v.push(110);
    v.push(32);
    v.push(98);
    v.push(121);
    v.push(32);
    v.push(122);
    v.push(101);
    v.push(114);
    v.push(111);
    assert(v@ =~= old(v)@ + lit_msg_div_zero());
}

/// The bytes of `"invalid JSON: expected an object"`.
pub open spec fn lit_msg_expected_object() -> Seq<u8> {
    seq![105u8, 110, 118, 97, 108, 105, 100, 32, 74, 83, 79, 78, 58, 32, 101, 120, 112, 101, 99, 116, 101, 100, 32, 97, 110, 32, 111, 98, 106, 101, 99, 116]
}

/// Appends the bytes of `"invalid JSON: expected an object"`.
pub fn push_msg_expected_object(v: &mut Vec<u8>)
    ensures
        final(v)@ == old(v)@ + lit_msg_expected_object(),
{
    v.push(105);
    v.push(110);
    v.push(118);
    v.push(97);
    v.push(108);
    v.push(105);
    v.push(100);
    v.push(32);
    v.push(74);
    v.push(83);
    v.push(79);
    v.push(78);
    v.push(58);
    v.push(32);
    v.push(101);
    v.push(120);
    v.push(112);
    v.push(101);
    v.push(99);
    v.push(116);
    v.push(101);
    v.push(100);
    v.push(32);
    v.push(97);
    v.push(110);
    v.push(32);
    v.push(111);
    v.push(98);
    v.push(106);
    v.push(101);
    v.push(99);
    v.push(116);
    assert(v@ =~= old(v)@ + lit_msg_expected_object());
}

/// The bytes of `"invalid JSON: expected a field name"`.
pub open spec fn lit_msg_expected_key() -> Seq<u8> {
    seq![105u8, 110, 118, 97, 108, 105, 100, 32, 74, 83, 79, 78, 58, 32, 101, 120, 112, 101, 99, 116, 101, 100, 32, 97, 32, 102, 105, 101, 108, 100, 32, 110, 97, 109, 101]
}

/// Appends the bytes of `"invalid JSON: expected a field name"`.
pub fn push_msg_expected_key(v: &mut Vec<u8>)
    ensures
        final(v)@ == old(v)@ + lit_msg_expected_key(),
{
    v.push(105);
    v.push(110);
    v.push(118);
    v.push(97);
    v.push(108);
    v.push(105);
    v.push(100);
    v.push(32);
    v.push(74);
    v.push(83);
    v.push(79);
    v.push(78);
    v.push(58);
    v.push(32);
    v.push(101);
    v.push(120);
    v.push(112);
    v.push(101);
    v.push(99);
    v.push(116);
    v.push(101);
    v.push(100);
    v.push(32);
    v.push(97);
    v.push(32);
    v.push(102);
    v.push(105);
    v.push(101);
    v.push(108);
    v.push(100);
    v.push(32);
    v.push(110);
    v.push(97);
    v.push(109);
    v.push(101);
    assert(v@ =~= old(v)@ + lit_msg_expected_key());
}

/// The bytes of `"invalid JSON: expected a colon"`.
pub open spec fn lit_msg_expected_colon() -> Seq<u8> {
    seq![105u8, 110, 118, 97, 108, 105, 100, 32, 74, 83, 79, 78, 58, 32, 101, 120, 112, 101, 99, 116, 101, 100, 32, 97, 32, 99, 111, 108, 111, 110]
}

/// Appends the bytes of `"invalid JSON: expected a colon"`.
pub fn push_msg_expected_colon(v: &mut Vec<u8>)
    ensures
        final(v)@ == old(v)@ + lit_msg_expected_colon(),
{
    v.push(105);
    v.push(110);
    v.push(118);
    v.push(97);
    v.push(108);
    v.push(105);
    v.push(100);
    v.push(32);
    v.push(74);
    v.push(83);
    v.push(79);
    v.push(78);
    v.push(58);
    v.push(32);
    v.push(101);
    v.push(120);
    v.push(112);
    v.push(101);
    v.push(99);
    v.push(116);
    v.push(101);
    v.push(100);
    v.push(32);
    v.push(97);
    v.push(32);
    v.push(99);
    v.push(111);
    v.push(108);
    v.push(111);
    v.push(110);
    assert(v@ =~= old(v)@ + lit_msg_expected_colon());
}

/// The bytes of `"invalid JSON: expected a value"`.
pub open spec fn lit_msg_expected_value() -> Seq<u8> {
    seq![105u8, 110, 118, 97, 108, 105, 100, 32, 74, 83, 79, 78, 58, 32, 101, 120, 112, 101, 99, 116, 101, 100, 32, 97, 32, 118, 97, 108, 117, 101]
}

/// Appends the bytes of `"invalid JSON: expected a value"`.
pub fn push_msg_expected_value(v: &mut Vec<u8>)
    ensures
        final(v)@ == old(v)@ + lit_msg_expected_value(),
{
    v.push(105);
    v.push(110);
    v.push(118);
    v.push(97);
    v.push(108);
    v.push(105);
    v.push(100);
    v.push(32);
    v.push(74);
    v.push(83);
    v.push(79);
    v.push(78);
    v.push(58);
    v.push(32);
    v.push(101);
    v.push(120);
    v.push(112);
    v.push(101);
    v.push(99);
    v.push(116);
    v.push(101);
    v.push(100);
    v.push(32);
    v.push(97);
    v.push(32);
    v.push(118);
    v.push(97);
    v.push(108);
    v.push(117);
    v.push(101);
    assert(v@ =~= old(v)@ + lit_msg_expected_value());
}

/// The bytes of `"invalid JSON: unknown field"`.
pub open spec fn lit_msg_unknown_field() -> Seq<u8> {
    seq![105u8, 110, 118, 97, 108, 105, 100, 32, 74, 83, 79, 78, 58, 32, 117, 110, 107, 110, 111, 119, 110, 32, 102, 105, 101, 108, 100]
}

/// Appends the bytes of `"invalid JSON: unknown field"`.
pub fn push_msg_unknown_field(v: &mut Vec<u8>)
    ensures
        final(v)@ == old(v)@ + lit_msg_unknown_field(),
{
    v.push(105);
    v.push(110);
    v.push(118);
    v.push(97);
    v.push(108);
    v.push(105);
    v.push(100);
    v.push(32);
    v.push(74);
    v.push(83);
    v.push(79);
    v.push(78);
    v.push(58);
    v.push(32);
    v.push(117);
    v.push(110);
    v.push(107);
    v.push(110);
    v.push(111);
    v.push(119);
    v.push(110);
    v.push(32);
    v.push(102);
    v.push(105);
    v.push(101);
    v.push(108);
    v.push(100);
    assert(v@ =~= old(v)@ + lit_msg_unknown_field());
}

/// The bytes of `"invalid JSON: duplicate field"`.
pub open spec fn lit_msg_duplicate_field() -> Seq<u8> {
    seq![105u8, 110, 118, 97, 108, 105, 100, 32, 74, 83, 79, 78, 58, 32, 100, 117, 112, 108, 105, 99, 97, 116, 101, 32, 102, 105, 101, 108, 100]
}

/// Appends the bytes of `"invalid JSON: duplicate field"`.
pub fn push_msg_duplicate_field(v: &mut Vec<u8>)
    ensures
        final(v)@ == old(v)@ + lit_msg_duplicate_field(),
{
    v.push(105);
    v.push(110);
    v.push(118);
    v.push(97);
    v.push(108);
    v.push(105);
    v.push(100);
    v.push(32);
    v.push(74);
    v.push(83);
    v.push(79);
    v.push(78);
    v.push(58);
    v.push(32);
    v.push(100);
    v.push(117);
    v.push(112);
    v.push(108);
    v.push(105);
    v.push(99);
    v.push(97);
    v.push(116);
    v.push(101);
    v.push(32);
    v.push(102);
    v.push(105);
    v.push(101);
    v.push(108);
    v.push(100);
    assert(v@ =~= old(v)@ + lit_msg_duplicate_field());
}

/// The bytes of `"invalid JSON: missing field"`.
pub open spec fn lit_msg_missing_field() -> Seq<u8> {
    seq![105u8, 110, 118, 97, 108, 105, 100, 32, 74, 83, 79, 78, 58, 32, 109, 105, 115, 115, 105, 110, 103, 32, 102, 105, 101, 108, 100]
}

/// Appends the bytes of `"invalid JSON: missing field"`.
pub fn push_msg_missing_field(v: &mut Vec<u8>)
    ensures
        final(v)@ == old(v)@ + lit_msg_missing_field(),
{
    v.push(105);
    v.push(110);
    v.push(118);
    v.push(97);
    v.push(108);
    v.push(105);
    v.push(100);
    v.push(32);
    v.push(74);
    v.push(83);
    v.push(79);
    v.push(78);
    v.push(58);
    v.push(32);
    v.push(109);
    v.push(105);
    v.push(115);
    v.push(115);
    v.push(105);
    v.push(110);
    v.push(103);
    v.push(32);
    v.push(102);
    v.push(105);
    v.push(101);
    v.push(108);
    v.push(100);
    assert(v@ =~= old(v)@ + lit_msg_missing_field());
}

/// The bytes of `"invalid JSON: unknown operator"`.
pub open spec fn lit_msg_unknown_operator() -> Seq<u8> {
    seq![105u8, 110, 118, 97, 108, 105, 100, 32, 74, 83, 79, 78, 58, 32, 117, 110, 107, 110, 111, 119, 110, 32, 111, 112, 101, 114, 97, 116, 111, 114]
}

/// Appends the bytes of `"invalid JSON: unknown operator"`.
pub fn push_msg_unknown_operator(v: &mut Vec<u8>)
    ensures
        final(v)@ == old(v)@ + lit_msg_unknown_operator(),
{
    v.push(105);
    v.push(110);
    v.push(118);
    v.push(97);
    v.push(108);
    v.push(105);
    v.push(100);
    v.push(32);
    v.push(74);
    v.push(83);
    v.push(79);
    v.push(78);
    v.push(58);
    v.push(32);
    v.push(117);
    v.push(110);
    v.push(107);
    v.push(110);
    v.push(111);
    v.push(119);
    v.push(110);
    v.push(32);
    v.push(111);
    v.push(112);
    v.push(101);
    v.push(114);
    v.push(97);
    v.push(116);
    v.push(111);
    v.push(114);
    assert(v@ =~= old(v)@ + lit_msg_unknown_operator());
}

/// The bytes of `"invalid JSON: expected a comma or a closing brace"`.
pub open spec fn lit_msg_expected_separator() -> Seq<u8> {
    seq![105u8, 110, 118, 97, 108, 105, 100, 32, 74, 83, 79, 78, 58, 32, 101, 120, 112, 101, 99, 116, 101, 100, 32, 97, 32, 99, 111, 109, 109, 97, 32, 111, 114, 32, 97, 32, 99, 108, 111, 115, 105, 110, 103, 32, 98, 114, 97, 99, 101]
}

/// Appends the bytes of `"invalid JSON: expected a comma or a closing brace"`.
#[verifier::rlimit(60)]
pub fn push_msg_expected_separator(v: &mut Vec<u8>)
    ensures
        final(v)@ == old(v)@ + lit_msg_expected_separator(),
{
    v.push(105);
    v.push(110);
    v.push(118);
    v.push(97);
    v.push(108);
    v.push(105);
    v.push(100);
    v.push(32);
    v.push(74);
    v.push(83);
    v.push(79);
    v.push(78);
    v.push(58);
    v.push(32);
    v.push(101);
    v.push(120);
    v.push(112);
    v.push(101);
    v.push(99);
    v.push(116);
    v.push(101);
    v.push(100);
    v.push(32);
    v.push(97);
    v.push(32);
    v.push(99);
    v.push(111);
    v.push(109);
    v.push(109);
    v.push(97);
    v.push(32);
    v.push(111);
    v.push(114);
    v.push(32);
    v.push(97);
    v.push(32);
    v.push(99);
    v.push(108);
    v.push(111);
    v.push(115);
    v.push(105);
    v.push(110);
    v.push(103);
    v.push(32);
    v.push(98);
    v.push(114);
    v.push(97);
    v.push(99);
    v.push(101);
    assert(v@ =~= old(v)@ + lit_msg_expected_separator());
}

/// The bytes of `"invalid JSON: trailing characters"`.
pub open spec fn lit_msg_trailing_data() -> Seq<u8> {
    seq![105u8, 110, 118, 97, 108, 105, 100, 32, 74, 83, 79, 78, 58, 32, 116, 114, 97, 105, 108, 105, 110, 103, 32, 99, 104, 97, 114, 97, 99, 116, 101, 114, 115]
}

/// Appends the bytes of `"invalid JSON: trailing characters"`.
pub fn push_msg_trailing_data(v: &mut Vec<u8>)
    ensures
        final(v)@ == old(v)@ + lit_msg_trailing_data(),
{
    v.push(105);
    v.push(110);
    v.push(118);
    v.push(97);
    v.push(108);
    v.push(105);
    v.push(100);
    v.push(32);
    v.push(74);
    v.push(83);
    v.push(79);
    v.push(78);
    v.push(58);
    v.push(32);
    v.push(116);
    v.push(114);
    v.push(97);
    v.push(105);
    v.push(108);
    v.push(105);
    v.push(110);
    v.push(103);
    v.push(32);
    v.push(99);
    v.push(104);
    v.push(97);
    v.push(114);
    v.push(97);
    v.push(99);
    v.push(116);
    v.push(101);
    v.push(114);
    v.push(115);
    assert(v@ =~= old(v)@ + lit_msg_trailing_data());
}

/// The bytes of `"invalid JSON: unrepresentable number"`.
pub open spec fn lit_msg_bad_number() -> Seq<u8> {
    seq![105u8, 110, 118, 97, 108, 105, 100, 32, 74, 83, 79, 78, 58, 32, 117, 110, 114, 101, 112, 114, 101, 115, 101, 110, 116, 97, 98, 108, 101, 32, 110, 117, 109, 98, 101, 114]
}

/// Appends the bytes of `"invalid JSON: unrepresentable number"`.
pub fn push_msg_bad_number(v: &mut Vec<u8>)
    ensures
        final(v)@ == old(v)@ + lit_msg_bad_number(),
{
    v.push(105);
    v.push(110);
    v.push(118);
    v.push(97);
    v.push(108);
    v.push(105);
    v.push(100);
    v.push(32);
    v.push(74);
    v.push(83);
    v.push(79);
    v.push(78);
    v.push(58);
    v.push(32);
    v.push(117);
    v.push(110);
    v.push(114);
    v.push(101);
    v.push(112);
    v.push(114);
    v.push(101);
    v.push(115);
    v.push(101);
    v.push(110);
    v.push(116);
    v.push(97);
    v.push(98);
    v.push(108);
    v.push(101);
    v.push(32);
    v.push(110);
    v.push(117);
    v.push(109);
    v.push(98);
    v.push(101);
    v.push(114);
    assert(v@ =~= old(v)@ + lit_msg_bad_number());
}

/// The bytes of `"content-length"`.
pub open spec fn lit_content_length_key() -> Seq<u8> {
    seq![99u8, 111, 110, 116, 101, 110, 116, 45, 108, 101, 110, 103, 116, 104]
}

/// The bytes of `"content-length"` as a fresh vector.
pub fn vec_content_length_key() -> (v: Vec<u8>)
    ensures
        v@ == lit_content_length_key(),
{
    let mut v: Vec<u8> = Vec::new();
    v.push(99);
    v.push(111);
    v.push(110);
    v.push(116);
    v.push(101);
    v.push(110);
    v.push(116);
    v.push(45);
    v.push(108);
    v.push(101);
    v.push(110);
    v.push(103);
    v.push(116);
    v.push(104);
    assert(v@ =~= lit_content_length_key());
    v
}

/// The bytes of `"/"`.
pub open spec fn lit_path_root() -> Seq<u8> {
    seq![47u8]
}

/// The bytes of `"/"` as a fresh vector.
pub fn vec_path_root() -> (v: Vec<u8>)
    ensures
        v@ == lit_path_root(),
{
    let mut v: Vec<u8> = Vec::new();
    v.push(47);
    assert(v@ =~= lit_path_root());
    v
}

/// The bytes of `"/calc"`.
pub open spec fn lit_path_calc() -> Seq<u8> {
    seq![47u8, 99, 97, 108, 99]
}

/// The bytes of `"/calc"` as a fresh vector.
pub fn vec_path_calc() -> (v: Vec<u8>)
    ensures
        v@ == lit_path_calc(),
{
    let mut v: Vec<u8> = Vec::new();
    v.push(47);
    v.push(99);
    v.push(97);
    v.push(108);
    v.push(99);
    assert(v@ =~= lit_path_calc());
    v
}

/// The bytes of `"op"`.
pub open spec fn lit_key_op() -> Seq<u8> {
    seq![111u8, 112]
}

/// The bytes of `"op"` as a fresh vector.
pub fn vec_key_op() -> (v: Vec<u8>)
    ensures
        v@ == lit_key_op(),
{
    let mut v: Vec<u8> = Vec::new();
    v.push(111);
    v.push(112);
    assert(v@ =~= lit_key_op());
    v
}

/// The bytes of `"lhs"`.
pub open spec fn lit_key_lhs() -> Seq<u8> {
    seq![108u8, 104, 115]
}

/// The bytes of `"lhs"` as a fresh vector.
pub fn vec_key_lhs() -> (v: Vec<u8>)
    ensures
        v@ == lit_key_lhs(),
{
    let mut v: Vec<u8> = Vec::new();
    v.push(108);
    v.push(104);
    v.push(115);
    assert(v@ =~= lit_key_lhs());
    v
}

/// The bytes of `"rhs"`.
pub open spec fn lit_key_rhs() -> Seq<u8> {
    seq![114u8, 104, 115]
}

/// The bytes of `"rhs"` as a fresh vector.
pub fn vec_key_rhs() -> (v: Vec<u8>)
    ensures
        v@ == lit_key_rhs(),
{
    let mut v: Vec<u8> = Vec::new();
    v.push(114);
    v.push(104);
    v.push(115);
    assert(v@ =~= lit_key_rhs());
    v
}

/// The bytes of `"get"`.
pub open spec fn lit_word_get() -> Seq<u8> {
    seq![103u8, 101, 116]
}

/// The bytes of `"get"` as a fresh vector.
pub fn vec_word_get() -> (v: Vec<u8>)
    ensures
        v@ == lit_word_get(),
{
    let mut v: Vec<u8> = Vec::new();
    v.push(103);
    v.push(101);
    v.push(116);
    assert(v@ =~= lit_word_get());
    v
}

/// The bytes of `"post"`.
pub open spec fn lit_word_post() -> Seq<u8> {
    seq![112u8, 111, 115, 116]
}

/// The bytes of `"post"` as a fresh vector.
pub fn vec_word_post() -> (v: Vec<u8>)
    ensures
        v@ == lit_word_post(),
{
    let mut v: Vec<u8> = Vec::new();
    v.push(112);
    v.push(111);
    v.push(115);
    v.push(116);
    assert(v@ =~= lit_word_post());
    v
}

} // verus!
