//! The calculator payload: the JSON grammar of `{"op":..,"lhs":..,"rhs":..}`,
//! parsed off raw body bytes, and the calculation it denotes.
//!
//! The grammar accepted here is the JSON object with exactly the three fields
//! of the schema, in any order: `op` a plain string naming one of the four
//! operators, `lhs` and `rhs` JSON numbers. Number lexemes are handed back
//! uninterpreted; turning one into an IEEE-754 double is numeric work that
//! the embedding program performs. Operands travel as the 64 bit patterns of
//! their doubles, so the division-by-zero decision — the bit pattern of a
//! positive or negative zero — is stated and proved here on plain integers.
use vstd::prelude::*;

use crate::bytes::copy_range;
use crate::bytes::is_digit;
use crate::lit::lit_key_lhs;
use crate::lit::lit_key_op;
use crate::lit::lit_key_rhs;
use crate::lit::vec_key_lhs;
use crate::lit::vec_key_op;
use crate::lit::vec_key_rhs;
use crate::bytes::bytes_eq;

verus! {

/// The four operators of the calculator.
#[derive(Clone, Copy, Debug, PartialEq, Eq, Structural)]
pub enum Operation {
    Add,
    Sub,
    Mul,
    Div,
}

/// Why a body failed to parse as a calculation.
#[derive(Clone, Copy, Debug, PartialEq, Eq, Structural)]
pub enum CalcParseError {
    /// The body does not open a JSON object.
    ExpectedObject,
    /// A field name string was expected and not found.
    ExpectedKey,
    /// The colon after a field name was expected and not found.
    ExpectedColon,
    /// A field value of the schema's type was expected and not found.
    ExpectedValue,
    /// A field other than `op`, `lhs` and `rhs` appeared.
    UnknownField,
    /// One of the three fields appeared twice.
    DuplicateField,
    /// The object closed with a field of the schema still missing.
    MissingField,
    /// The `op` string names none of the four operators.
    UnknownOperator,
    /// A comma or closing brace was expected after a field value.
    ExpectedSeparator,
    /// Bytes other than whitespace follow the closed object.
    TrailingData,
    /// A number lexeme that no IEEE-754 double could be read from.
    UnrepresentableNumber,
}

/// A parsed calculation whose operands are still raw number lexemes.
#[derive(Debug, PartialEq, Eq)]
pub struct RawCalc {
    pub op: Operation,
    pub lhs: Vec<u8>,
    pub rhs: Vec<u8>,
}

/// A calculation whose operands are the bit patterns of IEEE-754 doubles.
#[derive(Clone, Copy, Debug, PartialEq, Eq, Structural)]
pub struct Calculation {
    pub op: Operation,
    pub lhs: u64,
    pub rhs: u64,
}

/// JSON whitespace: space, horizontal tab, line feed, carriage return.
pub open spec fn is_json_ws(b: u8) -> bool {
    b == 32 || b == 9 || b == 10 || b == 13
}

/// First index `j >= i` past any JSON whitespace.
pub open spec fn jws(s: Seq<u8>, i: int) -> int
    decreases s.len() - i,
{
    if i < 0 || i >= s.len() {
        s.len() as int
    } else if is_json_ws(s[i]) {
        jws(s, i + 1)
    } else {
        i
    }
}

/// The whitespace skip stays within bounds.
pub proof fn lemma_jws_bounds(s: Seq<u8>, i: int)
    requires
        0 <= i <= s.len(),
    ensures
        i <= jws(s, i) <= s.len(),
    decreases s.len() - i,
{
    if i < s.len() && is_json_ws(s[i]) {
        lemma_jws_bounds(s, i + 1);
    }
}

/// Skips JSON whitespace.
pub fn skip_jws(s: &[u8], from: usize) -> (r: usize)
    requires
        from <= s@.len(),
    ensures
        r == jws(s@, from as int),
        from <= r <= s@.len(),
{
    proof {
        lemma_jws_bounds(s@, from as int);
    }
    let mut i: usize = from;
    while i < s.len() && (s[i] == 32 || s[i] == 9 || s[i] == 10 || s[i] == 13)
        invariant
            from <= i <= s@.len(),
            jws(s@, from as int) == jws(s@, i as int),
        decreases s@.len() - i,
    {
        i += 1;
    }
    i
}

/// First index `j >= i` holding a non-digit; the length of `s` when there is
/// none.
pub open spec fn digits_end(s: Seq<u8>, i: int) -> int
    decreases s.len() - i,
{
    if i < 0 || i >= s.len() {
        s.len() as int
    } else if !is_digit(s[i]) {
        i
    } else {
        digits_end(s, i + 1)
    }
}

/// The digit scan stays within bounds and moves past a leading digit.
pub proof fn lemma_digits_end_bounds(s: Seq<u8>, i: int)
    requires
        0 <= i <= s.len(),
    ensures
        i <= digits_end(s, i) <= s.len(),
        i < s.len() && is_digit(s[i]) ==> digits_end(s, i) > i,
    decreases s.len() - i,
{
    if i < s.len() && is_digit(s[i]) {
        lemma_digits_end_bounds(s, i + 1);
    }
}

/// Scans past decimal digits.
pub fn find_digits_end(s: &[u8], from: usize) -> (r: usize)
    requires
        from <= s@.len(),
    ensures
        r == digits_end(s@, from as int),
        from <= r <= s@.len(),
{
    proof {
        lemma_digits_end_bounds(s@, from as int);
    }
    let mut i: usize = from;
    while i < s.len() && 48 <= s[i] && s[i] <= 57
        invariant
            from <= i <= s@.len(),
            digits_end(s@, from as int) == digits_end(s@, i as int),
        decreases s@.len() - i,
    {
        i += 1;
    }
    i
}

/// First index `j >= i` that ends plain string content: a quote, a backslash
/// or a control byte; the length of `s` when there is none.
pub open spec fn str_scan(s: Seq<u8>, i: int) -> int
    decreases s.len() - i,
{
    if i < 0 || i >= s.len() {
        s.len() as int
    } else if s[i] == 34 || s[i] == 92 || s[i] < 32 {
        i
    } else {
        str_scan(s, i + 1)
    }
}

/// The string scan stays within bounds.
pub proof fn lemma_str_scan_bounds(s: Seq<u8>, i: int)
    requires
        0 <= i <= s.len(),
    ensures
        i <= str_scan(s, i) <= s.len(),
    decreases s.len() - i,
{
    if i < s.len() && !(s[i] == 34 || s[i] == 92 || s[i] < 32) {
        lemma_str_scan_bounds(s, i + 1);
    }
}

/// Where a plain JSON string starting at `i` ends (one past its closing
/// quote), if `i` holds an opening quote and the content runs without
/// escapes or control bytes to a closing quote.
pub open spec fn string_end(s: Seq<u8>, i: int) -> Option<int> {
    if 0 <= i < s.len() && s[i] == 34 {
        let j = str_scan(s, i + 1);
        if j < s.len() && s[j] == 34 {
            Some(j + 1)
        } else {
            None
        }
    } else {
        None
    }
}

/// The content of the plain string starting at `i`.
pub open spec fn string_content(s: Seq<u8>, i: int) -> Seq<u8> {
    s.subrange(i + 1, str_scan(s, i + 1))
}

/// A well-formed string ends past where it starts and within `s`.
pub proof fn lemma_string_end_bounds(s: Seq<u8>, i: int)
    requires
        string_end(s, i) is Some,
    ensures
        i + 2 <= string_end(s, i).unwrap() <= s.len(),
{
    lemma_str_scan_bounds(s, i + 1);
}

/// Scans a plain JSON string starting at `i`; yields one past its closing
/// quote.
pub fn scan_string(s: &[u8], i: usize) -> (r: Option<usize>)
    requires
        i <= s@.len(),
    ensures
        match r {
            Some(e) => string_end(s@, i as int) == Some(e as int) && i + 2 <= e <= s@.len(),
            None => string_end(s@, i as int) is None,
        },
{
    if i >= s.len() || s[i] != 34 {
        return None;
    }
    proof {
        lemma_str_scan_bounds(s@, i + 1);
    }
    let mut j: usize = i + 1;
    while j < s.len() && !(s[j] == 34 || s[j] == 92 || s[j] < 32)
        invariant
            i + 1 <= j <= s@.len(),
            str_scan(s@, i + 1) == str_scan(s@, j as int),
        decreases s@.len() - j,
    {
        j += 1;
    }
    if j < s.len() && s[j] == 34 {
        Some(j + 1)
    } else {
        None
    }
}

/// Where the JSON number starting at `i` ends, if one does: an optional
/// minus, an integer part without leading zeros, an optional fraction, an
/// optional exponent.
pub open spec fn number_end(s: Seq<u8>, i: int) -> Option<int> {
    if i < 0 {
        None
    } else {
        let p = if i < s.len() && s[i] == 45 {
            i + 1
        } else {
            i
        };
        if p >= s.len() || !is_digit(s[p]) {
            None
        } else {
            let q = if s[p] == 48 {
                p + 1
            } else {
                digits_end(s, p)
            };
            let f = if q < s.len() && s[q] == 46 {
                if q + 1 < s.len() && is_digit(s[q + 1]) {
                    digits_end(s, q + 1)
                } else {
                    -1
                }
            } else {
                q
            };
            if f < 0 {
                None
            } else {
                let e = if f < s.len() && (s[f] == 101 || s[f] == 69) {
                    let u = if f + 1 < s.len() && (s[f + 1] == 43 || s[f + 1] == 45) {
                        f + 2
                    } else {
                        f + 1
                    };
                    if u < s.len() && is_digit(s[u]) {
                        digits_end(s, u)
                    } else {
                        -1
                    }
                } else {
                    f
                };
                if e < 0 {
                    None
                } else {
                    Some(e)
                }
            }
        }
    }
}

/// A well-formed number ends past where it starts and within `s`.
pub proof fn lemma_number_end_bounds(s: Seq<u8>, i: int)
    requires
        0 <= i <= s.len(),
        number_end(s, i) is Some,
    ensures
        i < number_end(s, i).unwrap() <= s.len(),
{
    let p = if i < s.len() && s[i] == 45 {
        i + 1
    } else {
        i
    };
    lemma_digits_end_bounds(s, p);
    let q = if s[p] == 48 {
        p + 1
    } else {
        digits_end(s, p)
    };
    if q < s.len() && s[q] == 46 {
        if q + 1 < s.len() && is_digit(s[q + 1]) {
            lemma_digits_end_bounds(s, q + 1);
        }
    }
    let f = if q < s.len() && s[q] == 46 {
        if q + 1 < s.len() && is_digit(s[q + 1]) {
            digits_end(s, q + 1)
        } else {
            -1
        }
    } else {
        q
    };
    if 0 <= f && f < s.len() && (s[f] == 101 || s[f] == 69) {
        let u = if f + 1 < s.len() && (s[f + 1] == 43 || s[f + 1] == 45) {
            f + 2
        } else {
            f + 1
        };
        if 0 <= u && u < s.len() && is_digit(s[u]) {
            lemma_digits_end_bounds(s, u);
        }
    }
}

/// Scans the JSON number starting at `i`; yields one past its last byte.
pub fn scan_number(s: &[u8], i: usize) -> (r: Option<usize>)
    requires
        i <= s@.len(),
    ensures
        match r {
            Some(e) => number_end(s@, i as int) == Some(e as int) && i < e <= s@.len(),
            None => number_end(s@, i as int) is None,
        },
{
    let p: usize = if i < s.len() && s[i] == 45 {
        i + 1
    } else {
        i
    };
    if p >= s.len() || s[p] < 48 || s[p] > 57 {
        return None;
    }
    let q: usize = if s[p] == 48 {
        p + 1
    } else {
        find_digits_end(s, p)
    };
    proof {
        lemma_digits_end_bounds(s@, p as int);
    }
    let f: usize = if q < s.len() && s[q] == 46 {
        if q + 1 < s.len() && 48 <= s[q + 1] && s[q + 1] <= 57 {
            find_digits_end(s, q + 1)
        } else {
            return None;
        }
    } else {
        q
    };
    let e: usize = if f < s.len() && (s[f] == 101 || s[f] == 69) {
        let u: usize = if f + 1 < s.len() && (s[f + 1] == 43 || s[f + 1] == 45) {
            f + 2
        } else {
            f + 1
        };
        if u < s.len() && 48 <= s[u] && s[u] <= 57 {
            find_digits_end(s, u)
        } else {
            return None;
        }
    } else {
        f
    };
    Some(e)
}

/// The operator a plain `op` string names.
pub open spec fn op_of(content: Seq<u8>) -> Option<Operation> {
    if content.len() == 1 && content[0] == 43 {
        Some(Operation::Add)
    } else if content.len() == 1 && content[0] == 45 {
        Some(Operation::Sub)
    } else if content.len() == 1 && content[0] == 42 {
        Some(Operation::Mul)
    } else if content.len() == 1 && content[0] == 47 {
        Some(Operation::Div)
    } else {
        None
    }
}

/// The fields collected so far while walking the object's members.
pub ghost struct SpecSlots {
    pub op: Option<Operation>,
    pub lhs: Option<Seq<u8>>,
    pub rhs: Option<Seq<u8>>,
}

/// Walks the members of the object from the start of a field name at `i`,
/// collecting each field once, and yields the collected fields and the index
/// one past the closing brace.
pub open spec fn members(s: Seq<u8>, i: int, sl: SpecSlots) -> Result<(SpecSlots, int), CalcParseError>
    decreases s.len() - i, 1int,
    via members_decreases
{
    if i < 0 || i >= s.len() || s[i] != 34 {
        Err(CalcParseError::ExpectedKey)
    } else {
        match string_end(s, i) {
            None => Err(CalcParseError::ExpectedKey),
            Some(after_key) => {
                let key = string_content(s, i);
                let ci = jws(s, after_key);
                if ci >= s.len() || s[ci] != 58 {
                    Err(CalcParseError::ExpectedColon)
                } else {
                    let vi = jws(s, ci + 1);
                    if key == lit_key_op() {
                        if sl.op is Some {
                            Err(CalcParseError::DuplicateField)
                        } else {
                            match string_end(s, vi) {
                                Some(after_val) => match op_of(string_content(s, vi)) {
                                    Some(op) => after_member(
                                        s,
                                        after_val,
                                        SpecSlots { op: Some(op), ..sl },
                                    ),
                                    None => Err(CalcParseError::UnknownOperator),
                                },
                                None => Err(CalcParseError::ExpectedValue),
                            }
                        }
                    } else if key == lit_key_lhs() {
                        if sl.lhs is Some {
                            Err(CalcParseError::DuplicateField)
                        } else {
                            match number_end(s, vi) {
                                Some(e) => after_member(
                                    s,
                                    e,
                                    SpecSlots { lhs: Some(s.subrange(vi, e)), ..sl },
                                ),
                                None => Err(CalcParseError::ExpectedValue),
                            }
                        }
                    } else if key == lit_key_rhs() {
                        if sl.rhs is Some {
                            Err(CalcParseError::DuplicateField)
                        } else {
                            match number_end(s, vi) {
                                Some(e) => after_member(
                                    s,
                                    e,
                                    SpecSlots { rhs: Some(s.subrange(vi, e)), ..sl },
                                ),
                                None => Err(CalcParseError::ExpectedValue),
                            }
                        }
                    } else {
                        Err(CalcParseError::UnknownField)
                    }
                }
            },
        }
    }
}

#[via_fn]
proof fn members_decreases(s: Seq<u8>, i: int, sl: SpecSlots) {
    if 0 <= i < s.len() && s[i] == 34 {
        if string_end(s, i) is Some {
            let after_key = string_end(s, i).unwrap();
            lemma_string_end_bounds(s, i);
            lemma_jws_bounds(s, after_key);
            let ci = jws(s, after_key);
            if 0 <= ci < s.len() && s[ci] == 58 {
                lemma_jws_bounds(s, ci + 1);
                let vi = jws(s, ci + 1);
                if string_end(s, vi) is Some {
                    lemma_string_end_bounds(s, vi);
                }
                if number_end(s, vi) is Some {
                    lemma_number_end_bounds(s, vi);
                }
            }
        }
    }
}

/// Walks what follows a member's value at `i`: a comma and the next member,
/// or the closing brace.
pub open spec fn after_member(s: Seq<u8>, i: int, sl: SpecSlots) -> Result<
    (SpecSlots, int),
    CalcParseError,
>
    decreases s.len() - i, 0int,
    via after_member_decreases
{
    if i < 0 {
        Err(CalcParseError::ExpectedSeparator)
    } else {
        let k = jws(s, i);
        if k >= s.len() {
            Err(CalcParseError::ExpectedSeparator)
        } else if s[k] == 44 {
            let n = jws(s, k + 1);
            members(s, n, sl)
        } else if s[k] == 125 {
            Ok((sl, k + 1))
        } else {
            Err(CalcParseError::ExpectedSeparator)
        }
    }
}

#[via_fn]
proof fn after_member_decreases(s: Seq<u8>, i: int, sl: SpecSlots) {
    if 0 <= i <= s.len() {
        lemma_jws_bounds(s, i);
        let k = jws(s, i);
        if k < s.len() && s[k] == 44 {
            lemma_jws_bounds(s, k + 1);
        }
    }
}

/// What remains once the object has closed at `e`: nothing but whitespace
/// may follow, and every field of the schema must have been seen.
pub open spec fn finish(s: Seq<u8>, e: int, sl: SpecSlots) -> Result<
    (Operation, Seq<u8>, Seq<u8>),
    CalcParseError,
> {
    if sl.op is Some && sl.lhs is Some && sl.rhs is Some {
        if jws(s, e) < s.len() {
            Err(CalcParseError::TrailingData)
        } else {
            Ok((sl.op.unwrap(), sl.lhs.unwrap(), sl.rhs.unwrap()))
        }
    } else {
        Err(CalcParseError::MissingField)
    }
}

/// What the whole body parses to: the operator and the two number lexemes of
/// the schema's object, or the first reason it cannot.
pub open spec fn spec_parse_calc(s: Seq<u8>) -> Result<
    (Operation, Seq<u8>, Seq<u8>),
    CalcParseError,
> {
    let i = jws(s, 0);
    if i >= s.len() || s[i] != 123 {
        Err(CalcParseError::ExpectedObject)
    } else {
        let j = jws(s, i + 1);
        if j < s.len() && s[j] == 125 {
            finish(s, j + 1, SpecSlots { op: None, lhs: None, rhs: None })
        } else {
            match members(s, j, SpecSlots { op: None, lhs: None, rhs: None }) {
                Ok((sl, e)) => finish(s, e, sl),
                Err(k) => Err(k),
            }
        }
    }
}

/// The fields collected so far, executable form.
pub open spec fn slots_view(op: Option<Operation>, lhs: Option<Vec<u8>>, rhs: Option<Vec<u8>>) -> SpecSlots {
    SpecSlots {
        op,
        lhs: match lhs {
            Some(v) => Some(v@),
            None => None,
        },
        rhs: match rhs {
            Some(v) => Some(v@),
            None => None,
        },
    }
}

/// Parses a request body as a calculation, leaving the operands as raw
/// number lexemes.
#[verifier::rlimit(100)]
pub fn parse_calc(s: &[u8]) -> (r: Result<RawCalc, CalcParseError>)
    ensures
        match spec_parse_calc(s@) {
            Ok(t) => r matches Ok(rc) && rc.op == t.0 && rc.lhs@ == t.1 && rc.rhs@ == t.2,
            Err(k) => r == Result::<RawCalc, CalcParseError>::Err(k),
        },
{
    let i = skip_jws(s, 0);
    if i >= s.len() || s[i] != 123 {
        return Err(CalcParseError::ExpectedObject);
    }
    let j = skip_jws(s, i + 1);
    let mut op: Option<Operation> = None;
    let mut lhs: Option<Vec<u8>> = None;
    let mut rhs: Option<Vec<u8>> = None;
    let mut end: usize = 0;
    let ghost init = SpecSlots { op: None, lhs: None, rhs: None };
    if j < s.len() && s[j] == 125 {
        end = j + 1;
    } else {
        let mut pos: usize = j;
        loop
            invariant_except_break
                members(s@, j as int, init) == members(
                    s@,
                    pos as int,
                    slots_view(op, lhs, rhs),
                ),
            invariant
                0 <= pos <= s@.len(),
                init == (SpecSlots { op: None, lhs: None, rhs: None }),
                i < s@.len() && s@[i as int] == 123,
                i == jws(s@, 0),
                j == jws(s@, i + 1),
                !(j < s@.len() && s@[j as int] == 125),
            ensures
                end <= s@.len(),
                members(s@, j as int, init) == Ok::<(SpecSlots, int), CalcParseError>(
                    (slots_view(op, lhs, rhs), end as int),
                ),
            decreases s@.len() - pos,
        {
            let ghost sl_here = slots_view(op, lhs, rhs);
            let ghost m_here = members(s@, pos as int, sl_here);
            if pos >= s.len() || s[pos] != 34 {
                return Err(CalcParseError::ExpectedKey);
            }
            let after_key = match scan_string(s, pos) {
                Some(e) => e,
                None => {
                    return Err(CalcParseError::ExpectedKey);
                },
            };
            let key = copy_range(s, pos + 1, after_key - 1);
            proof {
                crate::calc::lemma_str_scan_bounds(s@, pos + 1);
                assert(key@ =~= string_content(s@, pos as int));
            }
            let ci = skip_jws(s, after_key);
            if ci >= s.len() || s[ci] != 58 {
                return Err(CalcParseError::ExpectedColon);
            }
            let vi = skip_jws(s, ci + 1);
            let after_val: usize;
            if bytes_eq(key.as_slice(), vec_key_op().as_slice()) {
                if op.is_some() {
                    return Err(CalcParseError::DuplicateField);
                }
                let av = match scan_string(s, vi) {
                    Some(e) => e,
                    None => {
                        return Err(CalcParseError::ExpectedValue);
                    },
                };
                let content = copy_range(s, vi + 1, av - 1);
                proof {
                    crate::calc::lemma_str_scan_bounds(s@, vi + 1);
                    assert(content@ =~= string_content(s@, vi as int));
                }
                let o = if content.len() == 1 && content[0] == 43 {
                    Operation::Add
                } else if content.len() == 1 && content[0] == 45 {
                    Operation::Sub
                } else if content.len() == 1 && content[0] == 42 {
                    Operation::Mul
                } else if content.len() == 1 && content[0] == 47 {
                    Operation::Div
                } else {
                    return Err(CalcParseError::UnknownOperator);
                };
                op = Some(o);
                after_val = av;
            } else if bytes_eq(key.as_slice(), vec_key_lhs().as_slice()) {
                if lhs.is_some() {
                    return Err(CalcParseError::DuplicateField);
                }
                let e = match scan_number(s, vi) {
                    Some(e) => e,
                    None => {
                        return Err(CalcParseError::ExpectedValue);
                    },
                };
                lhs = Some(copy_range(s, vi, e));
                after_val = e;
            } else if bytes_eq(key.as_slice(), vec_key_rhs().as_slice()) {
                if rhs.is_some() {
                    return Err(CalcParseError::DuplicateField);
                }
                let e = match scan_number(s, vi) {
                    Some(e) => e,
                    None => {
                        return Err(CalcParseError::ExpectedValue);
                    },
                };
                rhs = Some(copy_range(s, vi, e));
                after_val = e;
            } else {
                return Err(CalcParseError::UnknownField);
            }
            proof {
                assert(m_here == after_member(s@, after_val as int, slots_view(op, lhs, rhs)));
            }
            let k = skip_jws(s, after_val);
            if k >= s.len() {
                return Err(CalcParseError::ExpectedSeparator);
            }
            if s[k] == 44 {
                pos = skip_jws(s, k + 1);
                proof {
                    assert(after_member(s@, after_val as int, slots_view(op, lhs, rhs))
                        == members(s@, pos as int, slots_view(op, lhs, rhs)));
                }
            } else if s[k] == 125 {
                end = k + 1;
                proof {
                    assert(m_here == Ok::<_, CalcParseError>((slots_view(op, lhs, rhs), k + 1 as int)));
                }
                break;
            } else {
                return Err(CalcParseError::ExpectedSeparator);
            }
        }
    }
    let t = skip_jws(s, end);
    let (o, l, r) = match (op, lhs, rhs) {
        (Some(o), Some(l), Some(r)) => (o, l, r),
        _ => {
            return Err(CalcParseError::MissingField);
        },
    };
    if t < s.len() {
        return Err(CalcParseError::TrailingData);
    }
    Ok(RawCalc { op: o, lhs: l, rhs: r })
}

/// The bit pattern of a positive or negative IEEE-754 double zero: the only
/// operand values that `rhs == 0.0` holds of.
pub open spec fn is_zero_bits(b: u64) -> bool {
    b == 0 || b == 0x8000_0000_0000_0000
}

/// Whether a calculation divides by exact zero, the one arithmetic error the
/// calculator reports, or is to be computed.
pub enum CalcStep {
    /// The operator is `/` and the right operand is an exact zero.
    DivisionByZero,
    /// The arithmetic is to be carried out on the operands.
    Compute,
}

/// Decides a calculation: division by an exact zero — positive or negative —
/// is the error case; every other calculation is computed.
pub fn evaluate_step(c: &Calculation) -> (r: CalcStep)
    ensures
        (r is DivisionByZero) <==> (c.op is Div && is_zero_bits(c.rhs)),
{
    match c.op {
        Operation::Div => {
            if c.rhs == 0 || c.rhs == 0x8000_0000_0000_0000 {
                CalcStep::DivisionByZero
            } else {
                CalcStep::Compute
            }
        },
        _ => CalcStep::Compute,
    }
}

} // verus!
