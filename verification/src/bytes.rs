//! Byte-level helpers shared by the protocol modules: ASCII classification,
//! searching, decimal parsing and rendering.
use vstd::prelude::*;

verus! {

/// ASCII decimal digit.
pub open spec fn is_digit(b: u8) -> bool {
    48 <= b <= 57
}

/// ASCII whitespace, the byte analogue of `char::is_whitespace` on ASCII text:
/// HT, LF, VT, FF, CR and space.
pub open spec fn is_ascii_ws(b: u8) -> bool {
    b == 32 || (9 <= b <= 13)
}

/// ASCII lowercasing of a single byte.
pub open spec fn to_lower(b: u8) -> u8 {
    if 65 <= b <= 90 {
        (b + 32) as u8
    } else {
        b
    }
}

/// ASCII lowercasing of a byte sequence.
pub open spec fn lower(s: Seq<u8>) -> Seq<u8> {
    s.map_values(|b: u8| to_lower(b))
}

/// Every byte of `s` is an ASCII digit.
pub open spec fn all_digits(s: Seq<u8>) -> bool {
    forall|i: int| 0 <= i < s.len() ==> is_digit(s[i])
}

/// Value of a sequence of ASCII digits, most significant first.
pub open spec fn digits_val(s: Seq<u8>) -> nat
    decreases s.len(),
{
    if s.len() == 0 {
        0
    } else {
        digits_val(s.drop_last()) * 10 + (s.last() - 48) as nat
    }
}

/// The digit part of an unsigned decimal literal: a single leading `+` is
/// allowed and skipped, as `usize::from_str` does.
pub open spec fn digits_part(s: Seq<u8>) -> Seq<u8> {
    if s.len() > 0 && s[0] == 43 {
        s.skip(1)
    } else {
        s
    }
}

/// What `str::parse::<usize>` accepts on ASCII text: an optional `+`, then one
/// or more digits whose value fits in `usize`.
pub open spec fn parse_usize_spec(s: Seq<u8>) -> Option<usize> {
    let d = digits_part(s);
    if d.len() > 0 && all_digits(d) && digits_val(d) <= usize::MAX {
        Some(digits_val(d) as usize)
    } else {
        None
    }
}

proof fn lemma_digits_val_prefix(s: Seq<u8>, k: int)
    requires
        all_digits(s),
        0 <= k <= s.len(),
    ensures
        digits_val(s.take(k)) <= digits_val(s),
    decreases s.len(),
{
    if k == s.len() {
        assert(s.take(k) =~= s);
    } else {
        assert(s.drop_last().take(k) =~= s.take(k));
        assert(all_digits(s.drop_last()));
        lemma_digits_val_prefix(s.drop_last(), k);
    }
}

/// Parses an unsigned decimal integer exactly as `str::parse::<usize>` would.
pub fn parse_usize(s: &[u8]) -> (r: Option<usize>)
    ensures
        r == parse_usize_spec(s@),
{
    let ghost d = digits_part(s@);
    let start: usize = if s.len() > 0 && s[0] == 43 {
        1
    } else {
        0
    };
    assert(d =~= s@.skip(start as int));
    if s.len() == start {
        return None;
    }
    let mut acc: usize = 0;
    let mut i: usize = start;
    while i < s.len()
        invariant
            start <= i <= s@.len(),
            start < s@.len(),
            d == digits_part(s@),
            d =~= s@.skip(start as int),
            acc == digits_val(d.take(i - start)),
            all_digits(d.take(i - start)),
        decreases s@.len() - i,
    {
        let b = s[i];
        assert(d[i - start] == s@[i as int]);
        if b < 48 || b > 57 {
            proof {
                assert(!is_digit(d[i - start]));
                assert(!all_digits(d));
            }
            return None;
        }
        let dig: usize = (b - 48) as usize;
        if acc > (usize::MAX - dig) / 10 {
            proof {
                let t = d.take(i - start + 1);
                assert(t.drop_last() =~= d.take(i - start));
                assert(t.last() == d[i - start]);
                assert(digits_val(t) == acc * 10 + dig);
                assert(acc * 10 + dig > usize::MAX) by (nonlinear_arith)
                    requires
                        acc > (usize::MAX - dig) / 10,
                        dig <= usize::MAX,
                ;
                if all_digits(d) && digits_val(d) <= usize::MAX {
                    lemma_digits_val_prefix(d, i - start + 1);
                    assert(false);
                }
            }
            return None;
        }
        proof {
            let t = d.take(i - start + 1);
            assert(t.drop_last() =~= d.take(i - start));
            assert(t.last() == d[i - start]);
        }
        acc = acc * 10 + dig;
        i += 1;
    }
    assert(d.take(i - start) =~= d);
    Some(acc)
}

/// Decimal rendering of a natural number, most significant digit first.
pub open spec fn dec_spec(n: nat) -> Seq<u8>
    decreases n,
{
    if n < 10 {
        seq![(48 + n) as u8]
    } else {
        dec_spec(n / 10).push((48 + n % 10) as u8)
    }
}

/// Renders `n` in decimal, as `format!("{}", n)` would.
pub fn dec(n: usize) -> (v: Vec<u8>)
    ensures
        v@ == dec_spec(n as nat),
    decreases n,
{
    if n < 10 {
        let mut v: Vec<u8> = Vec::new();
        v.push(48 + n as u8);
        assert(v@ =~= dec_spec(n as nat));
        v
    } else {
        let mut v = dec(n / 10);
        v.push(48 + (n % 10) as u8);
        assert(v@ =~= dec_spec(n as nat));
        v
    }
}

/// Decimal renderings consist of digits only, and are never empty.
pub proof fn lemma_dec_digits(n: nat)
    ensures
        dec_spec(n).len() >= 1,
        all_digits(dec_spec(n)),
    decreases n,
{
    if n >= 10 {
        lemma_dec_digits(n / 10);
    }
}

proof fn lemma_dec_val(n: nat)
    ensures
        digits_val(dec_spec(n)) == n,
    decreases n,
{
    if n < 10 {
        let s = dec_spec(n);
        assert(s == seq![(48 + n) as u8]);
        assert(s.drop_last() =~= Seq::<u8>::empty());
        assert(digits_val(s.drop_last()) == 0);
        assert(s.last() == (48 + n) as u8);
        assert(digits_val(s) == (s.last() - 48) as nat);
    } else {
        lemma_dec_val(n / 10);
        let s = dec_spec(n);
        assert(s == dec_spec(n / 10).push((48 + n % 10) as u8));
        assert(s.drop_last() =~= dec_spec(n / 10));
        assert(s.last() == (48 + n % 10) as u8);
        assert(digits_val(s) == (n / 10) * 10 + n % 10);
    }
}

/// Round trip: parsing a rendered length recovers the length. This is what
/// makes an emitted `Content-Length` trustworthy to a reader of the response.
pub proof fn lemma_parse_dec_round_trip(n: usize)
    ensures
        parse_usize_spec(dec_spec(n as nat)) == Some(n),
{
    lemma_dec_digits(n as nat);
    lemma_dec_val(n as nat);
    assert(dec_spec(n as nat)[0] != 43);
    assert(digits_part(dec_spec(n as nat)) == dec_spec(n as nat));
}

/// Compares two byte slices for equality.
pub fn bytes_eq(a: &[u8], b: &[u8]) -> (r: bool)
    ensures
        r == (a@ == b@),
{
    if a.len() != b.len() {
        assert(a@.len() != b@.len());
        return false;
    }
    let mut i: usize = 0;
    while i < a.len()
        invariant
            i <= a@.len(),
            a@.len() == b@.len(),
            forall|j: int| 0 <= j < i ==> a@[j] == b@[j],
        decreases a@.len() - i,
    {
        if a[i] != b[i] {
            return false;
        }
        i += 1;
    }
    assert(a@ =~= b@);
    true
}

/// First index `j >= i` holding byte `b`; the length of `s` when there is
/// none.
pub open spec fn scan_to(s: Seq<u8>, i: int, b: u8) -> int
    decreases s.len() - i,
{
    if i < 0 || i >= s.len() {
        s.len() as int
    } else if s[i] == b {
        i
    } else {
        scan_to(s, i + 1, b)
    }
}

/// The scan lands between its start and the end of the sequence, on an
/// occurrence of `b` if it found one, past only non-occurrences otherwise.
pub proof fn lemma_scan_to_bounds(s: Seq<u8>, i: int, b: u8)
    requires
        0 <= i <= s.len(),
    ensures
        i <= scan_to(s, i, b) <= s.len(),
        scan_to(s, i, b) < s.len() ==> s[scan_to(s, i, b)] == b,
        forall|j: int| i <= j < scan_to(s, i, b) ==> s[j] != b,
    decreases s.len() - i,
{
    if i < s.len() && s[i] != b {
        lemma_scan_to_bounds(s, i + 1, b);
    }
}

/// Finds the first occurrence of `b` in `s` at or after `from`; returns the
/// length of `s` when there is none.
pub fn find_byte(s: &[u8], from: usize, b: u8) -> (r: usize)
    requires
        from <= s@.len(),
    ensures
        r == scan_to(s@, from as int, b),
{
    let mut i: usize = from;
    while i < s.len()
        invariant
            from <= i <= s@.len(),
            scan_to(s@, from as int, b) == scan_to(s@, i as int, b),
        decreases s@.len() - i,
    {
        if s[i] == b {
            return i;
        }
        i += 1;
    }
    i
}

/// `\r\n\r\n` begins at index `i` of `s`.
pub open spec fn is_terminator_at(s: Seq<u8>, i: int) -> bool {
    &&& 0 <= i
    &&& i + 4 <= s.len()
    &&& s[i] == 13
    &&& s[i + 1] == 10
    &&& s[i + 2] == 13
    &&& s[i + 3] == 10
}

/// Index of the first `\r\n\r\n` in `s` at or after `i`; the length of `s`
/// when there is none.
pub open spec fn term_scan(s: Seq<u8>, i: int) -> int
    decreases s.len() - i,
{
    if i < 0 || i + 4 > s.len() {
        s.len() as int
    } else if is_terminator_at(s, i) {
        i
    } else {
        term_scan(s, i + 1)
    }
}

/// `s` holds a `\r\n\r\n` somewhere.
pub open spec fn has_terminator(s: Seq<u8>) -> bool {
    term_scan(s, 0) + 4 <= s.len()
}

/// The terminator scan lands on the first terminator, or at the end when
/// there is none.
pub proof fn lemma_term_scan_bounds(s: Seq<u8>, i: int)
    requires
        0 <= i <= s.len(),
    ensures
        i <= term_scan(s, i) <= s.len(),
        term_scan(s, i) + 4 <= s.len() ==> is_terminator_at(s, term_scan(s, i)),
        term_scan(s, i) + 4 > s.len() ==> term_scan(s, i) == s.len(),
        forall|j: int| i <= j < term_scan(s, i) ==> !is_terminator_at(s, j),
    decreases s.len() - i,
{
    if i + 4 <= s.len() && !is_terminator_at(s, i) {
        lemma_term_scan_bounds(s, i + 1);
    }
}

/// A terminator with none before it is where the scan lands.
pub proof fn lemma_term_scan_first(s: Seq<u8>, i: int, t: int)
    requires
        0 <= i <= t,
        is_terminator_at(s, t),
        forall|j: int| i <= j < t ==> !is_terminator_at(s, j),
    ensures
        term_scan(s, i) == t,
    decreases t - i,
{
    if i < t {
        lemma_term_scan_first(s, i + 1, t);
    }
}

/// Finds the first `\r\n\r\n` in `s`; returns the length of `s` when there is
/// none.
pub fn find_terminator(s: &[u8]) -> (r: usize)
    ensures
        r == term_scan(s@, 0),
{
    if s.len() < 4 {
        return s.len();
    }
    let mut i: usize = 0;
    while i <= s.len() - 4
        invariant
            s@.len() >= 4,
            0 <= i <= s@.len() - 3,
            term_scan(s@, 0) == term_scan(s@, i as int),
        decreases s@.len() - i,
    {
        if s[i] == 13 && s[i + 1] == 10 && s[i + 2] == 13 && s[i + 3] == 10 {
            return i;
        }
        i += 1;
    }
    s.len()
}

/// Index of the first `\r\n` in `s` at or after `i`; the length of `s` when
/// there is none.
pub open spec fn crlf_scan(s: Seq<u8>, i: int) -> int
    decreases s.len() - i,
{
    if i < 0 || i + 2 > s.len() {
        s.len() as int
    } else if s[i] == 13 && s[i + 1] == 10 {
        i
    } else {
        crlf_scan(s, i + 1)
    }
}

/// Finds the first `\r\n` in `s`; returns the length of `s` when there is
/// none.
pub fn find_crlf(s: &[u8]) -> (r: usize)
    ensures
        r == crlf_scan(s@, 0),
{
    if s.len() < 2 {
        return s.len();
    }
    let mut i: usize = 0;
    while i <= s.len() - 2
        invariant
            s@.len() >= 2,
            0 <= i <= s@.len() - 1,
            crlf_scan(s@, 0) == crlf_scan(s@, i as int),
        decreases s@.len() - i,
    {
        if s[i] == 13 && s[i + 1] == 10 {
            return i;
        }
        i += 1;
    }
    s.len()
}

/// An occurrence of `b` with none before it is where the byte scan lands.
pub proof fn lemma_scan_to_first(s: Seq<u8>, i: int, t: int, b: u8)
    requires
        0 <= i <= t < s.len(),
        s[t] == b,
        forall|j: int| i <= j < t ==> s[j] != b,
    ensures
        scan_to(s, i, b) == t,
    decreases t - i,
{
    if i < t {
        lemma_scan_to_first(s, i + 1, t, b);
    }
}

/// The carriage-return–line-feed scan lands on the first `\r\n`, or at the
/// end when there is none.
pub proof fn lemma_crlf_scan_bounds(s: Seq<u8>, i: int)
    requires
        0 <= i <= s.len(),
    ensures
        i <= crlf_scan(s, i) <= s.len(),
    decreases s.len() - i,
{
    if i + 2 <= s.len() && !(s[i] == 13 && s[i + 1] == 10) {
        lemma_crlf_scan_bounds(s, i + 1);
    }
}

/// First index `j >= i` holding an ASCII whitespace byte; the length of `s`
/// when there is none.
pub open spec fn scan_ws(s: Seq<u8>, i: int) -> int
    decreases s.len() - i,
{
    if i < 0 || i >= s.len() {
        s.len() as int
    } else if is_ascii_ws(s[i]) {
        i
    } else {
        scan_ws(s, i + 1)
    }
}

/// The whitespace scan stays within bounds.
pub proof fn lemma_scan_ws_bounds(s: Seq<u8>, i: int)
    requires
        0 <= i <= s.len(),
    ensures
        i <= scan_ws(s, i) <= s.len(),
    decreases s.len() - i,
{
    if i < s.len() && !is_ascii_ws(s[i]) {
        lemma_scan_ws_bounds(s, i + 1);
    }
}

/// Finds the first ASCII whitespace byte at or after `from`.
pub fn find_ws(s: &[u8], from: usize) -> (r: usize)
    requires
        from <= s@.len(),
    ensures
        r == scan_ws(s@, from as int),
        from <= r <= s@.len(),
{
    proof {
        lemma_scan_ws_bounds(s@, from as int);
    }
    let mut i: usize = from;
    while i < s.len() && !(s[i] == 32 || (9 <= s[i] && s[i] <= 13))
        invariant
            from <= i <= s@.len(),
            scan_ws(s@, from as int) == scan_ws(s@, i as int),
        decreases s@.len() - i,
    {
        i += 1;
    }
    i
}

/// Finds the first byte at or after `from` that is not ASCII whitespace.
pub fn find_non_ws(s: &[u8], from: usize) -> (r: usize)
    requires
        from <= s@.len(),
    ensures
        r == scan_non_ws(s@, from as int),
        from <= r <= s@.len(),
{
    proof {
        lemma_scan_non_ws_bounds(s@, from as int);
    }
    let mut i: usize = from;
    while i < s.len() && (s[i] == 32 || (9 <= s[i] && s[i] <= 13))
        invariant
            from <= i <= s@.len(),
            scan_non_ws(s@, from as int) == scan_non_ws(s@, i as int),
        decreases s@.len() - i,
    {
        i += 1;
    }
    i
}

/// The non-whitespace scan stays within bounds and passes whitespace only.
pub proof fn lemma_scan_non_ws_bounds(s: Seq<u8>, i: int)
    requires
        0 <= i <= s.len(),
    ensures
        i <= scan_non_ws(s, i) <= s.len(),
        forall|j: int| i <= j < scan_non_ws(s, i) ==> is_ascii_ws(s[j]),
        scan_non_ws(s, i) < s.len() ==> !is_ascii_ws(s[scan_non_ws(s, i)]),
    decreases s.len() - i,
{
    if i < s.len() && is_ascii_ws(s[i]) {
        lemma_scan_non_ws_bounds(s, i + 1);
    }
}

/// A non-whitespace byte with only whitespace before it is where the scan
/// lands; so is the end of the sequence when all of it is whitespace.
pub proof fn lemma_scan_non_ws_first(s: Seq<u8>, i: int, t: int)
    requires
        0 <= i <= t <= s.len(),
        forall|j: int| i <= j < t ==> is_ascii_ws(s[j]),
        t < s.len() ==> !is_ascii_ws(s[t]),
    ensures
        scan_non_ws(s, i) == t,
    decreases t - i,
{
    if i < t {
        lemma_scan_non_ws_first(s, i + 1, t);
    }
}

/// First index `j >= i` holding a byte that is not ASCII whitespace; the
/// length of `s` when there is none.
pub open spec fn scan_non_ws(s: Seq<u8>, i: int) -> int
    decreases s.len() - i,
{
    if i < 0 || i >= s.len() {
        s.len() as int
    } else if !is_ascii_ws(s[i]) {
        i
    } else {
        scan_non_ws(s, i + 1)
    }
}

/// Last position `j <= i` such that `s[j - 1]` is not ASCII whitespace; zero
/// when there is none.
pub open spec fn scan_non_ws_rev(s: Seq<u8>, i: int) -> int
    decreases i,
{
    if i <= 0 || i > s.len() {
        0
    } else if !is_ascii_ws(s[i - 1]) {
        i
    } else {
        scan_non_ws_rev(s, i - 1)
    }
}

/// `s` with leading and trailing ASCII whitespace removed, the byte analogue
/// of `str::trim` on ASCII text.
pub open spec fn trim_spec(s: Seq<u8>) -> Seq<u8> {
    let a = scan_non_ws(s, 0);
    let b = scan_non_ws_rev(s, s.len() as int);
    if a < b {
        s.subrange(a, b)
    } else {
        Seq::empty()
    }
}

/// Trims ASCII whitespace from both ends of `s`.
pub fn trim(s: &[u8]) -> (v: Vec<u8>)
    ensures
        v@ == trim_spec(s@),
{
    let mut a: usize = 0;
    while a < s.len() && (s[a] == 32 || (9 <= s[a] && s[a] <= 13))
        invariant
            0 <= a <= s@.len(),
            scan_non_ws(s@, 0) == scan_non_ws(s@, a as int),
        decreases s@.len() - a,
    {
        a += 1;
    }
    let mut b: usize = s.len();
    while b > 0 && (s[b - 1] == 32 || (9 <= s[b - 1] && s[b - 1] <= 13))
        invariant
            0 <= b <= s@.len(),
            scan_non_ws_rev(s@, s@.len() as int) == scan_non_ws_rev(s@, b as int),
        decreases b,
    {
        b -= 1;
    }
    if a < b {
        copy_range(s, a, b)
    } else {
        Vec::new()
    }
}

/// Lowercases the ASCII letters of `s`.
pub fn lower_vec(s: &[u8]) -> (v: Vec<u8>)
    ensures
        v@ == lower(s@),
{
    let mut v: Vec<u8> = Vec::new();
    let mut i: usize = 0;
    while i < s.len()
        invariant
            0 <= i <= s@.len(),
            v@.len() == i,
            forall|j: int| 0 <= j < i ==> v@[j] == to_lower(s@[j]),
        decreases s@.len() - i,
    {
        let b = s[i];
        if 65 <= b && b <= 90 {
            v.push(b + 32);
        } else {
            v.push(b);
        }
        i += 1;
    }
    assert(v@ =~= lower(s@));
    v
}

/// Appends every byte of `s` to `v`.
pub fn append(v: &mut Vec<u8>, s: &[u8])
    ensures
        final(v)@ == old(v)@ + s@,
{
    let mut i: usize = 0;
    while i < s.len()
        invariant
            0 <= i <= s@.len(),
            v@ =~= old(v)@ + s@.take(i as int),
        decreases s@.len() - i,
    {
        v.push(s[i]);
        assert(v@ =~= old(v)@ + s@.take(i + 1 as int));
        i += 1;
    }
    assert(v@ =~= old(v)@ + s@);
}

/// Copies `s[from..to]` into a fresh vector.
pub fn copy_range(s: &[u8], from: usize, to: usize) -> (v: Vec<u8>)
    requires
        from <= to <= s@.len(),
    ensures
        v@ == s@.subrange(from as int, to as int),
{
    let mut v: Vec<u8> = Vec::new();
    let mut i: usize = from;
    while i < to
        invariant
            from <= i <= to <= s@.len(),
            v@ =~= s@.subrange(from as int, i as int),
        decreases to - i,
    {
        v.push(s[i]);
        assert(v@ =~= s@.subrange(from as int, i + 1 as int));
        i += 1;
    }
    v
}

} // verus!
