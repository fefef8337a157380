//! The request line: the first line of the header region, split on
//! whitespace into a method token and a path, the path defaulting to `/` when
//! the line carries no second token.
use vstd::prelude::*;

use crate::bytes::copy_range;
use crate::bytes::crlf_scan;
use crate::bytes::find_crlf;
use crate::bytes::find_non_ws;
use crate::bytes::find_ws;
use crate::bytes::lemma_crlf_scan_bounds;
use crate::bytes::scan_non_ws;
use crate::bytes::scan_ws;
use crate::lit::lit_path_root;
use crate::lit::vec_path_root;

verus! {

/// The request line of a header region: everything before its first `\r\n`.
pub open spec fn request_line(head: Seq<u8>) -> Seq<u8> {
    head.take(crlf_scan(head, 0))
}

/// The first whitespace-separated token of `l`: the method token, empty when
/// the line holds no token at all.
pub open spec fn method_token(l: Seq<u8>) -> Seq<u8> {
    let a = scan_non_ws(l, 0);
    l.subrange(a, scan_ws(l, a))
}

/// The second whitespace-separated token of `l`, possibly empty.
pub open spec fn second_token(l: Seq<u8>) -> Seq<u8> {
    let a = scan_non_ws(l, 0);
    let b = scan_ws(l, a);
    let c = scan_non_ws(l, b);
    l.subrange(c, scan_ws(l, c))
}

/// The path of a request line: its second token, or `/` when there is none.
pub open spec fn path_of(l: Seq<u8>) -> Seq<u8> {
    if second_token(l).len() == 0 {
        lit_path_root()
    } else {
        second_token(l)
    }
}

/// Splits a header region into its method token and its path.
pub fn parse_request_line(head: &[u8]) -> (r: (Vec<u8>, Vec<u8>))
    ensures
        r.0@ == method_token(request_line(head@)),
        r.1@ == path_of(request_line(head@)),
{
    proof {
        lemma_crlf_scan_bounds(head@, 0);
    }
    let e = find_crlf(head);
    let line = copy_range(head, 0, e);
    let a = find_non_ws(line.as_slice(), 0);
    let b = find_ws(line.as_slice(), a);
    let method = copy_range(line.as_slice(), a, b);
    let c = find_non_ws(line.as_slice(), b);
    let d = find_ws(line.as_slice(), c);
    let path = if c == d {
        assert(second_token(line@).len() == 0);
        vec_path_root()
    } else {
        let p = copy_range(line.as_slice(), c, d);
        assert(p@ == second_token(line@));
        p
    };
    (method, path)
}

} // verus!
