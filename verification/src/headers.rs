//! Parsing of the header region of a request: the line-by-line split, the
//! colon split of each line into a name and a value, the last-seen-wins
//! lookup, and the `Content-Length` extraction that frames the body.
use vstd::prelude::*;

use crate::bytes::copy_range;
use crate::bytes::find_byte;
use crate::bytes::lower;
use crate::bytes::lower_vec;
use crate::bytes::parse_usize;
use crate::bytes::parse_usize_spec;
use crate::bytes::scan_to;
use crate::bytes::trim;
use crate::bytes::trim_spec;
use crate::bytes::bytes_eq;
use crate::lit::lit_content_length_key;
use crate::lit::vec_content_length_key;

verus! {

/// A line with a trailing carriage return removed.
pub open spec fn strip_cr(l: Seq<u8>) -> Seq<u8> {
    if l.len() > 0 && l.last() == 13 {
        l.drop_last()
    } else {
        l
    }
}

/// The lines of `s` starting at `i`, split at each line feed, as `str::lines`
/// yields them: a line that ended in `\n` loses a trailing `\r`, the final
/// line needs no line feed, and an empty final line is dropped.
pub open spec fn lines_from(s: Seq<u8>, i: int) -> Seq<Seq<u8>>
    decreases s.len() - i,
    via lines_from_decreases
{
    if i < 0 || i >= s.len() {
        Seq::empty()
    } else {
        let j = scan_to(s, i, 10);
        if j >= s.len() {
            seq![s.subrange(i, s.len() as int)]
        } else {
            seq![strip_cr(s.subrange(i, j))] + lines_from(s, j + 1)
        }
    }
}

#[via_fn]
proof fn lines_from_decreases(s: Seq<u8>, i: int) {
    if 0 <= i < s.len() {
        crate::bytes::lemma_scan_to_bounds(s, i, 10);
    }
}

/// The header entry a single line contributes: the text left of the first
/// colon, trimmed and lowercased, paired with the trimmed text right of it.
/// A line without a colon contributes nothing.
pub open spec fn entry_of_line(l: Seq<u8>) -> Option<(Seq<u8>, Seq<u8>)> {
    let j = scan_to(l, 0, 58);
    if j >= l.len() {
        None
    } else {
        Some((lower(trim_spec(l.subrange(0, j))), trim_spec(l.subrange(j + 1, l.len() as int))))
    }
}

/// The entries that a sequence of lines contributes, in order.
pub open spec fn entries_of(ls: Seq<Seq<u8>>) -> Seq<(Seq<u8>, Seq<u8>)>
    decreases ls.len(),
{
    if ls.len() == 0 {
        Seq::empty()
    } else {
        match entry_of_line(ls[0]) {
            Some(e) => seq![e] + entries_of(ls.skip(1)),
            None => entries_of(ls.skip(1)),
        }
    }
}

/// The header entries of a header region, in order of appearance.
pub open spec fn header_entries(s: Seq<u8>) -> Seq<(Seq<u8>, Seq<u8>)> {
    entries_of(lines_from(s, 0))
}

/// The mathematical content of an entry list.
pub open spec fn entries_view(es: Seq<(Vec<u8>, Vec<u8>)>) -> Seq<(Seq<u8>, Seq<u8>)> {
    es.map_values(|e: (Vec<u8>, Vec<u8>)| (e.0@, e.1@))
}

/// Last-seen-wins lookup: the value of the latest entry named `k`, if any.
pub open spec fn lookup(es: Seq<(Seq<u8>, Seq<u8>)>, k: Seq<u8>) -> Option<Seq<u8>>
    decreases es.len(),
{
    if es.len() == 0 {
        None
    } else if es.last().0 == k {
        Some(es.last().1)
    } else {
        lookup(es.drop_last(), k)
    }
}

/// The body length a header region declares: its latest `content-length`
/// value read as an unsigned decimal, or zero when the header is absent or
/// unparseable.
pub open spec fn content_length_of(head: Seq<u8>) -> usize {
    match lookup(header_entries(head), lit_content_length_key()) {
        Some(v) => match parse_usize_spec(v) {
            Some(n) => n,
            None => 0,
        },
        None => 0usize,
    }
}

/// Splits the header region into its entries, in order of appearance.
pub fn parse_header_entries(head: &[u8]) -> (es: Vec<(Vec<u8>, Vec<u8>)>)
    ensures
        entries_view(es@) == header_entries(head@),
{
    let mut es: Vec<(Vec<u8>, Vec<u8>)> = Vec::new();
    let mut i: usize = 0;
    while i < head.len()
        invariant
            0 <= i <= head@.len(),
            entries_view(es@) + entries_of(lines_from(head@, i as int)) =~= header_entries(
                head@,
            ),
        decreases head@.len() - i,
    {
        let ghost lines_here = lines_from(head@, i as int);
        let j = find_byte(head, i, 10);
        proof {
            crate::bytes::lemma_scan_to_bounds(head@, i as int, 10);
        }
        let line: Vec<u8> = if j >= head.len() {
            copy_range(head, i, head.len())
        } else {
            if j > i && head[j - 1] == 13 {
                let l = copy_range(head, i, j - 1);
                assert(l@ =~= strip_cr(head@.subrange(i as int, j as int)));
                l
            } else {
                let l = copy_range(head, i, j);
                assert(l@ =~= strip_cr(head@.subrange(i as int, j as int)));
                l
            }
        };
        assert(lines_here[0] == line@);
        let k = find_byte(line.as_slice(), 0, 58);
        if k < line.len() {
            let key_raw = copy_range(line.as_slice(), 0, k);
            let val_raw = copy_range(line.as_slice(), k + 1, line.len());
            let key_trimmed = trim(key_raw.as_slice());
            let key = lower_vec(key_trimmed.as_slice());
            let val = trim(val_raw.as_slice());
            assert(entry_of_line(line@) == Some((key@, val@)));
            es.push((key, val));
        } else {
            proof {
                crate::bytes::lemma_scan_to_bounds(line@, 0, 58);
                assert(entry_of_line(line@).is_none());
            }
        }
        let next: usize = if j >= head.len() {
            head.len()
        } else {
            j + 1
        };
        proof {
            assert(lines_here.skip(1) =~= lines_from(head@, next as int));
            assert(entries_of(lines_here) == match entry_of_line(lines_here[0]) {
                Some(e) => seq![e] + entries_of(lines_here.skip(1)),
                None => entries_of(lines_here.skip(1)),
            });
        }
        i = next;
    }
    assert(entries_view(es@) =~= header_entries(head@));
    es
}

/// Reads the declared body length from parsed entries: the latest
/// `content-length` entry, parsed as an unsigned decimal, defaulting to zero.
pub fn declared_content_length(es: &Vec<(Vec<u8>, Vec<u8>)>) -> (n: usize)
    ensures
        n == match lookup(entries_view(es@), lit_content_length_key()) {
            Some(v) => match parse_usize_spec(v) {
                Some(m) => m,
                None => 0usize,
            },
            None => 0usize,
        },
{
    let key = vec_content_length_key();
    let mut idx: usize = es.len();
    assert(entries_view(es@).take(es@.len() as int) =~= entries_view(es@));
    while idx > 0
        invariant
            0 <= idx <= es@.len(),
            key@ == lit_content_length_key(),
            lookup(entries_view(es@), lit_content_length_key()) == lookup(
                entries_view(es@).take(idx as int),
                lit_content_length_key(),
            ),
        decreases idx,
    {
        idx -= 1;
        let ghost pre = entries_view(es@).take(idx + 1);
        proof {
            assert(pre.drop_last() =~= entries_view(es@).take(idx as int));
            assert(pre.last() == (es@[idx as int].0@, es@[idx as int].1@));
        }
        if bytes_eq(es[idx].0.as_slice(), key.as_slice()) {
            match parse_usize(es[idx].1.as_slice()) {
                Some(n) => {
                    return n;
                },
                None => {
                    return 0;
                },
            }
        }
    }
    assert(entries_view(es@).take(0) =~= Seq::<(Seq<u8>, Seq<u8>)>::empty());
    0
}

/// Reads the declared body length straight off a header region.
pub fn content_length(head: &[u8]) -> (n: usize)
    ensures
        n == content_length_of(head@),
{
    let es = parse_header_entries(head);
    declared_content_length(&es)
}

} // verus!
