//! Listing: the page window, and the list of identifiers to leave out.
//!
//! The list is text: identifiers separated by commas, each with optional
//! white space around it. A piece that is not an identifier is skipped.

use crate::id::{decode, in_range, Id};
use crate::store::numbers_of;
use vstd::prelude::*;
use vstd::string::StrSliceExecFns;

verus! {

/// White space as Unicode defines it.
pub open spec fn is_whitespace(c: char) -> bool {
    let n = c as u32;
    (0x09 <= n && n <= 0x0d) || n == 0x20 || n == 0x85 || n == 0xa0 || n == 0x1680 || (0x2000
        <= n && n <= 0x200a) || n == 0x2028 || n == 0x2029 || n == 0x202f || n == 0x205f || n
        == 0x3000
}

/// Whether `c` is white space.
pub fn is_whitespace_char(c: char) -> (r: bool)
    ensures
        r == is_whitespace(c),
{
    let n: u32 = c as u32;
    (0x09 <= n && n <= 0x0d) || n == 0x20 || n == 0x85 || n == 0xa0 || n == 0x1680 || (0x2000
        <= n && n <= 0x200a) || n == 0x2028 || n == 0x2029 || n == 0x202f || n == 0x205f || n
        == 0x3000
}

/// The index of the first comma of `s` at or after `i`, or the length of `s`.
pub open spec fn piece_end(s: Seq<char>, i: int) -> int
    decreases s.len() - i,
{
    if i >= s.len() || s[i] == ',' {
        i
    } else {
        piece_end(s, i + 1)
    }
}

/// The index of the first character of `s[a..b]` that is not white space, or
/// `b`.
pub open spec fn trim_start(s: Seq<char>, a: int, b: int) -> int
    decreases b - a,
{
    if a < b && is_whitespace(s[a]) {
        trim_start(s, a + 1, b)
    } else {
        a
    }
}

/// The index after the last character of `s[a..b]` that is not white space,
/// or `a`.
pub open spec fn trim_end(s: Seq<char>, a: int, b: int) -> int
    decreases b - a,
{
    if a < b && is_whitespace(s[b - 1]) {
        trim_end(s, a, b - 1)
    } else {
        b
    }
}

/// `s[a..b]` without the white space at its ends.
pub open spec fn trimmed(s: Seq<char>, a: int, b: int) -> Seq<char> {
    let from = trim_start(s, a, b);
    s.subrange(from, trim_end(s, from, b))
}

/// The identifier that `text` stands for, if it is one.
pub open spec fn id_in(text: Seq<char>) -> Option<u64> {
    if in_range(text) {
        Some(decode(text))
    } else {
        None
    }
}

/// The identifiers among the comma-separated pieces of `s` from `start` on,
/// in order.
pub open spec fn listed_ids(s: Seq<char>, start: int) -> Seq<u64>
    decreases s.len() - start,
{
    if start < 0 || start > s.len() {
        Seq::empty()
    } else {
        let end = piece_end(s, start);
        let rest = if start <= end < s.len() {
            listed_ids(s, end + 1)
        } else {
            Seq::empty()
        };
        match id_in(trimmed(s, start, end)) {
            Some(n) => seq![n] + rest,
            None => rest,
        }
    }
}

/// The identifiers that a list names. Pieces that are not identifiers are
/// dropped without complaint.
pub fn parse_id_list(s: &str) -> (ids: Vec<Id>)
    ensures
        numbers_of(ids@) == listed_ids(s@, 0),
{
    let n = s.unicode_len();
    let mut out: Vec<Id> = Vec::new();
    let mut start: usize = 0;
    let mut done = false;
    assert(numbers_of(out@) + listed_ids(s@, 0) =~= listed_ids(s@, 0));
    while !done
        invariant
            n == s@.len(),
            start <= n,
            !done ==> listed_ids(s@, 0) == numbers_of(out@) + listed_ids(s@, start as int),
            done ==> listed_ids(s@, 0) == numbers_of(out@),
        decreases
                if done {
                    0
                } else {
                    n - start + 1
                },
    {
        let mut end = start;
        while end < n && s.get_char(end) != ','
            invariant
                n == s@.len(),
                start <= end <= n,
                piece_end(s@, start as int) == piece_end(s@, end as int),
            decreases n - end,
        {
            end += 1;
        }
        let mut a = start;
        while a < end && is_whitespace_char(s.get_char(a))
            invariant
                n == s@.len(),
                start <= a <= end <= n,
                trim_start(s@, start as int, end as int) == trim_start(s@, a as int, end as int),
            decreases end - a,
        {
            a += 1;
        }
        let mut b = end;
        while a < b && is_whitespace_char(s.get_char(b - 1))
            invariant
                n == s@.len(),
                a <= b <= end <= n,
                trim_end(s@, a as int, end as int) == trim_end(s@, a as int, b as int),
            decreases b - a,
        {
            b -= 1;
        }
        let piece = s.substring_char(a, b);
        assert(piece@ == trimmed(s@, start as int, end as int));
        let ghost before = numbers_of(out@);
        match Id::parse(piece) {
            Ok(id) => {
                out.push(id);
                assert(numbers_of(out@) =~= before + seq![id.number()]);
            },
            Err(_) => {},
        }
        if end < n {
            assert(listed_ids(s@, 0) =~= numbers_of(out@) + listed_ids(s@, end + 1));
            start = end + 1;
        } else {
            assert(listed_ids(s@, 0) =~= numbers_of(out@));
            done = true;
        }
    }
    out
}

/// The part of an ordered result to return: at most `limit` rows after the
/// first `offset`.
#[derive(Debug, Clone, Copy, PartialEq, Eq, Structural)]
pub struct PageWindow {
    pub limit: u32,
    pub offset: u64,
}

/// The window of page `page` (counted from 1, and 1 if none is given) with
/// `per_page` rows to a page (10 if none is given). Page 0 lies before the
/// first page and has no rows.
pub open spec fn window_of(page: Option<u32>, per_page: Option<u32>) -> PageWindow {
    let size = match per_page {
        Some(n) => n,
        None => 10u32,
    };
    let number = match page {
        Some(p) => p,
        None => 1u32,
    };
    if number == 0 {
        PageWindow { limit: 0, offset: 0 }
    } else {
        PageWindow { limit: size, offset: ((number - 1) * size) as u64 }
    }
}

/// The rows of `rows` that fall into the window.
pub open spec fn page_of<T>(rows: Seq<T>, w: PageWindow) -> Seq<T> {
    if w.offset >= rows.len() {
        Seq::empty()
    } else if w.offset + w.limit >= rows.len() {
        rows.subrange(w.offset as int, rows.len() as int)
    } else {
        rows.subrange(w.offset as int, w.offset + w.limit)
    }
}

/// The window of a page.
pub fn page_window(page: Option<u32>, per_page: Option<u32>) -> (w: PageWindow)
    ensures
        w == window_of(page, per_page),
{
    let size: u32 = match per_page {
        Some(n) => n,
        None => 10,
    };
    let number: u32 = match page {
        Some(p) => p,
        None => 1,
    };
    if number == 0 {
        PageWindow { limit: 0, offset: 0 }
    } else {
        let before: u64 = (number - 1) as u64;
        assert(before * (size as u64) <= 0xffff_ffff * 0xffff_ffff) by (nonlinear_arith)
            requires
                before <= 0xffff_ffff,
                size <= 0xffff_ffff,
        ;
        PageWindow { limit: size, offset: before * (size as u64) }
    }
}

/// A page never holds more rows than its size, and a page that starts at or
/// after the end of the result, or page 0, holds none.
pub proof fn law_page_beyond_end_is_empty<T>(rows: Seq<T>, page: Option<u32>, per_page: Option<u32>)
    ensures
        page_of(rows, window_of(page, per_page)).len() <= window_of(page, per_page).limit,
        window_of(page, per_page).offset >= rows.len() ==> page_of(
            rows,
            window_of(page, per_page),
        ) == Seq::<T>::empty(),
        page == Some(0u32) ==> page_of(rows, window_of(page, per_page)).len() == 0,
{
}

/// Consecutive pages of one size cut the result into adjacent parts: a row
/// at position `i` is on page `i / size + 1`, at place `i % size`.
pub proof fn law_pages_partition<T>(rows: Seq<T>, size: u32, i: int)
    requires
        0 <= i < rows.len(),
        size > 0,
        i / (size as int) + 1 <= u32::MAX,
    ensures
        ({
            let page = (i / (size as int) + 1) as u32;
            let part = page_of(rows, window_of(Some(page), Some(size)));
            i % (size as int) < part.len() && part[i % (size as int)] == rows[i]
        }),
{
    let k = size as int;
    let q = i / k;
    let r = i % k;
    assert(i == k * q + r && 0 <= r < k) by (nonlinear_arith)
        requires
            k > 0,
            q == i / k,
            r == i % k,
    ;
    assert(q >= 0) by (nonlinear_arith)
        requires
            k > 0,
            i >= 0,
            q == i / k,
    ;
    assert(q * k == k * q) by (nonlinear_arith);
    assert(q * k <= i);
    assert(q * k <= 0xffff_ffff * 0xffff_ffff) by (nonlinear_arith)
        requires
            0 <= q <= 0xffff_ffff,
            0 <= k <= 0xffff_ffff,
    ;
    let page = (q + 1) as u32;
    assert((page - 1) * size == q * k);
}

} // verus!
