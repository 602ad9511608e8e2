//! Workspace inspector: parsing the remote tab listing.
//!
//! A listing is free-form text, one logical entry per line.  A line names a
//! stale workspace entry when, after leading blanks, it carries a numeric
//! index, blanks, and then the reserved entry-name prefix followed by an
//! underscore.  A fresh entry shows as the prefix, an underscore and at
//! least one digit, anywhere in the text.

use vstd::prelude::*;
use crate::chars::{is_digit, digits_val, all_digits, chars_of, lemma_digits_val_nonneg};

verus! {

/// Blank characters that may pad a listing line (the newline that ends a
/// line is not one of them).
pub open spec fn is_blank(c: char) -> bool {
    c == ' ' || c == '\t' || c == '\r'
}

/// The reserved workspace-entry name prefix, with the underscore that
/// separates it from the numeric suffix the remote application appends.
pub open spec fn entry_prefix() -> Seq<char> {
    seq!['B', 'a', 't', 'c', 'h', 'D', 'O', 'C', '_']
}

/// The first position at or after `i` whose character fails `p` (or the
/// end of `s`).
pub open spec fn run_end(s: Seq<char>, i: int, p: spec_fn(char) -> bool) -> int
    decreases s.len() - i when 0 <= i <= s.len()
{
    if i >= s.len() || !p(s[i]) {
        i
    } else {
        run_end(s, i + 1, p)
    }
}

/// Bounds and meaning of `run_end`: everything before it satisfies `p`,
/// and it stops at the end or at the first failing character.
pub proof fn lemma_run_end(s: Seq<char>, i: int, p: spec_fn(char) -> bool)
    requires
        0 <= i <= s.len(),
    ensures
        i <= run_end(s, i, p) <= s.len(),
        forall|j: int| i <= j < run_end(s, i, p) ==> p(#[trigger] s[j]),
        run_end(s, i, p) < s.len() ==> !p(s[run_end(s, i, p)]),
    decreases s.len() - i,
{
    if i < s.len() && p(s[i]) {
        lemma_run_end(s, i + 1, p);
    }
}

/// `run_end` is pinned by its characterization: a run of satisfying
/// characters from `i` to `e`, ended by the end of `s` or a failing one.
pub proof fn lemma_run_end_is(s: Seq<char>, i: int, p: spec_fn(char) -> bool, e: int)
    requires
        0 <= i <= e <= s.len(),
        forall|j: int| i <= j < e ==> p(#[trigger] s[j]),
        e < s.len() ==> !p(s[e]),
    ensures
        run_end(s, i, p) == e,
    decreases e - i,
{
    if i < e {
        assert(p(s[i]));
        lemma_run_end_is(s, i + 1, p, e);
    }
}

/// The digit characters carrying a stale entry's index on this line, if the
/// line matches: optional leading blanks, one or more digits, one or more
/// blanks, then the reserved prefix.
pub open spec fn stale_line_digits(line: Seq<char>) -> Option<Seq<char>> {
    let b = run_end(line, 0, |c: char| is_blank(c));
    let d = run_end(line, b, |c: char| is_digit(c));
    let w = run_end(line, d, |c: char| is_blank(c));
    if d > b && w > d && w + 9 <= line.len() && line.subrange(w, w + 9) == entry_prefix() {
        Some(line.subrange(b, d))
    } else {
        None
    }
}

/// The stale index this line contributes: the value of its digits, if the
/// line matches and the value fits an index; otherwise nothing, and the
/// line is skipped.
pub open spec fn stale_line_index(line: Seq<char>) -> Option<u16> {
    match stale_line_digits(line) {
        Some(ds) => if digits_val(ds) <= u16::MAX { Some(digits_val(ds) as u16) } else { None },
        None => None,
    }
}

/// Position of the newline ending the first line of `s`, or the end of `s`.
pub open spec fn line_end(s: Seq<char>) -> int {
    run_end(s, 0, |c: char| c != '\n')
}

#[via_fn]
proof fn stale_indices_decreases(s: Seq<char>) {
    lemma_run_end(s, 0, |c: char| c != '\n');
}

/// The stale entry indices of the listing, one per matching line, in
/// top-to-bottom listing order; non-matching and malformed lines are
/// skipped without ending the scan.
pub open spec fn stale_indices(s: Seq<char>) -> Seq<u16>
    decreases s.len(),
        via stale_indices_decreases
{
    let n = line_end(s);
    let head = match stale_line_index(s.take(n)) {
        Some(i) => seq![i],
        None => Seq::<u16>::empty(),
    };
    if n == s.len() {
        head
    } else {
        head + stale_indices(s.skip(n + 1))
    }
}

fn is_blank_exec(c: char) -> (b: bool)
    ensures
        b == is_blank(c),
{
    c == ' ' || c == '\t' || c == '\r'
}

fn is_digit_exec(c: char) -> (b: bool)
    ensures
        b == is_digit(c),
{
    let u = c as u32;
    48 <= u && u <= 57
}

/// The stale index carried by the line `v@.subrange(start, end)`, if any.
fn line_index(v: &Vec<char>, start: usize, end: usize) -> (r: Option<u16>)
    requires
        start <= end <= v@.len(),
    ensures
        r == stale_line_index(v@.subrange(start as int, end as int)),
{
    let ghost line = v@.subrange(start as int, end as int);
    let mut b: usize = start;
    while b < end && is_blank_exec(v[b])
        invariant
            start <= b <= end <= v@.len(),
            forall|j: int| start <= j < b ==> is_blank(#[trigger] v@[j]),
        decreases end - b,
    {
        b = b + 1;
    }
    let mut d: usize = b;
    while d < end && is_digit_exec(v[d])
        invariant
            b <= d <= end <= v@.len(),
            forall|j: int| b <= j < d ==> is_digit(#[trigger] v@[j]),
        decreases end - d,
    {
        d = d + 1;
    }
    let mut w: usize = d;
    while w < end && is_blank_exec(v[w])
        invariant
            d <= w <= end <= v@.len(),
            forall|j: int| d <= j < w ==> is_blank(#[trigger] v@[j]),
        decreases end - w,
    {
        w = w + 1;
    }
    proof {
        assert forall|j: int| 0 <= j < line.len() implies line[j] == v@[start + j] by {}
        lemma_run_end_is(line, 0, |c: char| is_blank(c), b - start as int);
        lemma_run_end_is(line, b - start as int, |c: char| is_digit(c), d - start as int);
        lemma_run_end_is(line, d - start as int, |c: char| is_blank(c), w - start as int);
    }
    if d == b || w == d {
        return None;
    }
    if end - w < 9 {
        return None;
    }
    let pm = v[w] == 'B' && v[w + 1] == 'a' && v[w + 2] == 't' && v[w + 3] == 'c' && v[w + 4]
        == 'h' && v[w + 5] == 'D' && v[w + 6] == 'O' && v[w + 7] == 'C' && v[w + 8] == '_';
    proof {
        let rel = w - start as int;
        if pm {
            assert(line.subrange(rel, rel + 9) =~= entry_prefix());
        } else {
            if line.subrange(rel, rel + 9) == entry_prefix() {
                assert(v@[w as int] == line.subrange(rel, rel + 9)[0]);
                assert(v@[w + 1] == line.subrange(rel, rel + 9)[1]);
                assert(v@[w + 2] == line.subrange(rel, rel + 9)[2]);
                assert(v@[w + 3] == line.subrange(rel, rel + 9)[3]);
                assert(v@[w + 4] == line.subrange(rel, rel + 9)[4]);
                assert(v@[w + 5] == line.subrange(rel, rel + 9)[5]);
                assert(v@[w + 6] == line.subrange(rel, rel + 9)[6]);
                assert(v@[w + 7] == line.subrange(rel, rel + 9)[7]);
                assert(v@[w + 8] == line.subrange(rel, rel + 9)[8]);
                assert(false);
            }
        }
    }
    if !pm {
        return None;
    }
    let ghost ds = line.subrange(b - start as int, d - start as int);
    proof {
        assert(stale_line_digits(line) == Some(ds));
        assert(all_digits(ds));
        lemma_digits_val_nonneg(ds);
    }
    let mut val: u32 = 0;
    let mut big = false;
    let mut i: usize = b;
    while i < d
        invariant
            b <= i <= d <= v@.len(),
            start <= b,
            ds == v@.subrange(start as int, end as int).subrange(
                b - start as int,
                d - start as int,
            ),
            ds =~= v@.subrange(b as int, d as int),
            forall|j: int| b <= j < d ==> is_digit(#[trigger] v@[j]),
            !big ==> val <= 0xffff && val == digits_val(v@.subrange(b as int, i as int)),
            big ==> digits_val(v@.subrange(b as int, i as int)) > 0xffff,
        decreases d - i,
    {
        let dig: u32 = (v[i] as u32) - 48;
        proof {
            assert(v@.subrange(b as int, i + 1 as int).drop_last() =~= v@.subrange(
                b as int,
                i as int,
            ));
            assert(v@.subrange(b as int, i + 1 as int).last() == v@[i as int]);
            let pre = v@.subrange(b as int, i as int);
            assert(all_digits(pre));
            lemma_digits_val_nonneg(pre);
        }
        if big {
        } else {
            let next = val * 10 + dig;
            if next > 0xffff {
                big = true;
            } else {
                val = next;
            }
        }
        i = i + 1;
    }
    proof {
        assert(v@.subrange(b as int, d as int) == ds);
    }
    if big {
        None
    } else {
        Some(val as u16)
    }
}

/// Extracts the stale entry indices of the listing, in listing order.
pub fn extract_stale_indices(listing: &str) -> (r: Vec<u16>)
    ensures
        r@ == stale_indices(listing@),
{
    let v = chars_of(listing);
    let n = v.len();
    let mut out: Vec<u16> = Vec::new();
    let mut pos: usize = 0;
    proof {
        assert(v@.skip(0) =~= listing@);
    }
    loop
        invariant
            v@ == listing@,
            n == v@.len(),
            pos <= n,
            stale_indices(listing@) == out@ + stale_indices(v@.skip(pos as int)),
        decreases n - pos + 1,
    {
        let ghost u = v@.skip(pos as int);
        let mut m: usize = pos;
        while m < n && v[m] != '\n'
            invariant
                pos <= m <= n == v@.len(),
                forall|j: int| pos <= j < m ==> #[trigger] v@[j] != '\n',
            decreases n - m,
        {
            m = m + 1;
        }
        proof {
            assert forall|j: int| 0 <= j < u.len() implies u[j] == v@[pos + j] by {}
            lemma_run_end_is(u, 0, |c: char| c != '\n', m - pos as int);
            assert(line_end(u) == m - pos);
            assert(u.take(m - pos as int) =~= v@.subrange(pos as int, m as int));
        }
        let li = line_index(&v, pos, m);
        if let Some(ix) = li {
            out.push(ix);
        }
        if m == n {
            proof {
                assert(stale_indices(u) == match stale_line_index(u.take(m - pos as int)) {
                    Some(i) => seq![i],
                    None => Seq::<u16>::empty(),
                });
                assert(stale_indices(listing@) =~= out@);
            }
            return out;
        }
        proof {
            assert(u.skip(m - pos + 1) =~= v@.skip(m + 1 as int));
            assert(stale_indices(u) == (match stale_line_index(u.take(m - pos as int)) {
                Some(i) => seq![i],
                None => Seq::<u16>::empty(),
            }) + stale_indices(v@.skip(m + 1 as int)));
        }
        pos = m + 1;
    }
}

/// The fresh-entry pattern — the reserved prefix, its underscore, and at
/// least one digit — stands at position `i` of `s`.
pub open spec fn fresh_at(s: Seq<char>, i: int) -> bool {
    0 <= i && i + 10 <= s.len() && s.subrange(i, i + 9) == entry_prefix() && is_digit(s[i + 9])
}

/// The fresh-entry pattern appears somewhere in the listing text.
pub open spec fn has_fresh_entry(s: Seq<char>) -> bool {
    exists|i: int| fresh_at(s, i)
}

fn fresh_window(v: &Vec<char>, i: usize) -> (b: bool)
    requires
        i + 10 <= v@.len(),
    ensures
        b == fresh_at(v@, i as int),
{
    let n = v.len();
    let b = v[i] == 'B' && v[i + 1] == 'a' && v[i + 2] == 't' && v[i + 3] == 'c' && v[i + 4] == 'h'
        && v[i + 5] == 'D' && v[i + 6] == 'O' && v[i + 7] == 'C' && v[i + 8] == '_'
        && is_digit_exec(v[i + 9]);
    proof {
        if b {
            assert(v@.subrange(i as int, i + 9) =~= entry_prefix());
        } else {
            if fresh_at(v@, i as int) {
                assert(v@[i as int] == v@.subrange(i as int, i + 9)[0]);
                assert(v@[i + 1] == v@.subrange(i as int, i + 9)[1]);
                assert(v@[i + 2] == v@.subrange(i as int, i + 9)[2]);
                assert(v@[i + 3] == v@.subrange(i as int, i + 9)[3]);
                assert(v@[i + 4] == v@.subrange(i as int, i + 9)[4]);
                assert(v@[i + 5] == v@.subrange(i as int, i + 9)[5]);
                assert(v@[i + 6] == v@.subrange(i as int, i + 9)[6]);
                assert(v@[i + 7] == v@.subrange(i as int, i + 9)[7]);
                assert(v@[i + 8] == v@.subrange(i as int, i + 9)[8]);
                assert(false);
            }
        }
    }
    b
}

/// True if and only if the fresh-entry pattern appears anywhere in the
/// listing text.
pub fn contains_fresh_entry(listing: &str) -> (b: bool)
    ensures
        b == has_fresh_entry(listing@),
{
    let v = chars_of(listing);
    let n = v.len();
    if n < 10 {
        proof {
            assert forall|i: int| !fresh_at(listing@, i) by {}
        }
        return false;
    }
    let mut i: usize = 0;
    while i <= n - 10
        invariant
            10 <= n == v@.len(),
            v@ == listing@,
            i <= n,
            forall|j: int| 0 <= j < i ==> !fresh_at(listing@, j),
        decreases n - i,
    {
        if fresh_window(&v, i) {
            return true;
        }
        i = i + 1;
    }
    proof {
        assert forall|j: int| !fresh_at(listing@, j) by {
            if j >= i {
                assert(j + 10 > n);
            }
        }
    }
    false
}

} // verus!
