//! Document and output paths.
//!
//! The input path is normalized — every backslash becomes a forward slash —
//! before it is sent to the remote application.  The output path is derived
//! from the normalized input by stripping the file name's extension and
//! appending the fixed `.layered.pdf` suffix; no other derivation rule
//! exists.

use vstd::prelude::*;
use crate::chars::{chars_of, chars_to_string};

verus! {

/// One character of a path, with path separators unified.
pub open spec fn normal_char(c: char) -> char {
    if c == '\\' {
        '/'
    } else {
        c
    }
}

/// The path with every backslash replaced by a forward slash.
pub open spec fn normalized(s: Seq<char>) -> Seq<char> {
    Seq::new(s.len(), |i: int| normal_char(s[i]))
}

/// The last position of `c` in `s`, or `-1` if `c` does not occur.
pub open spec fn last_pos(s: Seq<char>, c: char) -> int
    decreases s.len(),
{
    if s.len() == 0 {
        -1
    } else if s.last() == c {
        s.len() - 1
    } else {
        last_pos(s.drop_last(), c)
    }
}

/// Bounds and meaning of `last_pos`: it points at `c`, and nothing after
/// it is `c`.
pub proof fn lemma_last_pos(s: Seq<char>, c: char)
    ensures
        -1 <= last_pos(s, c) < s.len(),
        last_pos(s, c) >= 0 ==> s[last_pos(s, c)] == c,
        forall|j: int| last_pos(s, c) < j < s.len() ==> s[j] != c,
    decreases s.len(),
{
    if s.len() > 0 && s.last() != c {
        lemma_last_pos(s.drop_last(), c);
        assert forall|j: int| last_pos(s, c) < j < s.len() implies s[j] != c by {
            if j < s.len() - 1 {
                assert(s.drop_last()[j] != c);
            }
        }
    }
}

/// `last_pos` is pinned by its characterization.
pub proof fn lemma_last_pos_is(s: Seq<char>, c: char, k: int)
    requires
        -1 <= k < s.len(),
        k >= 0 ==> s[k] == c,
        forall|j: int| k < j < s.len() ==> s[j] != c,
    ensures
        last_pos(s, c) == k,
    decreases s.len(),
{
    if s.len() > 0 {
        if k == s.len() - 1 {
        } else {
            assert(s.last() != c);
            assert forall|j: int| k < j < s.drop_last().len() implies s.drop_last()[j] != c by {
                assert(s[j] != c);
            }
            if k >= 0 {
                assert(s.drop_last()[k] == c);
            }
            lemma_last_pos_is(s.drop_last(), c, k);
        }
    }
}

/// Start of the path's file name: just after the last separator.
pub open spec fn file_name_start(s: Seq<char>) -> int {
    last_pos(s, '/') + 1
}

/// The path's file name: everything after the last separator.
pub open spec fn file_name(s: Seq<char>) -> Seq<char> {
    s.skip(file_name_start(s))
}

/// The file name with its extension stripped: the part before the last
/// dot, unless that dot starts the name (a hidden file has no extension)
/// or there is no dot at all.
pub open spec fn stem(name: Seq<char>) -> Seq<char> {
    let d = last_pos(name, '.');
    if d <= 0 {
        name
    } else {
        name.take(d)
    }
}

/// An output path can be derived: the file name is non-empty and its stem
/// is a regular name, not a relative-directory marker.
pub open spec fn derivable(s: Seq<char>) -> bool {
    &&& file_name(s).len() > 0
    &&& stem(file_name(s)) != seq!['.']
    &&& stem(file_name(s)) != seq!['.', '.']
}

/// The derived output path: directory part, stem of the file name, and the
/// fixed suffix.
pub open spec fn derived_output(s: Seq<char>) -> Seq<char> {
    s.take(file_name_start(s)) + stem(file_name(s)) + ".layered.pdf"@
}

/// Normalizes a path: every backslash becomes a forward slash.
pub fn normalize_path(path: &str) -> (r: String)
    ensures
        r@ == normalized(path@),
{
    let v = chars_of(path);
    let n = v.len();
    let mut out: Vec<char> = Vec::new();
    let mut i: usize = 0;
    while i < n
        invariant
            n == v@.len(),
            v@ == path@,
            i <= n,
            out@.len() == i,
            forall|j: int| 0 <= j < i ==> out@[j] == normal_char(#[trigger] path@[j]),
        decreases n - i,
    {
        let c = v[i];
        if c == '\\' {
            out.push('/');
        } else {
            out.push(c);
        }
        i = i + 1;
    }
    proof {
        assert(out@ =~= normalized(path@));
    }
    chars_to_string(out)
}

/// The end of the stem within the whole path: the position where the fixed
/// suffix is appended.
pub open spec fn stem_stop(s: Seq<char>) -> int {
    let st = file_name_start(s);
    let d = last_pos(s.skip(st), '.');
    if d <= 0 {
        s.len() as int
    } else {
        st + d
    }
}

/// Finds the file-name start and the stem end of the path held in `v`.
fn boundaries(v: &Vec<char>) -> (r: (usize, usize))
    ensures
        r.0 == file_name_start(v@),
        r.1 == stem_stop(v@),
        r.0 <= v@.len(),
        r.0 <= r.1 <= v@.len(),
{
    let n = v.len();
    let mut sl: usize = n;
    while sl > 0 && v[sl - 1] != '/'
        invariant
            sl <= n == v@.len(),
            forall|j: int| sl <= j < n ==> v@[j] != '/',
        decreases sl,
    {
        sl = sl - 1;
    }
    // sl is the file-name start: 0, or just past the last '/'
    proof {
        lemma_last_pos_is(v@, '/', sl - 1);
    }
    let ghost name = v@.skip(sl as int);
    let mut dt: usize = n;
    while dt > sl && v[dt - 1] != '.'
        invariant
            sl <= dt <= n == v@.len(),
            forall|j: int| dt <= j < n ==> v@[j] != '.',
        decreases dt,
    {
        dt = dt - 1;
    }
    // dt is sl, or just past the last '.' of the file name
    proof {
        assert forall|j: int| 0 <= j < name.len() implies name[j] == v@[sl + j] by {}
        lemma_last_pos_is(name, '.', dt - sl - 1);
    }
    if dt - sl <= 1 {
        (sl, n)
    } else {
        (sl, dt - 1)
    }
}

/// Derives the output path from an already-normalized path: the extension
/// is stripped from the file name and the fixed suffix appended.
pub fn derive_output_path(path: &str) -> (r: String)
    requires
        derivable(path@),
    ensures
        r@ == derived_output(path@),
{
    let v = chars_of(path);
    let (sl, stop) = boundaries(&v);
    let mut head: Vec<char> = Vec::new();
    let mut i: usize = 0;
    while i < stop
        invariant
            stop <= v@.len(),
            v@ == path@,
            i <= stop,
            head@ == v@.take(i as int),
        decreases stop - i,
    {
        head.push(v[i]);
        i = i + 1;
        proof {
            assert(head@ =~= v@.take(i as int));
        }
    }
    proof {
        lemma_last_pos(path@, '/');
        lemma_last_pos(file_name(path@), '.');
        assert(path@.take(stop as int) =~= path@.take(file_name_start(path@)) + stem(
            file_name(path@),
        ));
    }
    let base = chars_to_string(head);
    let r = base.concat(".layered.pdf");
    r
}

/// Checks whether an output path can be derived from the path held in `v`.
fn derivable_check(v: &Vec<char>) -> (b: bool)
    ensures
        b == derivable(v@),
{
    let n = v.len();
    let (sl, stop) = boundaries(&v);
    proof {
        lemma_last_pos(v@, '/');
        lemma_last_pos(file_name(v@), '.');
        assert(stem(file_name(v@)) =~= v@.subrange(sl as int, stop as int));
    }
    if sl == n {
        proof {
            assert(file_name(v@).len() == 0);
        }
        return false;
    }
    proof {
        assert(file_name(v@).len() > 0);
    }
    let dot1 = stop - sl == 1 && v[sl] == '.';
    let dot2 = stop - sl == 2 && v[sl] == '.' && v[sl + 1] == '.';
    proof {
        let st = stem(file_name(v@));
        if dot1 {
            assert(st =~= seq!['.']);
        } else if st == seq!['.'] {
            assert(st.len() == 1 && st[0] == '.');
            assert(v@[sl as int] == '.');
        }
        if dot2 {
            assert(st =~= seq!['.', '.']);
        } else if st == seq!['.', '.'] {
            assert(st.len() == 2 && st[0] == '.' && st[1] == '.');
            assert(v@[sl as int] == '.' && v@[sl + 1] == '.');
        }
    }
    !dot1 && !dot2
}

/// Checks whether an output path can be derived from `path`.
pub fn path_derivable(path: &str) -> (b: bool)
    ensures
        b == derivable(path@),
{
    let v = chars_of(path);
    derivable_check(&v)
}

/// Normalizes the path and derives the output path from it, or reports
/// that no output path can be derived from this input.
pub fn output_path(path: &str) -> (r: Option<String>)
    ensures
        r is Some <==> derivable(normalized(path@)),
        r matches Some(s) ==> s@ == derived_output(normalized(path@)),
{
    let norm = normalize_path(path);
    let v = chars_of(norm.as_str());
    if derivable_check(&v) {
        Some(derive_output_path(norm.as_str()))
    } else {
        None
    }
}

} // verus!
