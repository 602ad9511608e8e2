//! Ordering of stale workspace-entry indices for closing.
//!
//! Entries are closed highest index first, so that closing one entry cannot
//! shift or invalidate the remote numbering of an entry still to be closed.

use vstd::prelude::*;

verus! {

/// `s` is strictly descending.
pub open spec fn strictly_descending(s: Seq<u16>) -> bool {
    forall|i: int, j: int| 0 <= i < j < s.len() ==> s[i] > s[j]
}

/// `x` inserted into the strictly descending sequence `s`, keeping it
/// strictly descending; a value already present is not duplicated.
pub open spec fn insert_desc(s: Seq<u16>, x: u16) -> Seq<u16>
    decreases s.len(),
{
    if s.len() == 0 {
        seq![x]
    } else if x > s[0] {
        seq![x] + s
    } else if x == s[0] {
        s
    } else {
        seq![s[0]] + insert_desc(s.drop_first(), x)
    }
}

/// The order in which the given stale indices are closed: the same indices,
/// strictly descending, duplicates collapsed.
pub open spec fn closing_seq(s: Seq<u16>) -> Seq<u16>
    decreases s.len(),
{
    if s.len() == 0 {
        Seq::empty()
    } else {
        insert_desc(closing_seq(s.drop_first()), s[0])
    }
}

/// Inserting keeps the sequence strictly descending and adds exactly `x`
/// to the set of values.
pub proof fn lemma_insert_desc(s: Seq<u16>, x: u16)
    requires
        strictly_descending(s),
    ensures
        strictly_descending(insert_desc(s, x)),
        insert_desc(s, x).to_set() == s.to_set().insert(x),
    decreases s.len(),
{
    if s.len() == 0 {
        assert(insert_desc(s, x) =~= seq![x]);
        assert(seq![x].to_set() =~= s.to_set().insert(x)) by {
            assert(seq![x][0] == x);
            assert forall|y: u16| s.to_set().insert(x).contains(y) implies seq![x].to_set().contains(
                y,
            ) by {
                assert(y == x);
                assert(seq![x][0] == y);
            }
        }
    } else if x > s[0] {
        let r = seq![x] + s;
        assert forall|i: int, j: int| 0 <= i < j < r.len() implies r[i] > r[j] by {
            if i == 0 {
                if j > 1 {
                    assert(s[0] > s[j - 1]);
                }
            } else {
                assert(s[i - 1] > s[j - 1]);
            }
        }
        assert(r.to_set() =~= s.to_set().insert(x)) by {
            assert forall|y: u16| r.to_set().contains(y) implies s.to_set().insert(x).contains(
                y,
            ) by {
                let k = choose|k: int| 0 <= k < r.len() && r[k] == y;
                if k > 0 {
                    assert(s[k - 1] == y);
                }
            }
            assert forall|y: u16| s.to_set().insert(x).contains(y) implies r.to_set().contains(
                y,
            ) by {
                if y == x {
                    assert(r[0] == y);
                } else {
                    let k = choose|k: int| 0 <= k < s.len() && s[k] == y;
                    assert(r[k + 1] == y);
                }
            }
        }
    } else if x == s[0] {
        assert(s.to_set() =~= s.to_set().insert(x)) by {
            assert(s[0] == x);
        }
    } else {
        let t = s.drop_first();
        assert(strictly_descending(t)) by {
            assert forall|i: int, j: int| 0 <= i < j < t.len() implies t[i] > t[j] by {
                assert(s[i + 1] > s[j + 1]);
            }
        }
        lemma_insert_desc(t, x);
        let u = insert_desc(t, x);
        let r = seq![s[0]] + u;
        assert(insert_desc(s, x) == r);
        assert forall|i: int, j: int| 0 <= i < j < r.len() implies r[i] > r[j] by {
            if i == 0 {
                assert(u.to_set().contains(r[j])) by {
                    assert(u[j - 1] == r[j]);
                }
                assert(t.to_set().insert(x).contains(r[j]));
                if r[j] == x {
                    assert(s[0] > x);
                } else {
                    let k = choose|k: int| 0 <= k < t.len() && t[k] == r[j];
                    assert(s[0] > s[k + 1]);
                }
            } else {
                assert(u[i - 1] > u[j - 1]);
            }
        }
        assert(r.to_set() =~= s.to_set().insert(x)) by {
            assert forall|y: u16| r.to_set().contains(y) implies s.to_set().insert(x).contains(
                y,
            ) by {
                let k = choose|k: int| 0 <= k < r.len() && r[k] == y;
                if k == 0 {
                    assert(s[0] == y);
                } else {
                    assert(u.to_set().contains(y)) by {
                        assert(u[k - 1] == y);
                    }
                    assert(t.to_set().insert(x).contains(y));
                    if y != x {
                        let m = choose|m: int| 0 <= m < t.len() && t[m] == y;
                        assert(s[m + 1] == y);
                    }
                }
            }
            assert forall|y: u16| s.to_set().insert(x).contains(y) implies r.to_set().contains(
                y,
            ) by {
                if y == x {
                    assert(u.to_set().contains(y)) by {
                        assert(t.to_set().insert(x).contains(x));
                    }
                    let k = choose|k: int| 0 <= k < u.len() && u[k] == y;
                    assert(r[k + 1] == y);
                } else {
                    let k = choose|k: int| 0 <= k < s.len() && s[k] == y;
                    if k == 0 {
                        assert(r[0] == y);
                    } else {
                        assert(t[k - 1] == y);
                        assert(t.to_set().insert(x).contains(y));
                        let m = choose|m: int| 0 <= m < u.len() && u[m] == y;
                        assert(r[m + 1] == y);
                    }
                }
            }
        }
    }
}

/// The closing order is strictly descending — whatever order the indices
/// appeared in the listing — and holds exactly the indices that appeared.
pub proof fn lemma_closing_seq(s: Seq<u16>)
    ensures
        strictly_descending(closing_seq(s)),
        closing_seq(s).to_set() == s.to_set(),
    decreases s.len(),
{
    if s.len() == 0 {
        assert(closing_seq(s).to_set() =~= s.to_set());
    } else {
        let t = s.drop_first();
        lemma_closing_seq(t);
        lemma_insert_desc(closing_seq(t), s[0]);
        assert(t.to_set().insert(s[0]) =~= s.to_set()) by {
            assert forall|y: u16| t.to_set().insert(s[0]).contains(y) implies s.to_set().contains(
                y,
            ) by {
                if y == s[0] {
                    assert(s[0] == y);
                } else {
                    let k = choose|k: int| 0 <= k < t.len() && t[k] == y;
                    assert(s[k + 1] == y);
                }
            }
            assert forall|y: u16| s.to_set().contains(y) implies t.to_set().insert(s[0]).contains(
                y,
            ) by {
                let k = choose|k: int| 0 <= k < s.len() && s[k] == y;
                if k > 0 {
                    assert(t[k - 1] == y);
                }
            }
        }
    }
}

/// Dropping the first element keeps a sequence strictly descending.
pub proof fn lemma_descending_drop_first(s: Seq<u16>)
    requires
        strictly_descending(s),
        s.len() > 0,
    ensures
        strictly_descending(s.drop_first()),
{
    assert forall|i: int, j: int|
        0 <= i < j < s.drop_first().len() implies s.drop_first()[i] > s.drop_first()[j] by {
        assert(s[i + 1] > s[j + 1]);
    }
}

fn insert_desc_exec(s: Vec<u16>, x: u16) -> (r: Vec<u16>)
    ensures
        r@ == insert_desc(s@, x),
    decreases s@.len(),
{
    if s.len() == 0 {
        let mut r: Vec<u16> = Vec::new();
        r.push(x);
        proof {
            assert(r@ =~= insert_desc(s@, x));
        }
        r
    } else if x > s[0] {
        let ghost s0 = s@;
        let mut r = s;
        r.insert(0, x);
        proof {
            assert(r@ =~= seq![x] + s0);
        }
        r
    } else if x == s[0] {
        s
    } else {
        let first = s[0];
        let ghost s0 = s@;
        let mut rest = s;
        rest.remove(0);
        proof {
            assert(rest@ =~= s0.drop_first());
        }
        let mut r = insert_desc_exec(rest, x);
        r.insert(0, first);
        proof {
            assert(r@ =~= seq![s0[0]] + insert_desc(s0.drop_first(), x));
        }
        r
    }
}

/// The indices of `v`, reordered for closing: strictly descending,
/// duplicates collapsed.
pub fn closing_order(v: Vec<u16>) -> (r: Vec<u16>)
    ensures
        r@ == closing_seq(v@),
    decreases v@.len(),
{
    if v.len() == 0 {
        Vec::new()
    } else {
        let first = v[0];
        let ghost v0 = v@;
        let mut rest = v;
        rest.remove(0);
        proof {
            assert(rest@ =~= v0.drop_first());
        }
        let sorted = closing_order(rest);
        insert_desc_exec(sorted, first)
    }
}

} // verus!
