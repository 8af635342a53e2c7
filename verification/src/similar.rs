//! The one-edit similarity test used to diagnose directive typos.
//!
//! Two strings are similar when a single edit turns one into the other:
//! one or two substitutions at equal length, or the removal of one
//! character of the longer string at off-by-one lengths. This is
//! deliberately not a full edit-distance computation.

use vstd::prelude::*;

verus! {

/// The sequence `s` with the character at `i` removed.
pub open spec fn remove_at(s: Seq<char>, i: int) -> Seq<char> {
    s.subrange(0, i) + s.skip(i + 1)
}

/// The number of positions at or after `i` where `a` and `b` disagree
/// (for sequences of equal length).
pub open spec fn count_diffs_from(a: Seq<char>, b: Seq<char>, i: int) -> nat
    decreases a.len() - i,
{
    if i < 0 || i >= a.len() {
        0
    } else {
        (if a[i] != b[i] {
            1nat
        } else {
            0nat
        }) + count_diffs_from(a, b, i + 1)
    }
}

/// The number of positions where `a` and `b` disagree.
pub open spec fn count_diffs(a: Seq<char>, b: Seq<char>) -> nat {
    count_diffs_from(a, b, 0)
}

/// Whether removing one character of `x` yields `y`.
pub open spec fn one_removal(x: Seq<char>, y: Seq<char>) -> bool {
    exists|i: int| 0 <= i < x.len() && remove_at(x, i) == y
}

/// Similarity of two strings under a single edit: with equal lengths, one
/// or two differing positions; with lengths one apart, some character of
/// the longer can be removed to give the shorter; otherwise not similar.
pub open spec fn similar_strings(a: Seq<char>, b: Seq<char>) -> bool {
    let x = if a.len() < b.len() {
        b
    } else {
        a
    };
    let y = if a.len() < b.len() {
        a
    } else {
        b
    };
    if x.len() == y.len() {
        1 <= count_diffs(x, y) <= 2
    } else if x.len() - y.len() > 1 {
        false
    } else {
        one_removal(x, y)
    }
}

/// Detects whether two strings are one edit apart, per `similar_strings`.
/// Equal strings are not similar, nor are strings whose lengths differ by
/// two or more.
#[verifier::loop_isolation(false)]
pub fn detect_similar_strings(a: &str, b: &str) -> (r: bool)
    ensures
        r == similar_strings(a@, b@),
{
    let alen = a.unicode_len();
    let blen = b.unicode_len();
    let swapped = alen < blen;
    let x = if swapped {
        b
    } else {
        a
    };
    let y = if swapped {
        a
    } else {
        b
    };
    let xlen = if swapped {
        blen
    } else {
        alen
    };
    let ylen = if swapped {
        alen
    } else {
        blen
    };
    if xlen == ylen {
        let mut diff: u64 = 0;
        let mut i: usize = 0;
        while i < xlen
            invariant
                i <= xlen,
                xlen == x@.len(),
                ylen == y@.len(),
                xlen == ylen,
                diff <= i,
                diff + count_diffs_from(x@, y@, i as int) == count_diffs(x@, y@),
            decreases xlen - i,
        {
            if x.get_char(i) != y.get_char(i) {
                diff = diff + 1;
            }
            i = i + 1;
        }
        1 <= diff && diff <= 2
    } else if xlen - ylen > 1 {
        false
    } else {
        // The longer string has exactly one extra character. Find the first
        // mismatch; the remainder of the longer string past it must equal
        // the remainder of the shorter string from it.
        let mut i: usize = 0;
        while i < ylen
            invariant
                i <= ylen,
                xlen == x@.len(),
                ylen == y@.len(),
                xlen == ylen + 1,
                forall|j: int| 0 <= j < i ==> x@[j] == y@[j],
            decreases ylen - i,
        {
            if x.get_char(i) != y.get_char(i) {
                // Check x[i + 1 ..] == y[i ..].
                let mut k: usize = i;
                let mut tail_eq: bool = true;
                let mut bad: usize = 0;
                while k < ylen
                    invariant
                        i <= k <= ylen,
                        xlen == x@.len(),
                        ylen == y@.len(),
                        xlen == ylen + 1,
                        tail_eq ==> forall|j: int| i <= j < k ==> x@[j + 1] == y@[j],
                        !tail_eq ==> i <= bad < ylen && x@[bad + 1] != y@[bad as int],
                    decreases ylen - k,
                {
                    if tail_eq && x.get_char(k + 1) != y.get_char(k) {
                        tail_eq = false;
                        bad = k;
                    }
                    k = k + 1;
                }
                if tail_eq {
                    proof {
                        let ga = a@;
                        let gb = b@;
                        let gx = if ga.len() < gb.len() { gb } else { ga };
                        let gy = if ga.len() < gb.len() { ga } else { gb };
                        assert(gx == x@ && gy == y@);
                        let w = i as int;
                        assert(remove_at(gx, w) =~= gy) by {
                            assert forall|j: int| 0 <= j < gy.len() implies remove_at(
                                gx,
                                w,
                            )[j] == gy[j] by {
                                if j < w {
                                    assert(remove_at(gx, w)[j] == gx[j]);
                                } else {
                                    assert(remove_at(gx, w)[j] == gx[j + 1]);
                                }
                            }
                        }
                        assert(0 <= w < gx.len() && remove_at(gx, w) == gy);
                        assert(one_removal(gx, gy));
                        assert(similar_strings(ga, gb));
                    }
                    return true;
                } else {
                    proof {
                        let ga = a@;
                        let gb = b@;
                        let gx = if ga.len() < gb.len() { gb } else { ga };
                        let gy = if ga.len() < gb.len() { ga } else { gb };
                        assert(gx == x@ && gy == y@);
                        let fm = i as int;
                        let kb = bad as int;
                        assert forall|j: int| 0 <= j < gx.len() implies remove_at(
                            gx,
                            j,
                        ) != gy by {
                            if remove_at(gx, j) == gy {
                                assert(remove_at(gx, j).len() == gy.len());
                                if j > fm {
                                    assert(remove_at(gx, j)[fm] == gx[fm]);
                                    assert(gx[fm] == gy[fm]);
                                    assert(false);
                                } else {
                                    assert(remove_at(gx, j)[kb] == gx[kb + 1]);
                                    assert(gx[kb + 1] == gy[kb]);
                                    assert(false);
                                }
                            }
                        }
                        assert(!one_removal(gx, gy));
                        assert(!similar_strings(ga, gb));
                    }
                    return false;
                }
            }
            i = i + 1;
        }
        // No mismatch in the shared prefix: the extra character is the last
        // one of the longer string.
        proof {
            let ga = a@;
            let gb = b@;
            let gx = if ga.len() < gb.len() { gb } else { ga };
            let gy = if ga.len() < gb.len() { ga } else { gb };
            assert(gx == x@ && gy == y@);
            let w = gx.len() - 1;
            assert(remove_at(gx, w) =~= gy);
            assert(0 <= w < gx.len() && remove_at(gx, w) == gy);
            assert(one_removal(gx, gy));
            assert(similar_strings(ga, gb));
        }
        true
    }
}

} // verus!
