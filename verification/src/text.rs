//! Verified text scanning primitives over character sequences.
//!
//! All substitution and parsing in this crate is built from these functions:
//! first-occurrence search, non-overlapping left-to-right replacement, and
//! separator splitting.

use vstd::prelude::*;

verus! {

/// `pat` occurs in `hay` starting at index `i`.
pub open spec fn contains_at(hay: Seq<char>, pat: Seq<char>, i: int) -> bool {
    0 <= i && i + pat.len() <= hay.len() && hay.subrange(i, i + pat.len()) == pat
}

/// Index of the first occurrence of `pat` in `hay`, if any.
pub open spec fn spec_find(hay: Seq<char>, pat: Seq<char>) -> Option<int>
    decreases hay.len(),
{
    if hay.len() < pat.len() || hay.len() == 0 {
        if pat.len() == 0 && hay.len() >= 0 && hay.subrange(0, 0) == pat {
            Some(0)
        } else {
            None
        }
    } else if hay.subrange(0, pat.len() as int) == pat {
        Some(0)
    } else {
        match spec_find(hay.skip(1), pat) {
            Some(i) => Some(i + 1),
            None => None,
        }
    }
}

/// `spec_find` returns exactly the least index at which `pat` occurs.
pub proof fn lemma_find_characterization(hay: Seq<char>, pat: Seq<char>)
    ensures
        match spec_find(hay, pat) {
            Some(i) => contains_at(hay, pat, i) && forall|j: int|
                0 <= j < i ==> !contains_at(hay, pat, j),
            None => forall|j: int| !contains_at(hay, pat, j),
        },
    decreases hay.len(),
{
    if hay.len() < pat.len() || hay.len() == 0 {
    } else if hay.subrange(0, pat.len() as int) == pat {
    } else {
        lemma_find_characterization(hay.skip(1), pat);
        assert forall|j: int| 1 <= j && j + pat.len() <= hay.len() implies contains_at(
            hay,
            pat,
            j,
        ) == contains_at(hay.skip(1), pat, j - 1) by {
            assert(hay.subrange(j, j + pat.len()) =~= hay.skip(1).subrange(
                j - 1,
                j - 1 + pat.len(),
            ));
        }
    }
}

/// Whether `pat` occurs in `hay` at index `i`.
pub fn match_at(hay: &Vec<char>, pat: &Vec<char>, i: usize) -> (r: bool)
    ensures
        r == contains_at(hay@, pat@, i as int),
{
    let n: usize = hay.len();
    let m: usize = pat.len();
    if i > n || m > n - i {
        proof {
            assert(!contains_at(hay@, pat@, i as int));
        }
        return false;
    }
    let mut k: usize = 0;
    while k < m
        invariant
            n == hay@.len(),
            m == pat@.len(),
            i + m <= n,
            k <= m,
            forall|t: int| 0 <= t < k ==> hay@[i + t] == pat@[t],
        decreases m - k,
    {
        if hay[i + k] != pat[k] {
            proof {
                assert(hay@.subrange(i as int, i + pat@.len())[k as int] == hay@[i + k]);
                assert(hay@.subrange(i as int, i + pat@.len()) != pat@);
            }
            return false;
        }
        k = k + 1;
    }
    proof {
        assert(hay@.subrange(i as int, i + pat@.len()) =~= pat@);
    }
    true
}

/// Index of the first occurrence of `pat` at or after `start`, if any.
pub fn find_from(hay: &Vec<char>, pat: &Vec<char>, start: usize) -> (r: Option<usize>)
    ensures
        match r {
            Some(i) => start <= i && contains_at(hay@, pat@, i as int) && forall|j: int|
                start <= j < i ==> !contains_at(hay@, pat@, j),
            None => forall|j: int| start <= j ==> !contains_at(hay@, pat@, j),
        },
{
    let n: usize = hay.len();
    if start > n {
        proof {
            assert forall|j: int| start <= j implies !contains_at(hay@, pat@, j) by {}
        }
        return None;
    }
    let mut i: usize = start;
    loop
        invariant
            n == hay@.len(),
            start <= i <= n,
            forall|j: int| start <= j < i ==> !contains_at(hay@, pat@, j),
        decreases n - i,
    {
        if match_at(hay, pat, i) {
            return Some(i);
        }
        if i == n {
            proof {
                assert forall|j: int| start <= j implies !contains_at(hay@, pat@, j) by {
                    if j <= hay@.len() {
                        assert(!contains_at(hay@, pat@, j));
                    }
                }
            }
            return None;
        }
        i = i + 1;
    }
}

/// `hay` with every occurrence of `pat` replaced by `to`, scanning left to
/// right without rescanning replacements; an empty `pat` leaves `hay`
/// unchanged.
pub open spec fn spec_replace(hay: Seq<char>, pat: Seq<char>, to: Seq<char>) -> Seq<char>
    decreases hay.len(),
{
    if pat.len() == 0 || hay.len() < pat.len() {
        hay
    } else if hay.subrange(0, pat.len() as int) == pat {
        to + spec_replace(hay.skip(pat.len() as int), pat, to)
    } else {
        seq![hay[0]] + spec_replace(hay.skip(1), pat, to)
    }
}

/// Replace every occurrence of `pat` in `hay` by `to`, left to right,
/// without rescanning replaced text.
pub fn replace_chars(hay: &Vec<char>, pat: &Vec<char>, to: &Vec<char>) -> (r: Vec<char>)
    requires
        pat@.len() > 0,
    ensures
        r@ == spec_replace(hay@, pat@, to@),
{
    let mut out: Vec<char> = Vec::new();
    let mut i: usize = 0;
    proof {
        assert(hay@.skip(0) =~= hay@);
        assert(Seq::<char>::empty() + spec_replace(hay@, pat@, to@) =~= spec_replace(
            hay@,
            pat@,
            to@,
        ));
    }
    while i < hay.len()
        invariant
            pat@.len() > 0,
            i <= hay@.len(),
            spec_replace(hay@, pat@, to@) == out@ + spec_replace(hay@.skip(i as int), pat@, to@),
        decreases hay@.len() - i,
    {
        let ghost pre = out@;
        let ghost rest = hay@.skip(i as int);
        if match_at(hay, pat, i) {
            let mut k: usize = 0;
            while k < to.len()
                invariant
                    k <= to@.len(),
                    out@ == pre + to@.subrange(0, k as int),
                decreases to@.len() - k,
            {
                out.push(to[k]);
                k = k + 1;
                proof {
                    assert(out@ =~= pre + to@.subrange(0, k as int));
                }
            }
            proof {
                assert(rest.subrange(0, pat@.len() as int) =~= hay@.subrange(
                    i as int,
                    i + pat@.len(),
                ));
                assert(rest.skip(pat@.len() as int) =~= hay@.skip(i + pat@.len()));
                assert(out@ =~= pre + to@);
                assert(pre + (to@ + spec_replace(hay@.skip(i + pat@.len()), pat@, to@)) =~= (pre
                    + to@) + spec_replace(hay@.skip(i + pat@.len()), pat@, to@));
            }
            i = i + pat.len();
        } else {
            out.push(hay[i]);
            proof {
                if rest.len() >= pat@.len() {
                    assert(rest.subrange(0, pat@.len() as int) =~= hay@.subrange(
                        i as int,
                        i + pat@.len(),
                    ));
                }
                assert(rest.skip(1) =~= hay@.skip(i + 1));
                assert(spec_replace(rest, pat@, to@) == seq![hay@[i as int]] + spec_replace(
                    hay@.skip(i + 1),
                    pat@,
                    to@,
                ));
                assert(pre + (seq![hay@[i as int]] + spec_replace(hay@.skip(i + 1), pat@, to@))
                    =~= (pre + seq![hay@[i as int]]) + spec_replace(hay@.skip(i + 1), pat@, to@));
                assert(out@ =~= pre + seq![hay@[i as int]]);
            }
            i = i + 1;
        }
    }
    proof {
        assert(hay@.skip(i as int) =~= Seq::<char>::empty());
        assert(out@ + Seq::<char>::empty() =~= out@);
    }
    out
}

/// Split `hay` on each occurrence of `sep`, dropping one trailing empty
/// segment (terminator semantics): splitting the empty string gives no
/// segments, and a string ending in `sep` gives no final empty segment.
pub open spec fn spec_split(hay: Seq<char>, sep: Seq<char>) -> Seq<Seq<char>>
    decreases hay.len(),
{
    if sep.len() == 0 {
        seq![hay]
    } else {
        match spec_find(hay, sep) {
            None => if hay.len() == 0 {
                seq![]
            } else {
                seq![hay]
            },
            Some(i) => if 0 <= i && i + sep.len() <= hay.len() {
                seq![hay.subrange(0, i)] + spec_split(hay.skip(i + sep.len()), sep)
            } else {
                seq![]
            },
        }
    }
}

/// The relation `spec_find` bears to scanning from an offset: searching the
/// suffix is searching the whole from that offset.
pub proof fn lemma_find_skip(hay: Seq<char>, pat: Seq<char>, start: int, r: Option<int>)
    requires
        0 <= start <= hay.len(),
        match r {
            Some(i) => start <= i && contains_at(hay, pat, i) && forall|j: int|
                start <= j < i ==> !contains_at(hay, pat, j),
            None => forall|j: int| start <= j ==> !contains_at(hay, pat, j),
        },
    ensures
        match r {
            Some(i) => spec_find(hay.skip(start), pat) == Some(i - start),
            None => spec_find(hay.skip(start), pat) == None::<int>,
        },
{
    let suf = hay.skip(start);
    lemma_find_characterization(suf, pat);
    assert forall|j: int| 0 <= j implies contains_at(suf, pat, j) == contains_at(
        hay,
        pat,
        start + j,
    ) by {
        if j + pat.len() <= suf.len() {
            assert(suf.subrange(j, j + pat.len()) =~= hay.subrange(
                start + j,
                start + j + pat.len(),
            ));
        }
    }
    match r {
        Some(i) => {
            assert(contains_at(suf, pat, i - start));
            match spec_find(suf, pat) {
                Some(k) => {
                    assert(contains_at(hay, pat, start + k));
                    if k < i - start {
                        assert(false);
                    }
                    if k > i - start {
                        assert(!contains_at(suf, pat, i - start));
                        assert(false);
                    }
                },
                None => {
                    assert(!contains_at(suf, pat, i - start));
                    assert(false);
                },
            }
        },
        None => {
            match spec_find(suf, pat) {
                Some(k) => {
                    assert(contains_at(hay, pat, start + k));
                    assert(false);
                },
                None => {},
            }
        },
    }
}

/// Copy `hay[from..to]` into a fresh vector.
pub fn copy_range(hay: &Vec<char>, from: usize, to: usize) -> (r: Vec<char>)
    requires
        from <= to <= hay@.len(),
    ensures
        r@ == hay@.subrange(from as int, to as int),
{
    let mut seg: Vec<char> = Vec::new();
    let mut k: usize = from;
    while k < to
        invariant
            from <= k <= to <= hay@.len(),
            seg@ == hay@.subrange(from as int, k as int),
        decreases to - k,
    {
        seg.push(hay[k]);
        k = k + 1;
        proof {
            assert(seg@ =~= hay@.subrange(from as int, k as int));
        }
    }
    seg
}

/// Split `hay` on each occurrence of `sep` (terminator semantics).
pub fn split_chars(hay: &Vec<char>, sep: &Vec<char>) -> (r: Vec<Vec<char>>)
    requires
        sep@.len() > 0,
    ensures
        r.deep_view() == spec_split(hay@, sep@),
{
    let mut out: Vec<Vec<char>> = Vec::new();
    let mut pos: usize = 0;
    proof {
        assert(hay@.skip(0) =~= hay@);
        assert(out.deep_view() =~= Seq::<Seq<char>>::empty());
        assert(Seq::<Seq<char>>::empty() + spec_split(hay@, sep@) =~= spec_split(hay@, sep@));
    }
    loop
        invariant
            sep@.len() > 0,
            pos <= hay@.len(),
            spec_split(hay@, sep@) == out.deep_view() + spec_split(hay@.skip(pos as int), sep@),
        decreases hay@.len() - pos,
    {
        let ghost rest = hay@.skip(pos as int);
        let r = find_from(hay, sep, pos);
        proof {
            match r {
                Some(i) => lemma_find_skip(hay@, sep@, pos as int, Some(i as int)),
                None => lemma_find_skip(hay@, sep@, pos as int, None),
            }
        }
        match r {
            Some(i) => {
                let seg = copy_range(hay, pos, i);
                let ghost old_deep = out.deep_view();
                proof {
                    assert(seg@ =~= rest.subrange(0, i - pos));
                    assert(rest.skip(i - pos + sep@.len()) =~= hay@.skip(i + sep@.len()));
                }
                out.push(seg);
                proof {
                    assert(seg.deep_view() =~= seg@);
                    assert(out.deep_view() =~= old_deep.push(seg@));
                    assert(old_deep + (seq![seg@] + spec_split(hay@.skip(i + sep@.len()), sep@))
                        =~= old_deep.push(seg@) + spec_split(hay@.skip(i + sep@.len()), sep@));
                    assert(i + sep@.len() <= hay@.len());
                }
                let n: usize = hay.len();
                assert(i + sep@.len() <= n);
                pos = i + sep.len();
            },
            None => {
                if pos == hay.len() {
                    proof {
                        assert(rest =~= Seq::<char>::empty());
                        assert(spec_split(rest, sep@) =~= Seq::<Seq<char>>::empty());
                        assert(out.deep_view() + Seq::<Seq<char>>::empty() =~= out.deep_view());
                    }
                    return out;
                }
                let seg = copy_range(hay, pos, hay.len());
                let ghost old_deep = out.deep_view();
                proof {
                    assert(seg@ =~= rest);
                    assert(spec_split(rest, sep@) =~= seq![rest]);
                }
                out.push(seg);
                proof {
                    assert(seg.deep_view() =~= seg@);
                    assert(out.deep_view() =~= old_deep.push(seg@));
                    assert(old_deep + seq![rest] =~= old_deep.push(rest));
                }
                return out;
            },
        }
    }
}

} // verus!
