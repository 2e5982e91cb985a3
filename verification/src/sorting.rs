//! The sorting routines exercised by the benchmark driver: bubble sort,
//! radix sort with its per-digit counting pass, the standard library sort,
//! and the helpers that copy inputs and check outputs.

use vstd::prelude::*;
use vstd::multiset::group_multiset_axioms;
use vstd::seq_lib::group_to_multiset_ensures;

verus! {

/// A sequence in ascending order.
pub open spec fn sorted(s: Seq<i16>) -> bool {
    forall|p: int, q: int| 0 <= p <= q < s.len() ==> s[p] <= s[q]
}

/// The decimal digit of `v` selected by the divisor `exp` (1 for the ones
/// digit, 10 for the tens digit, and so on).
pub open spec fn digit_at(v: i16, exp: int) -> int {
    (v as int / exp) % 10
}

/// A fresh copy of the input data.
pub fn copy_vec(src: &Vec<i16>) -> (r: Vec<i16>)
    ensures
        r@ == src@,
{
    let mut out: Vec<i16> = Vec::new();
    let mut i: usize = 0;
    while i < src.len()
        invariant
            i <= src@.len(),
            out@ == src@.subrange(0, i as int),
        decreases src@.len() - i,
    {
        out.push(src[i]);
        proof {
            assert(out@ =~= src@.subrange(0, i + 1));
        }
        i = i + 1;
    }
    proof {
        assert(out@ =~= src@);
    }
    out
}

/// Whether the data matches the expected sequence exactly: same length and
/// the same value at every index.
pub fn check_results(data: &Vec<i16>, expected: &Vec<i16>) -> (r: bool)
    ensures
        r == (data@ == expected@),
{
    if data.len() != expected.len() {
        return false;
    }
    let mut i: usize = 0;
    while i < data.len()
        invariant
            i <= data@.len(),
            data@.len() == expected@.len(),
            forall|k: int| 0 <= k < i ==> data@[k] == expected@[k],
        decreases data@.len() - i,
    {
        if data[i] != expected[i] {
            return false;
        }
        i = i + 1;
    }
    proof {
        assert(data@ =~= expected@);
    }
    true
}

/// Swapping two positions of a sequence keeps its elements.
proof fn lemma_swap_multiset(s: Seq<i16>, j: int, k: int)
    requires
        0 <= j < s.len(),
        0 <= k < s.len(),
        j != k,
    ensures
        s.update(j, s[k]).update(k, s[j]).to_multiset() == s.to_multiset(),
{
    broadcast use group_to_multiset_ensures, group_multiset_axioms;

    let a = s[j];
    let b = s[k];
    let s1 = s.update(j, b);
    let s2 = s1.update(k, a);
    assert(s1.to_multiset() == s.to_multiset().insert(b).remove(a));
    assert(s1[k] == b);
    assert(s2.to_multiset() == s1.to_multiset().insert(a).remove(b));
    assert(s.contains(a)) by {
        assert(s[j] == a);
    }
    assert(s.to_multiset().count(a) > 0);
    assert forall|x: i16| s2.to_multiset().count(x) == s.to_multiset().count(x) by {
        let m0 = s.to_multiset();
        assert(m0.insert(b).count(x) == m0.count(x) + (if x == b {
            1int
        } else {
            0int
        }));
        assert(m0.insert(b).count(a) > 0);
        assert(m0.insert(b).remove(a).count(x) == m0.insert(b).count(x) - (if x == a {
            1int
        } else {
            0int
        }));
        assert(s1.to_multiset().insert(a).count(x) == s1.to_multiset().count(x) + (if x == a {
            1int
        } else {
            0int
        }));
        assert(s1.to_multiset().insert(a).count(b) > 0);
        assert(s2.to_multiset().count(x) == s1.to_multiset().insert(a).count(x) - (if x == b {
            1int
        } else {
            0int
        }));
    }
    assert(s2.to_multiset() =~= s.to_multiset());
}

/// Sorts the data in place by repeated adjacent swaps: ascending order,
/// with exactly the elements it held before.
pub fn bubble_sort(data: &mut Vec<i16>)
    ensures
        sorted(final(data)@),
        final(data)@.to_multiset() == old(data)@.to_multiset(),
{
    broadcast use group_to_multiset_ensures, group_multiset_axioms;

    let n = data.len();
    if n == 0 {
        return;
    }
    let mut i: usize = 0;
    while i < n
        invariant
            n == data@.len(),
            i <= n,
            data@.to_multiset() == old(data)@.to_multiset(),
            forall|p: int, q: int| 0 <= p < n - i && n - i <= q < n ==> data@[p] <= data@[q],
            forall|p: int, q: int| n - i <= p <= q < n ==> data@[p] <= data@[q],
        decreases n - i,
    {
        let mut j: usize = 0;
        while j < n - i - 1
            invariant
                n == data@.len(),
                i < n,
                j <= n - i - 1,
                data@.to_multiset() == old(data)@.to_multiset(),
                forall|p: int, q: int| 0 <= p < n - i && n - i <= q < n ==> data@[p] <= data@[q],
                forall|p: int, q: int| n - i <= p <= q < n ==> data@[p] <= data@[q],
                forall|p: int| 0 <= p <= j ==> data@[p] <= data@[j as int],
            decreases n - i - 1 - j,
        {
            if data[j] > data[j + 1] {
                let ghost s0 = data@;
                let a = data[j];
                let b = data[j + 1];
                data.set(j, b);
                data.set(j + 1, a);
                proof {
                    assert(data@ == s0.update(j as int, b).update(j + 1, a));
                    lemma_swap_multiset(s0, j as int, j + 1);
                }
            }
            j = j + 1;
        }
        i = i + 1;
    }
    proof {
        assert(sorted(data@));
    }
}

/// Keys `v % m` in non-decreasing order.
pub open spec fn sorted_by_mod(s: Seq<i16>, m: int) -> bool {
    forall|p: int, q: int| 0 <= p <= q < s.len() ==> (s[p] as int) % m <= (s[q] as int) % m
}

/// The elements of `s` whose digit selected by `exp` is `d`, in their
/// original order.
pub open spec fn digit_bucket(s: Seq<i16>, exp: int, d: int) -> Seq<i16> {
    s.filter(|v: i16| digit_at(v, exp) == d)
}

/// The buckets for digits below `d`, concatenated in ascending digit order.
pub open spec fn cat_buckets(s: Seq<i16>, exp: int, d: int) -> Seq<i16>
    decreases d,
{
    if d <= 0 {
        Seq::empty()
    } else {
        cat_buckets(s, exp, d - 1) + digit_bucket(s, exp, d - 1)
    }
}

/// What one stable counting pass yields: the digit-0 elements in input
/// order, then the digit-1 elements in input order, and so on. Elements
/// with equal selected digit keep their relative order.
pub open spec fn spec_counting_sort(s: Seq<i16>, exp: int) -> Seq<i16> {
    cat_buckets(s, exp, 10)
}

/// Elements with equal selected digit appear in non-decreasing `% exp`
/// order.
spec fn stable_keys(s: Seq<i16>, exp: int) -> bool {
    forall|a: int, b: int|
        0 <= a <= b < s.len() && digit_at(s[a], exp) == digit_at(s[b], exp) ==> (s[a] as int) % exp
            <= (s[b] as int) % exp
}

/// Filtering a bucket after a push keeps the earlier elements and appends
/// the new one exactly when its digit matches.
proof fn lemma_bucket_push(s: Seq<i16>, exp: int, d: int, v: i16)
    ensures
        digit_bucket(s.push(v), exp, d) == if digit_at(v, exp) == d {
            digit_bucket(s, exp, d).push(v)
        } else {
            digit_bucket(s, exp, d)
        },
{
    reveal(Seq::<i16>::filter);
    assert(s.push(v).drop_last() =~= s);
    assert(s.push(v).last() == v);
}

/// One stable counting pass of radix sort: the result is exactly the
/// digit buckets of the input concatenated in ascending digit order
/// ([`spec_counting_sort`]), so the selected digits are non-decreasing,
/// elements with equal selected digit keep their relative order, and the
/// data keeps exactly the elements it held. When the input was ordered by
/// `v % exp`, the output is ordered by `v % (exp * 10)` — the step that
/// makes radix sort correct. Requires non-negative data, as radix sort
/// does.
pub fn counting_sort(data: &mut Vec<i16>, exp: i32)
    requires
        exp >= 1,
        forall|k: int| 0 <= k < old(data)@.len() ==> old(data)@[k] >= 0,
    ensures
        final(data)@ == spec_counting_sort(old(data)@, exp as int),
        final(data)@.len() == old(data)@.len(),
        final(data)@.to_multiset() == old(data)@.to_multiset(),
        forall|k: int| 0 <= k < final(data)@.len() ==> final(data)@[k] >= 0,
        forall|p: int, q: int|
            0 <= p <= q < final(data)@.len() ==> digit_at(final(data)@[p], exp as int) <= digit_at(
                final(data)@[q],
                exp as int,
            ),
        sorted_by_mod(old(data)@, exp as int) ==> sorted_by_mod(final(data)@, (exp as int) * 10),
{
    broadcast use group_to_multiset_ensures, group_multiset_axioms;

    let ghost orig = data@;
    let n = data.len();
    let mut out: Vec<i16> = Vec::new();
    let mut d: i32 = 0;
    proof {
        assert(out@ =~= cat_buckets(orig, exp as int, 0));
    }
    while d < 10
        invariant
            n == orig.len(),
            data@ == orig,
            exp >= 1,
            forall|k: int| 0 <= k < orig.len() ==> orig[k] >= 0,
            0 <= d <= 10,
            out@ == cat_buckets(orig, exp as int, d as int),
            forall|x: i16|
                digit_at(x, exp as int) < d ==> out@.to_multiset().count(x)
                    == orig.to_multiset().count(x),
            forall|x: i16|
                digit_at(x, exp as int) >= d ==> out@.to_multiset().count(x) == 0,
            forall|k: int| 0 <= k < out@.len() ==> out@[k] >= 0,
            forall|k: int| 0 <= k < out@.len() ==> digit_at(out@[k], exp as int) < d,
            forall|p: int, q: int|
                0 <= p <= q < out@.len() ==> digit_at(out@[p], exp as int) <= digit_at(
                    out@[q],
                    exp as int,
                ),
            sorted_by_mod(orig, exp as int) ==> stable_keys(out@, exp as int),
        decreases 10 - d,
    {
        let mut i: usize = 0;
        proof {
            broadcast use group_to_multiset_ensures, group_multiset_axioms;

            assert(orig.subrange(0, 0) =~= Seq::<i16>::empty());
            assert(orig.subrange(0, 0).to_multiset().len() == 0);
            assert forall|x: i16| orig.subrange(0, 0).to_multiset().count(x) == 0 by {
                assert(orig.subrange(0, 0).to_multiset().count(x) <= orig.subrange(
                    0,
                    0,
                ).to_multiset().len());
            }
            assert(digit_bucket(orig.subrange(0, 0), exp as int, d as int) =~= Seq::<
                i16,
            >::empty()) by {
                reveal(Seq::<i16>::filter);
            }
            assert(out@ =~= cat_buckets(orig, exp as int, d as int) + digit_bucket(
                orig.subrange(0, 0),
                exp as int,
                d as int,
            ));
        }
        while i < n
            invariant
                n == orig.len(),
                data@ == orig,
                exp >= 1,
                forall|k: int| 0 <= k < orig.len() ==> orig[k] >= 0,
                0 <= d < 10,
                i <= n,
                out@ == cat_buckets(orig, exp as int, d as int) + digit_bucket(
                    orig.subrange(0, i as int),
                    exp as int,
                    d as int,
                ),
                forall|x: i16|
                    digit_at(x, exp as int) < d ==> out@.to_multiset().count(x)
                        == orig.to_multiset().count(x),
                forall|x: i16|
                    digit_at(x, exp as int) == d ==> out@.to_multiset().count(x) == orig.subrange(
                        0,
                        i as int,
                    ).to_multiset().count(x),
                forall|x: i16|
                    digit_at(x, exp as int) > d ==> out@.to_multiset().count(x) == 0,
                forall|k: int| 0 <= k < out@.len() ==> out@[k] >= 0,
                forall|k: int| 0 <= k < out@.len() ==> digit_at(out@[k], exp as int) <= d,
                forall|p: int, q: int|
                    0 <= p <= q < out@.len() ==> digit_at(out@[p], exp as int) <= digit_at(
                        out@[q],
                        exp as int,
                    ),
                sorted_by_mod(orig, exp as int) ==> stable_keys(out@, exp as int),
                sorted_by_mod(orig, exp as int) ==> forall|a: int, k: int|
                    0 <= a < out@.len() && digit_at(out@[a], exp as int) == d && i <= k < n ==> (
                    out@[a] as int) % (exp as int) <= (orig[k] as int) % (exp as int),
            decreases n - i,
        {
            let v = data[i];
            let digit = (v as i32 / exp) % 10;
            let ghost pre = out@;
            if digit == d {
                out.push(v);
            }
            proof {
                broadcast use group_to_multiset_ensures, group_multiset_axioms;

                let e: int = exp as int;
                let sub0 = orig.subrange(0, i as int);
                let sub1 = orig.subrange(0, i + 1);
                assert(sub1 =~= sub0.push(v));
                assert(digit as int == digit_at(v, e));
                assert(sub0.push(v).to_multiset() =~= sub0.to_multiset().insert(v));
                assert(sub1.to_multiset() == sub0.to_multiset().insert(v));
                lemma_bucket_push(sub0, e, d as int, v);
                if digit == d {
                    assert(out@ == pre.push(v));
                    assert(pre.push(v).to_multiset() =~= pre.to_multiset().insert(v));
                    assert(out@.to_multiset() == pre.to_multiset().insert(v));
                    assert forall|x: i16|
                        x != v implies out@.to_multiset().count(x) == pre.to_multiset().count(x)
                            && sub1.to_multiset().count(x) == sub0.to_multiset().count(x) by {}
                    assert(out@.to_multiset().count(v) == pre.to_multiset().count(v) + 1);
                    assert(sub1.to_multiset().count(v) == sub0.to_multiset().count(v) + 1);
                    assert(out@ =~= cat_buckets(orig, e, d as int) + digit_bucket(
                        sub1,
                        e,
                        d as int,
                    ));
                    if sorted_by_mod(orig, e) {
                        assert forall|a: int, b: int|
                            0 <= a <= b < out@.len() && digit_at(out@[a], e) == digit_at(
                                out@[b],
                                e,
                            ) implies (out@[a] as int) % e <= (out@[b] as int) % e by {
                            if b == out@.len() - 1 && a < b {
                                assert(out@[b] == v);
                                assert(out@[a] == pre[a]);
                                if digit_at(pre[a], e) == d {
                                    assert((pre[a] as int) % e <= (orig[i as int] as int) % e);
                                }
                            }
                        }
                        assert forall|a: int, k: int|
                            0 <= a < out@.len() && digit_at(out@[a], e) == d && i + 1 <= k
                                < n implies (out@[a] as int) % e <= (orig[k] as int) % e by {
                            if a == out@.len() - 1 {
                                assert(out@[a] == v);
                                assert((orig[i as int] as int) % e <= (orig[k] as int) % e);
                            } else {
                                assert(out@[a] == pre[a]);
                            }
                        }
                    }
                } else {
                    assert(out@ == pre);
                    assert forall|x: i16|
                        x != v implies sub1.to_multiset().count(x) == sub0.to_multiset().count(
                            x,
                        ) by {}
                    assert(digit_bucket(sub1, e, d as int) == digit_bucket(sub0, e, d as int));
                }
            }
            i = i + 1;
        }
        proof {
            broadcast use group_to_multiset_ensures, group_multiset_axioms;

            assert(orig.subrange(0, n as int) =~= orig);
            assert(out@ =~= cat_buckets(orig, exp as int, d as int) + digit_bucket(
                orig,
                exp as int,
                d as int,
            ));
            assert(out@ =~= cat_buckets(orig, exp as int, d + 1));
        }
        d = d + 1;
    }
    proof {
        assert forall|x: i16| out@.to_multiset().count(x) == orig.to_multiset().count(x) by {
            if digit_at(x, exp as int) >= 10 || digit_at(x, exp as int) < 0 {
                assert(!orig.contains(x)) by {
                    if orig.contains(x) {
                        let k = choose|k: int| 0 <= k < orig.len() && orig[k] == x;
                        assert(x >= 0);
                        assert(0 <= digit_at(x, exp as int) < 10);
                    }
                }
                assert(orig.to_multiset().count(x) == 0);
                if out@.contains(x) {
                    let k = choose|k: int| 0 <= k < out@.len() && out@[k] == x;
                    assert(digit_at(out@[k], exp as int) < 10);
                    assert(x >= 0);
                    assert(0 <= digit_at(x, exp as int));
                }
                assert(out@.to_multiset().count(x) == 0);
            }
        }
        assert(out@.to_multiset() =~= orig.to_multiset());
        assert(out@.len() == out@.to_multiset().len());
        assert(orig.len() == orig.to_multiset().len());
        if sorted_by_mod(orig, exp as int) {
            let e: int = exp as int;
            assert forall|p: int, q: int| 0 <= p <= q < out@.len() implies (out@[p] as int) % (e
                * 10) <= (out@[q] as int) % (e * 10) by {
                let x: int = out@[p] as int;
                let y: int = out@[q] as int;
                vstd::arithmetic::div_mod::lemma_mod_breakdown(x, e, 10);
                vstd::arithmetic::div_mod::lemma_mod_breakdown(y, e, 10);
                assert(digit_at(out@[p], e) <= digit_at(out@[q], e));
                if digit_at(out@[p], e) < digit_at(out@[q], e) {
                    assert(e >= 1 && (x / e) % 10 < (y / e) % 10 && 0 <= x % e < e && 0 <= y % e
                        ==> e * ((x / e) % 10) + x % e < e * ((y / e) % 10) + y % e)
                        by (nonlinear_arith);
                } else {
                    assert((x) % e <= (y) % e);
                }
            }
            assert(sorted_by_mod(out@, e * 10));
        }
    }
    *data = out;
}

/// Sorts non-negative data in place by successive stable counting passes
/// over the decimal digits, least significant first: ascending order, with
/// exactly the elements the data held before.
pub fn radix_sort(data: &mut Vec<i16>)
    requires
        forall|k: int| 0 <= k < old(data)@.len() ==> old(data)@[k] >= 0,
    ensures
        sorted(final(data)@),
        final(data)@.len() == old(data)@.len(),
        final(data)@.to_multiset() == old(data)@.to_multiset(),
{
    broadcast use group_to_multiset_ensures, group_multiset_axioms;

    if data.len() == 0 {
        return;
    }
    let mut max: i16 = data[0];
    let mut i: usize = 1;
    while i < data.len()
        invariant
            1 <= i <= data@.len(),
            forall|k: int| 0 <= k < data@.len() ==> data@[k] >= 0,
            max >= 0,
            forall|k: int| 0 <= k < i ==> data@[k] <= max,
        decreases data@.len() - i,
    {
        if data[i] > max {
            max = data[i];
        }
        i = i + 1;
    }
    proof {
        assert forall|p: int, q: int|
            0 <= p <= q < data@.len() implies (data@[p] as int) % 1 <= (data@[q] as int) % 1 by {
            assert((data@[p] as int) % 1 == 0 && (data@[q] as int) % 1 == 0) by (nonlinear_arith);
        }
        assert(sorted_by_mod(data@, 1));
    }
    let mut exp: i32 = 1;
    while (max as i32) / exp > 0
        invariant
            1 <= exp <= 400000,
            0 <= max <= 32767,
            data@.len() == old(data)@.len(),
            data@.to_multiset() == old(data)@.to_multiset(),
            forall|k: int| 0 <= k < data@.len() ==> data@[k] >= 0,
            forall|k: int| 0 <= k < data@.len() ==> data@[k] <= max,
            sorted_by_mod(data@, exp as int),
        decreases (max as int) / (exp as int),
    {
        let ghost before = data@;
        counting_sort(data, exp);
        proof {
            broadcast use group_to_multiset_ensures, group_multiset_axioms;

            let m: int = max as int;
            let e: int = exp as int;
            assert(m >= 0 && e >= 1 && m / e > 0 ==> m / (e * 10) < m / e && 0 <= m / (e * 10))
                by (nonlinear_arith);
            assert(e >= 1 && m <= 32767 && m / e > 0 ==> e <= 32767) by (nonlinear_arith);
            assert forall|k: int| 0 <= k < data@.len() implies data@[k] <= max by {
                assert(data@.contains(data@[k]));
                assert(data@.to_multiset().count(data@[k]) > 0);
                assert(before.to_multiset().count(data@[k]) > 0);
                assert(before.contains(data@[k]));
                let j = choose|j: int| 0 <= j < before.len() && before[j] == data@[k];
                assert(before[j] <= max);
            }
        }
        exp = exp * 10;
    }
    proof {
        let e: int = exp as int;
        assert((max as int) >= 0 && e >= 1 && (max as int) / e <= 0 ==> (max as int) < e)
            by (nonlinear_arith);
        assert forall|p: int, q: int| 0 <= p <= q < data@.len() implies data@[p] <= data@[q] by {
            let x: int = data@[p] as int;
            let y: int = data@[q] as int;
            assert(0 <= x < e ==> x % e == x) by (nonlinear_arith);
            assert(0 <= y < e ==> y % e == y) by (nonlinear_arith);
        }
        assert(sorted(data@));
    }
}

/// Relies on `<[i16]>::sort` through `Vec`'s slice deref: sorts the
/// elements in ascending order, in place; the documentation promises a
/// sort, so the vector afterwards holds exactly the elements it held
/// before, in ascending order.
#[verifier::external_body]
fn std_sort(data: &mut Vec<i16>)
    ensures
        sorted(final(data)@),
        final(data)@.to_multiset() == old(data)@.to_multiset(),
{
    data.sort();
}

/// Sorts the data in place with the standard library's sort: ascending
/// order, with exactly the elements it held before.
pub fn builtin_sort(data: &mut Vec<i16>)
    ensures
        sorted(final(data)@),
        final(data)@.to_multiset() == old(data)@.to_multiset(),
{
    std_sort(data);
}

} // verus!
