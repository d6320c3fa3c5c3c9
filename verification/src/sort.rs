//! Sorting the joined records by local port, ascending and stable.

use vstd::prelude::*;
use crate::model::{SocketInfo, SocketRow};

verus! {

/// Ports ascending.
pub open spec fn sorted_by_port(s: Seq<SocketRow>) -> bool {
    forall|i: int, j: int| 0 <= i < j < s.len() ==> s[i].local_port <= s[j].local_port
}

/// The subsequence of records with local port `p`, in order.
pub open spec fn with_port(s: Seq<SocketRow>, p: u16) -> Seq<SocketRow> {
    s.filter(|r: SocketRow| r.local_port == p)
}

/// `x` inserted into `s` after every element whose local port is less than
/// or equal to `x`'s: the stable insertion position.
pub open spec fn spec_insert_sorted(x: SocketRow, s: Seq<SocketRow>) -> Seq<SocketRow>
    decreases s.len(),
{
    if s.len() == 0 {
        seq![x]
    } else if s.last().local_port <= x.local_port {
        s.push(x)
    } else {
        spec_insert_sorted(x, s.drop_last()).push(s.last())
    }
}

/// Stable sort by local port: the elements inserted left to right, each at
/// its stable insertion position.
pub open spec fn spec_sort(s: Seq<SocketRow>) -> Seq<SocketRow>
    decreases s.len(),
{
    if s.len() == 0 {
        Seq::empty()
    } else {
        spec_insert_sorted(s.last(), spec_sort(s.drop_last()))
    }
}

proof fn lemma_insert_sorted_len(x: SocketRow, s: Seq<SocketRow>)
    ensures
        spec_insert_sorted(x, s).len() == s.len() + 1,
    decreases s.len(),
{
    if s.len() > 0 && !(s.last().local_port <= x.local_port) {
        lemma_insert_sorted_len(x, s.drop_last());
    }
}

proof fn lemma_insert_sorted_ub(x: SocketRow, s: Seq<SocketRow>, b: u16)
    requires
        x.local_port <= b,
        forall|i: int| 0 <= i < s.len() ==> s[i].local_port <= b,
    ensures
        forall|i: int|
            0 <= i < spec_insert_sorted(x, s).len() ==> spec_insert_sorted(x, s)[i].local_port
                <= b,
    decreases s.len(),
{
    if s.len() > 0 && !(s.last().local_port <= x.local_port) {
        lemma_insert_sorted_ub(x, s.drop_last(), b);
    }
}

proof fn lemma_insert_sorted_sorted(x: SocketRow, s: Seq<SocketRow>)
    requires
        sorted_by_port(s),
    ensures
        sorted_by_port(spec_insert_sorted(x, s)),
    decreases s.len(),
{
    if s.len() == 0 {
    } else if s.last().local_port <= x.local_port {
        assert forall|i: int| 0 <= i < s.len() implies s[i].local_port <= x.local_port by {
            assert(s[i].local_port <= s[s.len() - 1].local_port);
        }
    } else {
        assert(sorted_by_port(s.drop_last()));
        lemma_insert_sorted_sorted(x, s.drop_last());
        lemma_insert_sorted_ub(x, s.drop_last(), s.last().local_port);
        lemma_insert_sorted_len(x, s.drop_last());
        let t = spec_insert_sorted(x, s.drop_last()).push(s.last());
        assert forall|i: int, j: int| 0 <= i < j < t.len() implies t[i].local_port
            <= t[j].local_port by {
            if j < t.len() - 1 {
                assert(t[i] == spec_insert_sorted(x, s.drop_last())[i]);
                assert(t[j] == spec_insert_sorted(x, s.drop_last())[j]);
            } else {
                assert(t[j] == s.last());
            }
        }
    }
}

/// How the stable insertion position meets `filter`: inserting a record with
/// port `p` appends it to the port-`p` subsequence; records of other ports
/// are untouched.
proof fn lemma_insert_sorted_filter(x: SocketRow, s: Seq<SocketRow>, p: u16)
    ensures
        x.local_port == p ==> with_port(spec_insert_sorted(x, s), p) == with_port(s, p).push(x),
        x.local_port != p ==> with_port(spec_insert_sorted(x, s), p) == with_port(s, p),
    decreases s.len(),
{
    reveal_with_fuel(Seq::filter, 3);
    let pred = |r: SocketRow| r.local_port == p;
    if s.len() == 0 {
        assert(seq![x].drop_last() =~= Seq::<SocketRow>::empty());
        assert(seq![x].last() == x);
        if x.local_port == p {
            assert(with_port(seq![x], p) =~= with_port(s, p).push(x));
        } else {
            assert(with_port(seq![x], p) =~= with_port(s, p));
        }
    } else if s.last().local_port <= x.local_port {
        let t = s.push(x);
        assert(t.drop_last() =~= s);
        assert(t.last() == x);
    } else {
        lemma_insert_sorted_filter(x, s.drop_last(), p);
        let inner = spec_insert_sorted(x, s.drop_last());
        let t = inner.push(s.last());
        assert(t.drop_last() =~= inner);
        assert(t.last() == s.last());
        if x.local_port == p {
            // s.last() has a strictly greater port than x, so it is not in
            // the port-p subsequence.
            assert(!pred(s.last()));
            assert(with_port(t, p) == with_port(inner, p));
            assert(with_port(s, p) == with_port(s.drop_last(), p));
        } else {
            if pred(s.last()) {
                assert(with_port(t, p) == with_port(inner, p).push(s.last()));
                assert(with_port(s, p) == with_port(s.drop_last(), p).push(s.last()));
            } else {
                assert(with_port(t, p) == with_port(inner, p));
                assert(with_port(s, p) == with_port(s.drop_last(), p));
            }
        }
    }
}

proof fn lemma_insert_sorted_multiset(x: SocketRow, s: Seq<SocketRow>)
    ensures
        spec_insert_sorted(x, s).to_multiset() == s.to_multiset().insert(x),
    decreases s.len(),
{
    broadcast use vstd::seq_lib::group_to_multiset_ensures;

    if s.len() == 0 {
        assert(seq![x] =~= Seq::<SocketRow>::empty().push(x));
    } else if s.last().local_port <= x.local_port {
    } else {
        lemma_insert_sorted_multiset(x, s.drop_last());
        assert(s =~= s.drop_last().push(s.last()));
        assert(s.drop_last().to_multiset().insert(x).insert(s.last())
            =~= s.drop_last().to_multiset().insert(s.last()).insert(x));
    }
}

/// The sorted sequence is a permutation of the input: it carries exactly
/// the input's records, with their multiplicities.
pub proof fn lemma_sort_permutes(s: Seq<SocketRow>)
    ensures
        spec_sort(s).to_multiset() == s.to_multiset(),
    decreases s.len(),
{
    broadcast use vstd::seq_lib::group_to_multiset_ensures;

    if s.len() > 0 {
        lemma_sort_permutes(s.drop_last());
        lemma_insert_sorted_multiset(s.last(), spec_sort(s.drop_last()));
        assert(s =~= s.drop_last().push(s.last()));
    }
}

/// The sorted sequence is as long as the input.
pub proof fn lemma_sort_len(s: Seq<SocketRow>)
    ensures
        spec_sort(s).len() == s.len(),
    decreases s.len(),
{
    if s.len() > 0 {
        lemma_sort_len(s.drop_last());
        lemma_insert_sorted_len(s.last(), spec_sort(s.drop_last()));
    }
}

/// The sorted sequence has its local ports ascending.
pub proof fn lemma_sort_sorted(s: Seq<SocketRow>)
    ensures
        sorted_by_port(spec_sort(s)),
    decreases s.len(),
{
    if s.len() > 0 {
        lemma_sort_sorted(s.drop_last());
        lemma_insert_sorted_sorted(s.last(), spec_sort(s.drop_last()));
    }
}

/// Stability: for every port, the sorted sequence carries exactly the
/// input's records with that port, in the input's order.
pub proof fn lemma_sort_stable(s: Seq<SocketRow>, p: u16)
    ensures
        with_port(spec_sort(s), p) == with_port(s, p),
    decreases s.len(),
{
    reveal(Seq::filter);
    if s.len() == 0 {
    } else {
        lemma_sort_stable(s.drop_last(), p);
        lemma_insert_sorted_filter(s.last(), spec_sort(s.drop_last()), p);
        let pred = |r: SocketRow| r.local_port == p;
        if pred(s.last()) {
            assert(with_port(s, p) == with_port(s.drop_last(), p).push(s.last()));
        } else {
            assert(with_port(s, p) == with_port(s.drop_last(), p));
        }
    }
}

/// The stable insertion position is the one the in-place scan finds: if
/// everything from `j` on has a strictly greater port, and the element
/// before `j` (if any) does not, inserting at `j` is the stable insertion.
proof fn lemma_insert_at(x: SocketRow, s: Seq<SocketRow>, j: int)
    requires
        sorted_by_port(s),
        0 <= j <= s.len(),
        forall|k: int| j <= k < s.len() ==> s[k].local_port > x.local_port,
        j > 0 ==> s[j - 1].local_port <= x.local_port,
    ensures
        spec_insert_sorted(x, s) == s.insert(j, x),
    decreases s.len(),
{
    if j == s.len() {
        if s.len() == 0 {
            assert(spec_insert_sorted(x, s) =~= s.insert(j, x));
        } else {
            assert(s.last().local_port <= x.local_port);
            assert(s.push(x) =~= s.insert(j, x));
        }
    } else {
        assert(s[s.len() - 1].local_port > x.local_port);
        assert(sorted_by_port(s.drop_last()));
        lemma_insert_at(x, s.drop_last(), j);
        assert(s.drop_last().insert(j, x).push(s.last()) =~= s.insert(j, x));
    }
}

/// Sort the records by local port, ascending; records with equal ports keep
/// their relative order.
pub fn sort_by_local_port(v: Vec<SocketInfo>) -> (r: Vec<SocketInfo>)
    ensures
        r.deep_view() == spec_sort(v.deep_view()),
{
    let ghost orig = v.deep_view();
    let mut v = v;
    let n = v.len();
    let mut out: Vec<SocketInfo> = Vec::new();
    let mut i: usize = 0;
    while i < n
        invariant
            orig.len() == n,
            0 <= i <= n,
            v@.len() == n - i,
            forall|k: int| 0 <= k < n - i ==> v@[k]@ == orig[i + k],
            out.deep_view() == spec_sort(orig.take(i as int)),
        decreases n - i,
    {
        proof {
            lemma_sort_len(orig.take(i as int));
            lemma_sort_sorted(orig.take(i as int));
        }
        let ghost prev = out.deep_view();
        let x = v.remove(0);
        proof {
            assert(x@ == orig[i as int]);
        }
        let p = x.local_port;
        let mut j: usize = out.len();
        while j > 0 && out[j - 1].local_port > p
            invariant
                0 <= j <= out@.len(),
                out.deep_view() == prev,
                forall|k: int| j <= k < prev.len() ==> prev[k].local_port > p,
            decreases j,
        {
            proof {
                assert(out.deep_view()[j - 1] == out@[j - 1]@);
            }
            j -= 1;
        }
        proof {
            if j > 0 {
                assert(out.deep_view()[j - 1] == out@[j - 1]@);
            }
        }
        out.insert(j, x);
        proof {
            assert forall|k: int| 0 <= k < out@.len() implies out.deep_view()[k] == prev.insert(
                j as int,
                x@,
            )[k] by {
                assert(out.deep_view()[k] == out@[k]@);
            }
            assert(out.deep_view() =~= prev.insert(j as int, x@));
            lemma_insert_at(x@, prev, j as int);
            assert(orig.take(i + 1).drop_last() =~= orig.take(i as int));
            assert(orig.take(i + 1).last() == orig[i as int]);
            assert(out.deep_view() == spec_sort(orig.take(i + 1)));
        }
        i += 1;
    }
    proof {
        assert(orig.take(n as int) =~= orig);
    }
    out
}

} // verus!
