//! Ordering records by name: a stable insertion sort and a first-match search,
//! both over any record type that carries a name.
use vstd::prelude::*;
use vstd::multiset::Multiset;
use crate::text::{compare_text, text_le, text_lt, TextOrder, lemma_text_lt_total,
    lemma_text_lt_irreflexive, lemma_text_le_transitive};

verus! {

/// A record that is identified by a name.
pub trait Named {
    /// The record's name, as a sequence of characters.
    spec fn name_view(&self) -> Seq<char>;

    /// The record's name.
    fn name_str(&self) -> (r: &str)
        ensures
            r@ == self.name_view(),
    ;
}

/// Every record's name comes before or equals the names of all later records.
pub open spec fn names_sorted<T: Named>(s: Seq<T>) -> bool {
    forall|i: int, j: int| 0 <= i < j < s.len() ==> text_le(#[trigger] s[i].name_view(), #[trigger] s[j].name_view())
}

/// Inserts `x` into `sorted` directly after the last record whose name does not come
/// after the name of `x`.
pub open spec fn insert_by_name<T: Named>(sorted: Seq<T>, x: T) -> Seq<T>
    decreases sorted.len(),
{
    if sorted.len() == 0 {
        seq![x]
    } else if text_lt(x.name_view(), sorted.last().name_view()) {
        insert_by_name(sorted.drop_last(), x).push(sorted.last())
    } else {
        sorted.push(x)
    }
}

/// The records of `s` in name order; records with equal names keep their relative order.
pub open spec fn sort_by_name<T: Named>(s: Seq<T>) -> Seq<T>
    decreases s.len(),
{
    if s.len() == 0 {
        s
    } else {
        insert_by_name(sort_by_name(s.drop_last()), s.last())
    }
}

/// Inserting at the position found by scanning from the end is the same as `insert_by_name`.
proof fn lemma_insert_at<T: Named>(sorted: Seq<T>, x: T, j: int)
    requires
        0 <= j <= sorted.len(),
        forall|k: int| j <= k < sorted.len() ==> text_lt(x.name_view(), #[trigger] sorted[k].name_view()),
        j == 0 || !text_lt(x.name_view(), sorted[j - 1].name_view()),
    ensures
        insert_by_name(sorted, x) == sorted.insert(j, x),
    decreases sorted.len(),
{
    if sorted.len() == 0 {
        assert(sorted.insert(j, x) =~= seq![x]);
    } else if j == sorted.len() {
        assert(sorted.insert(j, x) =~= sorted.push(x));
    } else {
        let last = sorted.last();
        assert(text_lt(x.name_view(), sorted[sorted.len() - 1].name_view()));
        lemma_insert_at(sorted.drop_last(), x, j);
        assert(sorted.drop_last().insert(j, x).push(last) =~= sorted.insert(j, x));
    }
}

/// Inserting into a sorted sequence keeps it sorted.
pub proof fn lemma_insert_keeps_sorted<T: Named>(sorted: Seq<T>, x: T)
    requires
        names_sorted(sorted),
    ensures
        names_sorted(insert_by_name(sorted, x)),
        insert_by_name(sorted, x).to_multiset() =~= sorted.to_multiset().insert(x),
        insert_by_name(sorted, x).len() == sorted.len() + 1,
    decreases sorted.len(),
{
    broadcast use vstd::seq_lib::group_to_multiset_ensures;
    if sorted.len() == 0 {
        assert(seq![x] =~= Seq::<T>::empty().push(x));
    } else {
        let last = sorted.last();
        let init = sorted.drop_last();
        assert(sorted =~= init.push(last));
        if text_lt(x.name_view(), last.name_view()) {
            assert(names_sorted(init));
            lemma_insert_keeps_sorted(init, x);
            let ins = insert_by_name(init, x);
            let r = ins.push(last);
            assert forall|i: int, j: int| 0 <= i < j < r.len() implies text_le(#[trigger] r[i].name_view(), #[trigger] r[j].name_view()) by {
                if j == r.len() - 1 {
                    // every record of `ins` is either `x` or a record of `init`
                    assert(ins.to_multiset().count(r[i]) > 0);
                    assert(ins.contains(r[i]));
                    if r[i] == x {
                        assert(text_lt(x.name_view(), last.name_view()));
                    } else {
                        assert(init.to_multiset().insert(x).count(r[i]) > 0);
                        assert(init.to_multiset().count(r[i]) > 0);
                        assert(init.contains(r[i]));
                        let k = choose|k: int| 0 <= k < init.len() && init[k] == r[i];
                        assert(sorted[k] == init[k]);
                        assert(text_le(sorted[k].name_view(), sorted[sorted.len() - 1].name_view()));
                    }
                }
            }
        } else {
            let r = sorted.push(x);
            assert forall|i: int, j: int| 0 <= i < j < r.len() implies text_le(#[trigger] r[i].name_view(), #[trigger] r[j].name_view()) by {
                if j == r.len() - 1 {
                    lemma_text_lt_total(x.name_view(), last.name_view());
                    if i < sorted.len() - 1 {
                        assert(text_le(sorted[i].name_view(), sorted[sorted.len() - 1].name_view()));
                        lemma_text_le_transitive(sorted[i].name_view(), last.name_view(), x.name_view());
                    }
                }
            }
        }
    }
}

/// Sorting by name gives a sequence sorted by name.
pub proof fn lemma_sort_is_sorted<T: Named>(s: Seq<T>)
    ensures
        names_sorted(sort_by_name(s)),
        sort_by_name(s).len() == s.len(),
    decreases s.len(),
{
    if s.len() > 0 {
        lemma_sort_is_sorted(s.drop_last());
        lemma_insert_keeps_sorted(sort_by_name(s.drop_last()), s.last());
    }
}

/// Sorting by name neither adds nor drops records: the result is a permutation of `s`.
pub proof fn lemma_sort_is_permutation<T: Named>(s: Seq<T>)
    ensures
        sort_by_name(s).to_multiset() =~= s.to_multiset(),
    decreases s.len(),
{
    broadcast use vstd::seq_lib::group_to_multiset_ensures;
    if s.len() > 0 {
        lemma_sort_is_permutation(s.drop_last());
        lemma_sort_is_sorted(s.drop_last());
        lemma_insert_keeps_sorted(sort_by_name(s.drop_last()), s.last());
        assert(s =~= s.drop_last().push(s.last()));
    }
}

/// The test "is named `n`".
pub open spec fn named<T: Named>(n: Seq<char>) -> spec_fn(T) -> bool {
    |x: T| x.name_view() == n
}

proof fn lemma_insert_filter<T: Named>(sorted: Seq<T>, x: T, n: Seq<char>)
    ensures
        insert_by_name(sorted, x).filter(named::<T>(n)) == if x.name_view() == n {
            sorted.filter(named::<T>(n)).push(x)
        } else {
            sorted.filter(named::<T>(n))
        },
    decreases sorted.len(),
{
    broadcast use Seq::lemma_filter_push;
    let p = named::<T>(n);
    if sorted.len() == 0 {
        assert(seq![x] =~= Seq::<T>::empty().push(x));
        assert(Seq::<T>::empty().filter(p) =~= Seq::<T>::empty()) by {
            reveal(Seq::filter);
        }
    } else {
        let last = sorted.last();
        let init = sorted.drop_last();
        assert(sorted =~= init.push(last));
        if text_lt(x.name_view(), last.name_view()) {
            lemma_insert_filter(init, x, n);
            if x.name_view() == n {
                lemma_text_lt_irreflexive(n);
                assert(last.name_view() != n);
            }
        }
    }
}

/// Sorting keeps records with equal names in their original order: the records named
/// `n` come out in the order they went in.
pub proof fn lemma_sort_is_stable<T: Named>(s: Seq<T>, n: Seq<char>)
    ensures
        sort_by_name(s).filter(named::<T>(n)) == s.filter(named::<T>(n)),
    decreases s.len(),
{
    broadcast use Seq::lemma_filter_push;
    if s.len() == 0 {
    } else {
        lemma_sort_is_stable(s.drop_last(), n);
        lemma_insert_filter(sort_by_name(s.drop_last()), s.last(), n);
        assert(s =~= s.drop_last().push(s.last()));
    }
}

/// Sorts `v` by name, keeping records with equal names in their original order.
pub fn sort_records<T: Named>(v: Vec<T>) -> (r: Vec<T>)
    ensures
        r@ == sort_by_name(v@),
{
    let ghost orig = v@;
    let mut rest = v;
    let mut res: Vec<T> = Vec::new();
    let n = rest.len();
    let mut i: usize = 0;
    assert(orig.take(0) =~= Seq::<T>::empty());
    assert(orig.skip(0) =~= orig);
    while i < n
        invariant
            n == orig.len(),
            i <= n,
            rest@ == orig.skip(i as int),
            res@ == sort_by_name(orig.take(i as int)),
            names_sorted(res@),
        decreases n - i,
    {
        let x = rest.remove(0);
        assert(x == orig[i as int]);
        assert(rest@ =~= orig.skip(i + 1));
        let mut j = res.len();
        while j > 0
            invariant
                j <= res.len(),
                forall|k: int| j <= k < res.len() ==> text_lt(x.name_view(), #[trigger] res@[k].name_view()),
            ensures
                j <= res.len(),
                forall|k: int| j <= k < res.len() ==> text_lt(x.name_view(), #[trigger] res@[k].name_view()),
                j == 0 || !text_lt(x.name_view(), res@[j - 1].name_view()),
            decreases j,
        {
            let o = compare_text(x.name_str(), res[j - 1].name_str());
            if o == TextOrder::Before {
                j = j - 1;
            } else {
                break;
            }
        }
        proof {
            lemma_insert_at(res@, x, j as int);
            lemma_insert_keeps_sorted(res@, x);
            assert(orig.take(i + 1).drop_last() =~= orig.take(i as int));
            assert(orig.take(i + 1).last() == x);
        }
        res.insert(j, x);
        i = i + 1;
    }
    assert(orig.take(n as int) =~= orig);
    res
}

/// Position of the first record of `s` named `name`, if any.
pub open spec fn first_named<T: Named>(s: Seq<T>, name: Seq<char>) -> Option<int> {
    if exists|k: int| 0 <= k < s.len() && s[k].name_view() == name {
        Some(choose|k: int| 0 <= k < s.len() && s[k].name_view() == name
            && forall|m: int| 0 <= m < k ==> s[m].name_view() != name)
    } else {
        None
    }
}

/// The number of records of a sorted sequence whose names come strictly before `name`:
/// the position where a record named `name` would be inserted first.
pub fn lower_bound<T: Named>(v: &Vec<T>, name: &str) -> (k: usize)
    requires
        names_sorted(v@),
    ensures
        k <= v.len(),
        forall|m: int| 0 <= m < k ==> text_lt(#[trigger] v@[m].name_view(), name@),
        forall|m: int| k <= m < v.len() ==> !text_lt(#[trigger] v@[m].name_view(), name@),
{
    let mut lo: usize = 0;
    let mut hi: usize = v.len();
    while lo < hi
        invariant
            names_sorted(v@),
            lo <= hi <= v.len(),
            forall|m: int| 0 <= m < lo ==> text_lt(#[trigger] v@[m].name_view(), name@),
            forall|m: int| hi <= m < v.len() ==> !text_lt(#[trigger] v@[m].name_view(), name@),
        decreases hi - lo,
    {
        let mid = lo + (hi - lo) / 2;
        let o = compare_text(v[mid].name_str(), name);
        if o == TextOrder::Before {
            proof {
                assert forall|m: int| 0 <= m < mid + 1 implies text_lt(#[trigger] v@[m].name_view(), name@) by {
                    if m < mid {
                        lemma_text_le_transitive(v@[m].name_view(), v@[mid as int].name_view(), name@);
                    }
                }
            }
            lo = mid + 1;
        } else {
            proof {
                assert forall|m: int| mid <= m < v.len() implies !text_lt(#[trigger] v@[m].name_view(), name@) by {
                    if m > mid {
                        lemma_text_lt_total(v@[mid as int].name_view(), name@);
                        lemma_text_lt_total(v@[m].name_view(), name@);
                        if text_lt(v@[m].name_view(), name@) {
                            lemma_text_le_transitive(v@[mid as int].name_view(), v@[m].name_view(), name@);
                            lemma_text_lt_irreflexive(name@);
                        }
                    }
                }
            }
            hi = mid;
        }
    }
    lo
}

/// Finds the first record named `name` in a sequence sorted by name.
pub fn find_first_named<T: Named>(v: &Vec<T>, name: &str) -> (r: Option<usize>)
    requires
        names_sorted(v@),
    ensures
        r matches Some(k) ==> k < v.len() && v@[k as int].name_view() == name@
            && forall|m: int| 0 <= m < k ==> v@[m].name_view() != name@,
        r is None <==> forall|k: int| 0 <= k < v.len() ==> v@[k].name_view() != name@,
{
    let lo = lower_bound(v, name);
    proof {
        assert forall|m: int| 0 <= m < lo implies v@[m].name_view() != name@ by {
            lemma_text_lt_irreflexive(name@);
        }
    }
    if lo < v.len() {
        let o = compare_text(v[lo].name_str(), name);
        if o == TextOrder::Same {
            return Some(lo);
        }
        proof {
            assert forall|k: int| 0 <= k < v.len() implies v@[k].name_view() != name@ by {
                if k > lo {
                    lemma_text_lt_total(v@[lo as int].name_view(), name@);
                    assert(text_le(v@[lo as int].name_view(), v@[k].name_view()));
                    if v@[k].name_view() == name@ {
                        lemma_text_le_transitive(name@, v@[lo as int].name_view(), name@);
                        lemma_text_lt_irreflexive(name@);
                    }
                }
            }
        }
    }
    None
}

} // verus!
