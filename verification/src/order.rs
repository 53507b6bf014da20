//! The lists of appointments and tasks: kept in order of their start, stably, and
//! thinned out by the entries marked for deletion.

use crate::appointment::AppointmentOrTask;
use vstd::prelude::*;

verus! {

/// Holds of the entries that start at `init`.
pub open spec fn starts_at(init: i64) -> spec_fn(AppointmentOrTask) -> bool {
    |a: AppointmentOrTask| a.init == init
}

/// The entries of `s` that start at `init`, in their order in `s`.
pub open spec fn with_init(s: Seq<AppointmentOrTask>, init: i64) -> Seq<AppointmentOrTask> {
    s.filter(starts_at(init))
}

/// No entry starts before the one ahead of it.
pub open spec fn sorted_by_init(s: Seq<AppointmentOrTask>) -> bool {
    forall|i: int, j: int| 0 <= i <= j < s.len() ==> s[i].init <= s[j].init
}

/// `t` holds the entries of `s` ordered by start, entries with the same start in the
/// order they have in `s` (what a stable sort by start gives).
pub open spec fn is_stable_sort_by_init(t: Seq<AppointmentOrTask>, s: Seq<AppointmentOrTask>) -> bool {
    &&& t.len() == s.len()
    &&& sorted_by_init(t)
    &&& forall|k: i64| #[trigger] with_init(t, k) == with_init(s, k)
}

proof fn lemma_filter_none<A>(s: Seq<A>, pred: spec_fn(A) -> bool)
    requires
        forall|i: int| 0 <= i < s.len() ==> !pred(s[i]),
    ensures
        s.filter(pred) == Seq::<A>::empty(),
    decreases s.len(),
{
    reveal(Seq::filter);
    if s.len() > 0 {
        lemma_filter_none(s.drop_last(), pred);
    }
}

/// Putting `x` where every entry before it starts no later and every entry after it
/// starts later adds `x` at the end of the entries with its start, and changes no
/// other start's entries.
proof fn lemma_insert_groups(s: Seq<AppointmentOrTask>, j: int, x: AppointmentOrTask, k: i64)
    requires
        0 <= j <= s.len(),
        forall|i: int| 0 <= i < j ==> s[i].init <= x.init,
        forall|i: int| j <= i < s.len() ==> s[i].init > x.init,
    ensures
        with_init(s.insert(j, x), k) == if x.init == k {
            with_init(s, k).push(x)
        } else {
            with_init(s, k)
        },
{
    let pred = starts_at(k);
    let a = s.subrange(0, j);
    let b = s.subrange(j, s.len() as int);
    assert(s == a + b);
    assert(s.insert(j, x) == a.push(x) + b);
    Seq::filter_distributes_over_add(a, b, pred);
    Seq::filter_distributes_over_add(a.push(x), b, pred);
    a.lemma_filter_push(x, pred);
    if x.init == k {
        assert forall|i: int| 0 <= i < b.len() implies !pred(b[i]) by {
            assert(b[i] == s[j + i]);
        }
        lemma_filter_none(b, pred);
        assert(b.filter(pred) == Seq::<AppointmentOrTask>::empty());
        assert(a.filter(pred).push(x) + b.filter(pred) == a.filter(pred).push(x));
        assert(a.filter(pred) + b.filter(pred) == a.filter(pred));
    } else {
        assert(a.filter(pred) + b.filter(pred) == a.filter(pred) + b.filter(pred));
    }
}

proof fn lemma_same_groups_sorted_equal(t1: Seq<AppointmentOrTask>, t2: Seq<AppointmentOrTask>)
    requires
        t1.len() == t2.len(),
        sorted_by_init(t1),
        sorted_by_init(t2),
        forall|k: i64| #[trigger] with_init(t1, k) == with_init(t2, k),
    ensures
        t1 == t2,
    decreases t1.len(),
{
    if t1.len() == 0 {
        assert(t1 =~= t2);
    } else {
        let r1 = t1.drop_last();
        let r2 = t2.drop_last();
        let x1 = t1.last();
        let x2 = t2.last();
        assert(t1 == r1.push(x1));
        assert(t2 == r2.push(x2));
        r1.lemma_filter_push(x1, starts_at(x1.init));
        r2.lemma_filter_push(x2, starts_at(x2.init));
        r1.lemma_filter_push(x1, starts_at(x2.init));
        r2.lemma_filter_push(x2, starts_at(x1.init));
        assert(with_init(t1, x1.init).contains(x1)) by {
            assert(with_init(t1, x1.init).last() == x1);
        }
        assert(with_init(t2, x1.init) == with_init(t1, x1.init));
        t2.lemma_filter_contains_rev(starts_at(x1.init), x1);
        assert(with_init(t2, x2.init).contains(x2)) by {
            assert(with_init(t2, x2.init).last() == x2);
        }
        assert(with_init(t1, x2.init) == with_init(t2, x2.init));
        t1.lemma_filter_contains_rev(starts_at(x2.init), x2);
        let i1 = choose|i: int| 0 <= i < t2.len() && t2[i] == x1;
        let i2 = choose|i: int| 0 <= i < t1.len() && t1[i] == x2;
        assert(t2[i1].init <= t2[t2.len() - 1].init);
        assert(t1[i2].init <= t1[t1.len() - 1].init);
        let k = x1.init;
        assert(x2.init == k);
        assert(with_init(t1, k) == with_init(t2, k));
        assert(with_init(r1, k).push(x1) == with_init(r2, k).push(x2));
        assert(x1 == with_init(r1, k).push(x1).last());
        assert(x2 == with_init(r2, k).push(x2).last());
        assert(with_init(r1, k) == with_init(r1, k).push(x1).drop_last());
        assert(with_init(r2, k) == with_init(r2, k).push(x2).drop_last());
        assert forall|j: i64| #[trigger] with_init(r1, j) == with_init(r2, j) by {
            r1.lemma_filter_push(x1, starts_at(j));
            r2.lemma_filter_push(x2, starts_at(j));
            assert(with_init(t1, j) == with_init(t2, j));
        }
        lemma_same_groups_sorted_equal(r1, r2);
    }
}

/// A list ordered by start that keeps entries with the same start in their order is
/// determined by the list it orders: two such orderings of one list are equal.
pub proof fn lemma_stable_sort_unique(t1: Seq<AppointmentOrTask>, t2: Seq<AppointmentOrTask>, s: Seq<AppointmentOrTask>)
    requires
        is_stable_sort_by_init(t1, s),
        is_stable_sort_by_init(t2, s),
    ensures
        t1 == t2,
{
    assert forall|k: i64| #[trigger] with_init(t1, k) == with_init(t2, k) by {
        assert(with_init(t1, k) == with_init(s, k));
    }
    lemma_same_groups_sorted_equal(t1, t2);
}

/// A list already ordered by start is its own stable ordering.
pub proof fn lemma_sorted_is_own_sort(s: Seq<AppointmentOrTask>)
    requires
        sorted_by_init(s),
    ensures
        is_stable_sort_by_init(s, s),
        forall|t: Seq<AppointmentOrTask>| is_stable_sort_by_init(t, s) ==> t == s,
{
    assert forall|t: Seq<AppointmentOrTask>| is_stable_sort_by_init(t, s) implies t == s by {
        lemma_stable_sort_unique(t, s, s);
    }
}

/// Every entry of a stable ordering of `s` is an entry of `s`.
pub proof fn lemma_stable_sort_members(t: Seq<AppointmentOrTask>, s: Seq<AppointmentOrTask>)
    requires
        is_stable_sort_by_init(t, s),
    ensures
        forall|i: int| 0 <= i < t.len() ==> s.contains(#[trigger] t[i]),
{
    assert forall|i: int| 0 <= i < t.len() implies s.contains(#[trigger] t[i]) by {
        let k = t[i].init;
        t.lemma_filter_contains(starts_at(k), i);
        assert(with_init(t, k) == with_init(s, k));
        s.lemma_filter_contains_rev(starts_at(k), t[i]);
    }
}

/// Orders `v` by start, stably, as the application does after every save.
pub fn sort_by_init(v: &mut Vec<AppointmentOrTask>)
    ensures
        is_stable_sort_by_init(final(v)@, old(v)@),
{
    let ghost orig = v@;
    let mut rest: Vec<AppointmentOrTask> = Vec::new();
    std::mem::swap(&mut rest, v);
    let mut sorted: Vec<AppointmentOrTask> = Vec::new();
    let ghost mut taken: int = 0;
    while rest.len() > 0
        invariant
            0 <= taken <= orig.len(),
            rest@ == orig.subrange(taken, orig.len() as int),
            sorted@.len() == taken,
            sorted_by_init(sorted@),
            forall|k: i64| #[trigger] with_init(sorted@, k) == with_init(orig.subrange(0, taken), k),
        decreases rest.len(),
    {
        let x = rest.remove(0);
        let mut j: usize = 0;
        while j < sorted.len() && sorted[j].init <= x.init
            invariant
                j <= sorted.len(),
                sorted_by_init(sorted@),
                forall|i: int| 0 <= i < j ==> sorted@[i].init <= x.init,
            decreases sorted.len() - j,
        {
            j = j + 1;
        }
        let ghost before = sorted@;
        proof {
            assert forall|i: int| j <= i < before.len() implies before[i].init > x.init by {
                assert(before[j as int].init <= before[i].init);
            }
            assert(orig.subrange(0, taken + 1) == orig.subrange(0, taken).push(x));
            assert forall|k: i64| #[trigger] with_init(before.insert(j as int, x), k) == with_init(
                orig.subrange(0, taken + 1),
                k,
            ) by {
                lemma_insert_groups(before, j as int, x, k);
                orig.subrange(0, taken).lemma_filter_push(x, starts_at(k));
            }
        }
        sorted.insert(j, x);
        proof {
            taken = taken + 1;
            assert forall|a: int, b: int| 0 <= a <= b < sorted@.len() implies sorted@[a].init <= sorted@[b].init by {
                if a < j && b > j {
                    assert(before[a].init <= x.init);
                    assert(before[b - 1].init > x.init);
                }
            }
        }
    }
    proof {
        assert(orig.subrange(0, taken) == orig);
    }
    *v = sorted;
}

/// The entries of `s` whose index is not in `marked`, in their order in `s`.
pub open spec fn unmarked<A>(s: Seq<A>, marked: Set<int>) -> Seq<A>
    decreases s.len(),
{
    if s.len() == 0 {
        s
    } else {
        let prev = unmarked(s.drop_last(), marked);
        if marked.contains(s.len() - 1) {
            prev
        } else {
            prev.push(s.last())
        }
    }
}

/// The indices listed in `marks`.
pub open spec fn index_set(marks: Seq<usize>) -> Set<int> {
    Set::new(|i: int| exists|t: int| 0 <= t < marks.len() && #[trigger] marks[t] as int == i)
}

proof fn lemma_unmarked_untouched<A>(s: Seq<A>, marked: Set<int>)
    requires
        forall|d: int| marked.contains(d) ==> d >= s.len(),
    ensures
        unmarked(s, marked) == s,
    decreases s.len(),
{
    if s.len() > 0 {
        lemma_unmarked_untouched(s.drop_last(), marked);
        assert(s.drop_last().push(s.last()) == s);
    }
}

proof fn lemma_unmarked_long<A>(s: Seq<A>, marked: Set<int>, j: int)
    requires
        0 <= j < s.len(),
        forall|d: int| marked.contains(d) ==> d > j,
    ensures
        unmarked(s, marked).len() > j,
    decreases s.len(),
{
    if j == s.len() - 1 {
        lemma_unmarked_untouched(s.drop_last(), marked);
    } else {
        lemma_unmarked_long(s.drop_last(), marked, j);
    }
}

/// Removing index `j` from the unmarked entries, when every marked index is past `j`,
/// is marking `j` as well.
proof fn lemma_unmarked_remove<A>(s: Seq<A>, marked: Set<int>, j: int)
    requires
        0 <= j < s.len(),
        forall|d: int| marked.contains(d) ==> d > j,
    ensures
        unmarked(s, marked).remove(j) == unmarked(s, marked.insert(j)),
    decreases s.len(),
{
    let t = s.drop_last();
    if j == s.len() - 1 {
        lemma_unmarked_untouched(t, marked);
        lemma_unmarked_untouched(t, marked.insert(j));
        assert(t.push(s.last()).remove(j) == t);
    } else {
        lemma_unmarked_remove(t, marked, j);
        lemma_unmarked_long(t, marked, j);
        let p = unmarked(t, marked);
        if !marked.contains(s.len() - 1) {
            assert(p.push(s.last()).remove(j) == p.remove(j).push(s.last()));
        }
    }
}

/// Every entry left unmarked is an entry of the list.
pub proof fn lemma_unmarked_members<A>(s: Seq<A>, marked: Set<int>)
    ensures
        forall|i: int| 0 <= i < unmarked(s, marked).len() ==> s.contains(#[trigger] unmarked(s, marked)[i]),
    decreases s.len(),
{
    if s.len() > 0 {
        let t = s.drop_last();
        lemma_unmarked_members(t, marked);
        let u = unmarked(s, marked);
        assert forall|i: int| 0 <= i < u.len() implies s.contains(#[trigger] u[i]) by {
            if i < unmarked(t, marked).len() {
                assert(u[i] == unmarked(t, marked)[i]);
                let j = choose|j: int| 0 <= j < t.len() && t[j] == u[i];
                assert(s[j] == u[i]);
            } else {
                assert(u[i] == s[s.len() - 1]);
            }
        }
    }
}

/// The entries left unmarked in a list ordered by start are ordered by start.
pub proof fn lemma_unmarked_keeps_sorted(s: Seq<AppointmentOrTask>, marked: Set<int>)
    requires
        sorted_by_init(s),
    ensures
        sorted_by_init(unmarked(s, marked)),
    decreases s.len(),
{
    if s.len() > 0 {
        let t = s.drop_last();
        assert(sorted_by_init(t));
        lemma_unmarked_keeps_sorted(t, marked);
        lemma_unmarked_members(t, marked);
        let p = unmarked(t, marked);
        assert forall|i: int| 0 <= i < p.len() implies (#[trigger] p[i]).init <= s.last().init by {
            let j = choose|j: int| 0 <= j < t.len() && t[j] == p[i];
            assert(s[j] == p[i]);
        }
    }
}

/// Marking nothing leaves the list as it is.
pub proof fn lemma_unmarked_nothing<A>(s: Seq<A>)
    ensures
        unmarked(s, index_set(Seq::<usize>::empty())) == s,
{
    lemma_unmarked_untouched(s, index_set(Seq::<usize>::empty()));
}

/// Removes from `v` the entries at the indices listed in `for_deletion` (listed in
/// increasing order), the highest index first, as the list view does after a frame.
pub fn remove_marked(v: &mut Vec<AppointmentOrTask>, for_deletion: &Vec<usize>)
    requires
        forall|a: int, b: int| 0 <= a < b < for_deletion@.len() ==> for_deletion@[a] < for_deletion@[b],
        forall|a: int| 0 <= a < for_deletion@.len() ==> for_deletion@[a] < old(v)@.len(),
    ensures
        final(v)@ == unmarked(old(v)@, index_set(for_deletion@)),
{
    let ghost orig = v@;
    let n = for_deletion.len();
    let mut t = n;
    proof {
        lemma_unmarked_untouched(orig, index_set(for_deletion@.subrange(n as int, n as int)));
    }
    while t > 0
        invariant
            t <= n == for_deletion@.len(),
            forall|a: int, b: int| 0 <= a < b < for_deletion@.len() ==> for_deletion@[a] < for_deletion@[b],
            forall|a: int| 0 <= a < for_deletion@.len() ==> for_deletion@[a] < orig.len(),
            v@ == unmarked(orig, index_set(for_deletion@.subrange(t as int, n as int))),
        decreases t,
    {
        t = t - 1;
        let j = for_deletion[t];
        let ghost done = index_set(for_deletion@.subrange(t + 1, n as int));
        proof {
            assert forall|d: int| done.contains(d) implies d > j by {
                let w = choose|w: int| 0 <= w < n - t - 1 && #[trigger] for_deletion@.subrange(t + 1, n as int)[w] as int == d;
                assert(for_deletion@[t + 1 + w] == d);
            }
            lemma_unmarked_remove(orig, done, j as int);
            lemma_unmarked_long(orig, done, j as int);
            assert(index_set(for_deletion@.subrange(t as int, n as int)) =~= done.insert(j as int)) by {
                assert forall|i: int| #[trigger] done.insert(j as int).contains(i) implies index_set(
                    for_deletion@.subrange(t as int, n as int),
                ).contains(i) by {
                    if i == j {
                        assert(for_deletion@.subrange(t as int, n as int)[0] == j);
                    } else {
                        let w = choose|w: int| 0 <= w < n - t - 1 && #[trigger] for_deletion@.subrange(t + 1, n as int)[w] as int == i;
                        assert(for_deletion@.subrange(t as int, n as int)[w + 1] as int == i);
                    }
                }
                assert forall|i: int| #[trigger] index_set(for_deletion@.subrange(t as int, n as int)).contains(i)
                    implies done.insert(j as int).contains(i) by {
                    let w = choose|w: int| 0 <= w < n - t && #[trigger] for_deletion@.subrange(t as int, n as int)[w] as int == i;
                    if w > 0 {
                        assert(for_deletion@.subrange(t + 1, n as int)[w - 1] as int == i);
                    }
                }
            }
        }
        v.remove(j);
    }
    proof {
        assert(for_deletion@.subrange(0, n as int) == for_deletion@);
    }
}

} // verus!
