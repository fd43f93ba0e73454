//! Which records a bounded history keeps.
use vstd::prelude::*;
use crate::text;
use crate::text::text_before;
use crate::transaction::{DEBUG_HISTORY_MAX_BYTES, DEBUG_HISTORY_MAX_RECORDS};

verus! {

/// `order` with `n` put behind the indices that are at least as new.
pub open spec fn insert_newest(order: Seq<int>, ages: Seq<Seq<char>>, n: int) -> Seq<int>
    decreases order.len(),
{
    if order.len() > 0 && text::text_less(ages[order.last()], ages[n]) {
        insert_newest(order.drop_last(), ages, n).push(order.last())
    } else {
        order.push(n)
    }
}

/// The eligible ones of the first `n` records, from the newest to the oldest; of two that are as
/// old, the one that stands first.
pub open spec fn newest_first(ages: Seq<Seq<char>>, eligible: Seq<bool>, n: int) -> Seq<int>
    decreases n,
{
    if n <= 0 {
        Seq::empty()
    } else if eligible[n - 1] {
        insert_newest(newest_first(ages, eligible, n - 1), ages, n - 1)
    } else {
        newest_first(ages, eligible, n - 1)
    }
}

/// The records of a history that stay, with their number and their bytes.
pub struct Kept {
    pub flags: Seq<bool>,
    pub count: nat,
    pub bytes: nat,
}

/// Goes through the records in the given order and keeps each one that still fits.
pub open spec fn keep_fitting(order: Seq<int>, sizes: Seq<u64>, start: nat) -> Kept
    decreases order.len(),
{
    if order.len() == 0 {
        Kept { flags: Seq::new(sizes.len(), |i: int| false), count: start, bytes: 0 }
    } else {
        let before = keep_fitting(order.drop_last(), sizes, start);
        let i = order.last();
        if before.count < DEBUG_HISTORY_MAX_RECORDS && before.bytes + sizes[i]
            <= DEBUG_HISTORY_MAX_BYTES {
            Kept {
                flags: before.flags.update(i, true),
                count: before.count + 1,
                bytes: (before.bytes + sizes[i]) as nat,
            }
        } else {
            before
        }
    }
}

/// Which of the eligible records a bounded history keeps, `start` records being kept already.
pub open spec fn bounded_history(
    ages: Seq<Seq<char>>,
    sizes: Seq<u64>,
    eligible: Seq<bool>,
    start: nat,
) -> Kept {
    keep_fitting(newest_first(ages, eligible, ages.len() as int), sizes, start)
}

/// The indices of a vector as mathematical integers.
pub open spec fn indices(order: Seq<usize>) -> Seq<int> {
    order.map_values(|i: usize| i as int)
}

proof fn lemma_insert_newest(order: Seq<int>, ages: Seq<Seq<char>>, n: int)
    requires
        0 <= n < ages.len(),
        forall|k: int| 0 <= k < order.len() ==> 0 <= #[trigger] order[k] < n,
        order.no_duplicates(),
        newest_ordered(order, ages),
    ensures
        insert_newest(order, ages, n).len() == order.len() + 1,
        insert_newest(order, ages, n).no_duplicates(),
        newest_ordered(insert_newest(order, ages, n), ages),
        forall|k: int|
            0 <= k <= order.len() ==> 0 <= #[trigger] insert_newest(order, ages, n)[k] <= n,
        forall|i: int| #[trigger]
            insert_newest(order, ages, n).contains(i) <==> (order.contains(i) || i == n),
        insert_newest(order, ages, n).to_set() == order.to_set().insert(n),
    decreases order.len(),
{
    let r = insert_newest(order, ages, n);
    if order.len() > 0 && text::text_less(ages[order.last()], ages[n]) {
        let front = order.drop_last();
        assert forall|i: int, j: int| 0 <= i < j < front.len() implies newer_or_earlier(
            ages,
            #[trigger] front[i],
            #[trigger] front[j],
        ) by {
            assert(newer_or_earlier(ages, order[i], order[j]));
        }
        lemma_insert_newest(front, ages, n);
        let x = insert_newest(front, ages, n);
        assert(r =~= x.push(order.last()));
        assert forall|i: int, j: int| 0 <= i < j < r.len() implies newer_or_earlier(
            ages,
            #[trigger] r[i],
            #[trigger] r[j],
        ) by {
            if j == r.len() - 1 {
                assert(x.contains(x[i]));
                if x[i] != n {
                    assert(front.contains(x[i]));
                    let k = choose|k: int| 0 <= k < front.len() && front[k] == x[i];
                    assert(newer_or_earlier(ages, order[k], order[order.len() - 1]));
                }
            } else {
                assert(newer_or_earlier(ages, x[i], x[j]));
            }
        }
        assert forall|i: int| #[trigger] r.contains(i) <==> (order.contains(i) || i == n) by {
            if r.contains(i) {
                let k = choose|k: int| 0 <= k < r.len() && r[k] == i;
                if k < x.len() {
                    assert(x.contains(i));
                    if front.contains(i) {
                        let m = choose|m: int| 0 <= m < front.len() && front[m] == i;
                        assert(order[m] == i);
                    }
                } else {
                    assert(order[order.len() - 1] == i);
                }
            }
            if order.contains(i) {
                let k = choose|k: int| 0 <= k < order.len() && order[k] == i;
                if k < front.len() {
                    assert(front[k] == i);
                    assert(front.contains(i));
                    assert(x.contains(i));
                    let m = choose|m: int| 0 <= m < x.len() && x[m] == i;
                    assert(r[m] == i);
                } else {
                    assert(r[r.len() - 1] == i);
                }
            }
            if i == n {
                assert(x.contains(n));
                let m = choose|m: int| 0 <= m < x.len() && x[m] == n;
                assert(r[m] == n);
            }
        }
        assert(r.no_duplicates()) by {
            assert forall|i: int, j: int| 0 <= i < j < r.len() implies r[i] != r[j] by {
                if j == r.len() - 1 {
                    assert(x.contains(x[i]));
                    if x[i] == order.last() {
                        assert(front.contains(order.last()));
                        let m = choose|m: int| 0 <= m < front.len() && front[m] == order.last();
                        assert(order[m] == order[order.len() - 1]);
                    }
                }
            }
        }
    } else {
        assert(r =~= order.push(n));
        assert forall|i: int, j: int| 0 <= i < j < r.len() implies newer_or_earlier(
            ages,
            #[trigger] r[i],
            #[trigger] r[j],
        ) by {
            if j == r.len() - 1 {
                let last = order[order.len() - 1];
                if i < order.len() - 1 {
                    assert(newer_or_earlier(ages, order[i], last));
                    text::lemma_text_less_total(ages[last], ages[n]);
                    if text::text_less(ages[n], ages[last]) && text::text_less(ages[last], ages[order[i]]) {
                        text::lemma_text_less_transitive(ages[n], ages[last], ages[order[i]]);
                    }
                }
                text::lemma_text_less_total(ages[last], ages[n]);
            } else {
                assert(newer_or_earlier(ages, order[i], order[j]));
            }
        }
        assert forall|i: int| #[trigger] r.contains(i) <==> (order.contains(i) || i == n) by {
            vstd::seq_lib::lemma_seq_contains_after_push(order, n, i);
        }
    }
    assert(r.to_set() =~= order.to_set().insert(n));
}

/// The record `a` is newer than the record `b`, or as old and stands before it.
pub open spec fn newer_or_earlier(ages: Seq<Seq<char>>, a: int, b: int) -> bool {
    text::text_less(ages[b], ages[a]) || (ages[a] == ages[b] && a < b)
}

/// The records stand from the newest to the oldest; of two that are as old, the first comes first.
pub open spec fn newest_ordered(order: Seq<int>, ages: Seq<Seq<char>>) -> bool {
    forall|i: int, j: int|
        0 <= i < j < order.len() ==> newer_or_earlier(ages, #[trigger] order[i], #[trigger] order[j])
}

/// The history is gone through from the newest record to the oldest, and each eligible record
/// comes up exactly once.
pub proof fn law_newest_first(ages: Seq<Seq<char>>, eligible: Seq<bool>, n: int)
    requires
        0 <= n <= ages.len(),
        eligible.len() == ages.len(),
    ensures
        newest_ordered(newest_first(ages, eligible, n), ages),
        newest_first(ages, eligible, n).no_duplicates(),
        forall|i: int| #[trigger]
            newest_first(ages, eligible, n).contains(i) <==> (0 <= i < n && eligible[i]),
    decreases n,
{
    if n > 0 {
        law_newest_first(ages, eligible, n - 1);
        let before = newest_first(ages, eligible, n - 1);
        if eligible[n - 1] {
            assert forall|k: int| 0 <= k < before.len() implies 0 <= #[trigger] before[k] < n
                - 1 by {
                assert(before.contains(before[k]));
            }
            lemma_insert_newest(before, ages, n - 1);
        }
    }
}

/// The number of records that the flags keep.
pub open spec fn flagged(flags: Seq<bool>) -> nat
    decreases flags.len(),
{
    if flags.len() == 0 {
        0
    } else {
        flagged(flags.drop_last()) + if flags.last() {
            1nat
        } else {
            0nat
        }
    }
}

/// The bytes of the records that the flags keep.
pub open spec fn flagged_bytes(flags: Seq<bool>, sizes: Seq<u64>) -> nat
    decreases flags.len(),
{
    if flags.len() == 0 {
        0
    } else {
        (flagged_bytes(flags.drop_last(), sizes) + if flags.last() {
            sizes[flags.len() - 1] as int
        } else {
            0
        }) as nat
    }
}

proof fn lemma_flag_one(flags: Seq<bool>, sizes: Seq<u64>, i: int)
    requires
        0 <= i < flags.len() <= sizes.len(),
        !flags[i],
    ensures
        flagged(flags.update(i, true)) == flagged(flags) + 1,
        flagged_bytes(flags.update(i, true), sizes) == flagged_bytes(flags, sizes) + sizes[i],
    decreases flags.len(),
{
    let after = flags.update(i, true);
    if i == flags.len() - 1 {
        assert(after.drop_last() =~= flags.drop_last());
    } else {
        assert(after.drop_last() =~= flags.drop_last().update(i, true));
        lemma_flag_one(flags.drop_last(), sizes, i);
    }
}

proof fn lemma_no_flags(n: nat, sizes: Seq<u64>)
    ensures
        flagged(Seq::new(n, |i: int| false)) == 0,
        flagged_bytes(Seq::new(n, |i: int| false), sizes) == 0,
    decreases n,
{
    if n > 0 {
        let flags = Seq::new(n, |i: int| false);
        assert(flags.drop_last() =~= Seq::new((n - 1) as nat, |i: int| false));
        lemma_no_flags((n - 1) as nat, sizes);
    }
}

proof fn lemma_keep_fitting(order: Seq<int>, sizes: Seq<u64>, start: nat)
    requires
        order.no_duplicates(),
        forall|k: int| 0 <= k < order.len() ==> 0 <= #[trigger] order[k] < sizes.len(),
    ensures
        ({
            let kept = keep_fitting(order, sizes, start);
            &&& kept.flags.len() == sizes.len()
            &&& kept.count == start + flagged(kept.flags)
            &&& kept.bytes == flagged_bytes(kept.flags, sizes)
            &&& kept.bytes <= DEBUG_HISTORY_MAX_BYTES
            &&& start <= DEBUG_HISTORY_MAX_RECORDS ==> kept.count <= DEBUG_HISTORY_MAX_RECORDS
            &&& forall|i: int|
                0 <= i < sizes.len() && #[trigger] kept.flags[i] ==> order.contains(i)
        }),
    decreases order.len(),
{
    if order.len() == 0 {
        lemma_no_flags(sizes.len(), sizes);
    } else {
        let front = order.drop_last();
        assert forall|k: int| 0 <= k < front.len() implies 0 <= #[trigger] front[k]
            < sizes.len() by {
            assert(front[k] == order[k]);
        }
        lemma_keep_fitting(front, sizes, start);
        let before = keep_fitting(front, sizes, start);
        let i = order.last();
        assert(!front.contains(i)) by {
            if front.contains(i) {
                let k = choose|k: int| 0 <= k < front.len() && front[k] == i;
                assert(order[k] == order[order.len() - 1]);
            }
        }
        assert(0 <= order[order.len() - 1] < sizes.len());
        assert(!before.flags[i]);
        lemma_flag_one(before.flags, sizes, i);
        let kept = keep_fitting(order, sizes, start);
        assert forall|j: int| 0 <= j < sizes.len() && #[trigger] kept.flags[j] implies order.contains(
            j,
        ) by {
            if j == i {
                assert(order[order.len() - 1] == j);
            } else {
                assert(before.flags[j]);
                let k = choose|k: int| 0 <= k < front.len() && front[k] == j;
                assert(order[k] == j);
            }
        }
    }
}

/// A debug history is bounded: with those kept already it has at most
/// [`DEBUG_HISTORY_MAX_RECORDS`] records, and its records take at most
/// [`DEBUG_HISTORY_MAX_BYTES`] bytes. Nothing stays by it that was not eligible.
pub proof fn law_history_is_bounded(
    ages: Seq<Seq<char>>,
    sizes: Seq<u64>,
    eligible: Seq<bool>,
    start: nat,
)
    requires
        ages.len() == sizes.len() == eligible.len(),
        start <= DEBUG_HISTORY_MAX_RECORDS,
    ensures
        ({
            let kept = bounded_history(ages, sizes, eligible, start);
            &&& kept.flags.len() == sizes.len()
            &&& start + flagged(kept.flags) <= DEBUG_HISTORY_MAX_RECORDS
            &&& flagged_bytes(kept.flags, sizes) <= DEBUG_HISTORY_MAX_BYTES
            &&& forall|i: int| 0 <= i < sizes.len() && #[trigger] kept.flags[i] ==> eligible[i]
        }),
{
    law_newest_first(ages, eligible, ages.len() as int);
    let order = newest_first(ages, eligible, ages.len() as int);
    assert forall|k: int| 0 <= k < order.len() implies 0 <= #[trigger] order[k] < sizes.len() by {
        assert(order.contains(order[k]));
    }
    lemma_keep_fitting(order, sizes, start);
}

/// The newest eligible record stays, where there is room for it at all.
pub proof fn law_newest_is_kept(
    ages: Seq<Seq<char>>,
    sizes: Seq<u64>,
    eligible: Seq<bool>,
    start: nat,
    newest: int,
)
    requires
        ages.len() == sizes.len() == eligible.len(),
        start < DEBUG_HISTORY_MAX_RECORDS,
        0 <= newest < ages.len(),
        eligible[newest],
        sizes[newest] <= DEBUG_HISTORY_MAX_BYTES,
        forall|i: int|
            0 <= i < ages.len() && i != newest && #[trigger] eligible[i] ==> newer_or_earlier(
                ages,
                newest,
                i,
            ),
    ensures
        bounded_history(ages, sizes, eligible, start).flags[newest],
{
    law_newest_first(ages, eligible, ages.len() as int);
    let order = newest_first(ages, eligible, ages.len() as int);
    assert(order.contains(newest));
    let k = choose|k: int| 0 <= k < order.len() && order[k] == newest;
    assert(order.contains(order[0]));
    if k > 0 {
        assert(newer_or_earlier(ages, order[0], order[k]));
        assert(newer_or_earlier(ages, newest, order[0]));
        if text::text_less(ages[order[0]], ages[newest]) {
            text::lemma_text_less_asymmetric(ages[order[0]], ages[newest]);
        } else {
            text::lemma_text_less_irreflexive(ages[newest]);
        }
    }
    assert forall|j: int| 0 <= j < order.len() implies 0 <= #[trigger] order[j] < sizes.len() by {
        assert(order.contains(order[j]));
    }
    lemma_first_is_kept(order, sizes, start);
}

proof fn lemma_first_is_kept(order: Seq<int>, sizes: Seq<u64>, start: nat)
    requires
        order.len() > 0,
        forall|k: int| 0 <= k < order.len() ==> 0 <= #[trigger] order[k] < sizes.len(),
        start < DEBUG_HISTORY_MAX_RECORDS,
        sizes[order[0]] <= DEBUG_HISTORY_MAX_BYTES,
    ensures
        keep_fitting(order, sizes, start).flags.len() == sizes.len(),
        keep_fitting(order, sizes, start).flags[order[0]],
    decreases order.len(),
{
    let front = order.drop_last();
    if order.len() == 1 {
        assert(keep_fitting(front, sizes, start).bytes == 0);
        assert(order.last() == order[0]);
    } else {
        assert forall|k: int| 0 <= k < front.len() implies 0 <= #[trigger] front[k]
            < sizes.len() by {
            assert(front[k] == order[k]);
        }
        lemma_first_is_kept(front, sizes, start);
        assert(0 <= order[order.len() - 1] < sizes.len());
    }
}

pub(crate) fn order_newest(ages: &Vec<String>, eligible: &Vec<bool>) -> (r: Vec<usize>)
    requires
        ages.len() == eligible.len(),
    ensures
        indices(r@) == newest_first(text::views(ages@), eligible@, ages.len() as int),
        forall|k: int| 0 <= k < r.len() ==> (#[trigger] r@[k]) < ages.len(),
{
    let mut order: Vec<usize> = Vec::new();
    let ghost all = text::views(ages@);
    let mut n: usize = 0;
    assert(indices(order@) =~= Seq::empty());
    while n < ages.len()
        invariant
            0 <= n <= ages.len() == eligible.len(),
            all == text::views(ages@),
            indices(order@) == newest_first(all, eligible@, n as int),
            forall|k: int| 0 <= k < order.len() ==> (#[trigger] order@[k]) < n,
        decreases ages.len() - n,
    {
        let ghost before = indices(order@);
        if eligible[n] {
            let mut p: usize = order.len();
            assert(before.take(p as int) =~= before);
            assert(before.skip(p as int) =~= Seq::empty());
            assert(insert_newest(before, all, n as int) =~= insert_newest(
                before.take(p as int),
                all,
                n as int,
            ) + before.skip(p as int));
            while p > 0 && text_before(ages[order[p - 1]].as_str(), ages[n].as_str())
                invariant
                    0 <= p <= order.len(),
                    n < ages.len(),
                    all == text::views(ages@),
                    before == indices(order@),
                    forall|k: int| 0 <= k < order.len() ==> (#[trigger] order@[k]) < n,
                    insert_newest(before, all, n as int) == insert_newest(
                        before.take(p as int),
                        all,
                        n as int,
                    ) + before.skip(p as int),
                decreases p,
            {
                assert(before[p - 1] == order@[p - 1] as int);
                assert(before.take(p as int).last() == before[p - 1]);
                assert(before.take(p as int).drop_last() =~= before.take(p - 1));
                assert(insert_newest(before.take(p as int), all, n as int) == insert_newest(
                    before.take(p - 1),
                    all,
                    n as int,
                ).push(before[p - 1]));
                assert(insert_newest(before.take(p - 1), all, n as int).push(before[p - 1])
                    + before.skip(p as int) =~= insert_newest(before.take(p - 1), all, n as int)
                    + before.skip(p - 1));
                p -= 1;
            }
            proof {
                if p > 0 {
                    assert(before[p - 1] == order@[p - 1] as int);
                    assert(before.take(p as int).last() == before[p - 1]);
                    assert(all[order@[p - 1] as int] == ages@[order@[p - 1] as int]@);
                }
                assert(insert_newest(before.take(p as int), all, n as int) == before.take(
                    p as int,
                ).push(n as int));
                assert(before.take(p as int).push(n as int) + before.skip(p as int)
                    =~= before.insert(p as int, n as int));
            }
            let ghost old_order = order@;
            order.insert(p, n);
            assert(indices(order@) =~= before.insert(p as int, n as int));
            assert forall|k: int| 0 <= k < order.len() implies (#[trigger] order@[k]) < n + 1 by {
                if k < p {
                    assert(order@[k] == old_order[k]);
                } else if k > p {
                    assert(order@[k] == old_order[k - 1]);
                }
            }
        }
        n += 1;
    }
    order
}

/// Which of the eligible records a bounded history keeps: from the newest to the oldest, each one
/// that still fits.
pub fn keep_newest(
    ages: &Vec<String>,
    sizes: &Vec<u64>,
    eligible: &Vec<bool>,
    start: usize,
) -> (r: Vec<bool>)
    requires
        ages.len() == sizes.len() == eligible.len(),
        start <= DEBUG_HISTORY_MAX_RECORDS,
    ensures
        r@ == bounded_history(text::views(ages@), sizes@, eligible@, start as nat).flags,
        r.len() == sizes.len(),
{
    let order = order_newest(ages, eligible);
    let ghost whole = indices(order@);
    let mut flags: Vec<bool> = Vec::new();
    let mut i: usize = 0;
    while i < sizes.len()
        invariant
            0 <= i <= sizes.len(),
            flags@ == Seq::new(i as nat, |k: int| false),
        decreases sizes.len() - i,
    {
        flags.push(false);
        i += 1;
        assert(flags@ =~= Seq::new(i as nat, |k: int| false));
    }
    let mut count: usize = start;
    let mut bytes: u64 = 0;
    let mut k: usize = 0;
    assert(whole.take(0) =~= Seq::empty());
    while k < order.len()
        invariant
            0 <= k <= order.len(),
            whole == indices(order@),
            flags.len() == sizes.len(),
            forall|j: int| 0 <= j < order.len() ==> (#[trigger] order@[j]) < sizes.len(),
            count <= DEBUG_HISTORY_MAX_RECORDS,
            bytes <= DEBUG_HISTORY_MAX_BYTES,
            ({
                let kept = keep_fitting(whole.take(k as int), sizes@, start as nat);
                kept.flags == flags@ && kept.count == count && kept.bytes == bytes
            }),
        decreases order.len() - k,
    {
        let index: usize = order[k];
        assert(whole.take(k + 1).drop_last() =~= whole.take(k as int));
        assert(whole.take(k + 1).last() == index as int);
        if count < DEBUG_HISTORY_MAX_RECORDS && sizes[index] <= DEBUG_HISTORY_MAX_BYTES - bytes {
            flags.set(index, true);
            count += 1;
            bytes += sizes[index];
        }
        k += 1;
    }
    assert(whole.take(k as int) =~= whole);
    flags
}

} // verus!
