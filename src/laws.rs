//! What holds of the output for every order in which the workers' messages
//! can arrive.
use vstd::prelude::*;
use vstd::relations::{sorted_by, total_ordering};
use vstd::seq_lib::{group_to_multiset_ensures, lemma_sorted_unique};
use crate::collect::collected;

verus! {

/// The messages that workers send for these values: one present message each.
pub open spec fn sent(values: Seq<i64>) -> Seq<Option<i64>> {
    values.map_values(|v: i64| Some(v))
}

/// The ascending order on values.
pub open spec fn ascending(a: i64, b: i64) -> bool {
    a <= b
}

/// When only present messages arrive, the collector keeps all of them, in
/// arrival order.
pub proof fn lemma_collect_sent(arrived: Seq<i64>)
    ensures
        collected(sent(arrived)) == arrived,
    decreases arrived.len(),
{
    if arrived.len() > 0 {
        assert(sent(arrived).drop_first() =~= sent(arrived.drop_first()));
        lemma_collect_sent(arrived.drop_first());
        assert(seq![arrived[0]] + arrived.drop_first() =~= arrived);
    }
}

/// The output is a permutation of the input: whatever order the channel
/// delivers the workers' messages in (`arrived` holds each input value once),
/// the collector returns the same multiset of values, and as many.
pub proof fn lemma_output_is_permutation(values: Seq<i64>, arrived: Seq<i64>)
    requires
        arrived.to_multiset() == values.to_multiset(),
    ensures
        collected(sent(arrived)).to_multiset() == values.to_multiset(),
        collected(sent(arrived)).len() == values.len(),
{
    broadcast use group_to_multiset_ensures;
    lemma_collect_sent(arrived);
    assert(arrived.len() == arrived.to_multiset().len());
    assert(values.len() == values.to_multiset().len());
}

/// Distinct input values lie at least `gap` apart.
pub open spec fn spaced(values: Seq<i64>, gap: int) -> bool {
    forall|i: int, j: int|
        #![trigger values[i], values[j]]
        0 <= i < values.len() && 0 <= j < values.len() && values[i] < values[j]
            ==> values[i] + gap <= values[j]
}

/// Sorted output under enough spacing. Each worker sends its value `v` at a
/// time `t` with `v <= t` (it never sends before its full delay has passed)
/// and `t < v + gap` (it wakes less than `gap` late); the channel delivers in
/// the order of sending. Then, when distinct input values lie at least `gap`
/// apart, the output is the ascending sort of the input.
pub proof fn lemma_spaced_output_sorted(
    values: Seq<i64>,
    arrived: Seq<i64>,
    times: Seq<int>,
    gap: int,
)
    requires
        arrived.to_multiset() == values.to_multiset(),
        times.len() == arrived.len(),
        forall|i: int, j: int| 0 <= i < j < times.len() ==> times[i] <= times[j],
        forall|i: int| 0 <= i < arrived.len() ==> arrived[i] <= #[trigger] times[i] < arrived[i] + gap,
        spaced(values, gap),
    ensures
        collected(sent(arrived)) == values.sort_by(|a: i64, b: i64| ascending(a, b)),
{
    broadcast use group_to_multiset_ensures;
    let leq = |a: i64, b: i64| ascending(a, b);
    lemma_collect_sent(arrived);
    assert forall|i: int, j: int| 0 <= i < j < arrived.len() implies #[trigger] leq(arrived[i], arrived[j]) by {
        if arrived[j] < arrived[i] {
            assert(arrived.contains(arrived[i]));
            assert(arrived.contains(arrived[j]));
            assert(values.to_multiset().count(arrived[i]) > 0);
            assert(values.to_multiset().count(arrived[j]) > 0);
            assert(values.contains(arrived[i]));
            assert(values.contains(arrived[j]));
            let a = choose|a: int| 0 <= a < values.len() && values[a] == arrived[j];
            let b = choose|b: int| 0 <= b < values.len() && values[b] == arrived[i];
            assert(values[a] + gap <= values[b]);
            assert(times[i] <= times[j]);
            assert(arrived[i] <= times[i]);
            assert(times[j] < arrived[j] + gap);
        }
    }
    assert(total_ordering(leq));
    values.lemma_sort_by_ensures(leq);
    lemma_sorted_unique(arrived, values.sort_by(leq), leq);
}

} // verus!
