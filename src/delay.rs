//! Delays: turning input values into waits, and deciding when a worker is done.
use vstd::prelude::*;

verus! {

/// The delay, in nanoseconds, that a value stands for: the value itself.
/// A negative value stands for no delay and is rejected.
pub fn delay_of(number: i64) -> (r: Option<u64>)
    ensures
        number >= 0 <==> r.is_some(),
        number >= 0 ==> r == Some(number as u64),
{
    if number >= 0 {
        Some(number as u64)
    } else {
        None
    }
}

/// Every value of `numbers` is a valid delay.
pub open spec fn all_valid(numbers: Seq<i64>) -> bool {
    forall|i: int| 0 <= i < numbers.len() ==> numbers[i] >= 0
}

/// The delays of all the values, in input order, or `None` where any value is
/// negative: the whole sort is then rejected before any worker starts.
pub fn delays_of(numbers: &Vec<i64>) -> (r: Option<Vec<u64>>)
    ensures
        r.is_some() <==> all_valid(numbers@),
        r matches Some(d) ==> d@.len() == numbers@.len() && forall|i: int|
            0 <= i < d@.len() ==> #[trigger] d@[i] == numbers@[i] as u64,
{
    let mut delays: Vec<u64> = Vec::new();
    let mut i: usize = 0;
    while i < numbers.len()
        invariant
            i <= numbers@.len(),
            delays@.len() == i,
            forall|k: int| 0 <= k < i ==> numbers@[k] >= 0,
            forall|k: int| 0 <= k < i ==> #[trigger] delays@[k] == numbers@[k] as u64,
        decreases numbers@.len() - i,
    {
        match delay_of(numbers[i]) {
            Some(d) => delays.push(d),
            None => return None,
        }
        i = i + 1;
    }
    Some(delays)
}

/// What a delay worker does next, after it has measured how long it has waited.
#[derive(Debug, Clone, Copy, PartialEq, Eq, Structural)]
pub enum WorkerAction {
    /// Wait again, for this many more nanoseconds.
    Sleep(u64),
    /// The full delay has passed: send the value.
    Emit,
}

/// The worker's decision once it wakes: a wait may end early, so while the
/// time measured since the start (`elapsed`) falls short of the delay
/// (`target`), it waits again for what is left; otherwise it sends its value.
pub fn next_action(target: u64, elapsed: u128) -> (r: WorkerAction)
    ensures
        elapsed < target ==> r == WorkerAction::Sleep((target - elapsed) as u64),
        elapsed >= target ==> r == WorkerAction::Emit,
{
    if elapsed < target as u128 {
        WorkerAction::Sleep(target - elapsed as u64)
    } else {
        WorkerAction::Emit
    }
}

} // verus!
