//! The collector: turns the messages read from the result channel, in the
//! order they arrived, into the output sequence.
use vstd::prelude::*;

verus! {

/// The output that a sequence of arrived messages yields: the values of the
/// leading run of present messages, in arrival order, up to the first
/// end-of-input marker (`None`).
pub open spec fn collected(messages: Seq<Option<i64>>) -> Seq<i64>
    decreases messages.len(),
{
    if messages.len() == 0 {
        Seq::empty()
    } else {
        match messages[0] {
            Some(v) => seq![v] + collected(messages.drop_first()),
            None => Seq::empty(),
        }
    }
}

/// Handles one message from the channel: a present value is appended to the
/// output and collection goes on (`true`); the end-of-input marker stops it
/// (`false`) and leaves the output as it is.
pub fn collect_step(results: &mut Vec<i64>, message: Option<i64>) -> (go_on: bool)
    ensures
        go_on == message.is_some(),
        message matches Some(v) ==> final(results)@ == old(results)@.push(v),
        message is None ==> final(results)@ == old(results)@,
{
    match message {
        Some(v) => {
            results.push(v);
            true
        },
        None => false,
    }
}

/// The output for the messages that arrived on the channel, in arrival order,
/// before it was closed.
pub fn collect_results(messages: &Vec<Option<i64>>) -> (r: Vec<i64>)
    ensures
        r@ == collected(messages@),
{
    let mut results: Vec<i64> = Vec::new();
    let mut i: usize = 0;
    assert(messages@.subrange(0, messages@.len() as int) =~= messages@);
    assert(results@ + collected(messages@) =~= collected(messages@));
    while i < messages.len()
        invariant_except_break
            i <= messages@.len(),
            results@ + collected(messages@.subrange(i as int, messages@.len() as int))
                == collected(messages@),
        ensures
            results@ == collected(messages@),
        decreases messages@.len() - i,
    {
        let ghost rest = messages@.subrange(i as int, messages@.len() as int);
        assert(rest.drop_first() =~= messages@.subrange(i + 1, messages@.len() as int));
        if !collect_step(&mut results, messages[i]) {
            assert(results@ =~= results@ + collected(rest));
            break;
        }
        assert(results@ + collected(rest.drop_first()) =~= collected(messages@)) by {
            assert(results@ + collected(rest.drop_first())
                =~= results@.drop_last() + (seq![results@.last()] + collected(rest.drop_first())));
        }
        i = i + 1;
    }
    results
}

} // verus!
