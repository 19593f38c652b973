//! A walk given as splits: stretches of one fixed length, each known only by
//! its metres of ascent and of descent.

use crate::stats::{empty_tally, PathStats};
use vstd::prelude::*;

verus! {

/// The splits of a walk, in walking order: metres up and metres down.
#[derive(Debug, PartialEq, Eq)]
pub struct Splits {
    pub splits: Vec<(i32, i32)>,
}

/// A setting that the estimate cannot work with.
#[derive(Clone, Copy, Debug, PartialEq, Eq)]
pub enum ConfigurationError {
    /// The length of a split was below zero.
    NegativeSplitLength,
}

/// One line of the time table: the split between the marks `from` and `to`,
/// its walking time and the time walked up to its end, in seconds.
#[derive(Clone, Copy, Debug, PartialEq, Eq)]
pub struct SplitTime {
    pub from: usize,
    pub to: usize,
    pub duration: u64,
    pub elapsed: u64,
}

/// Signed climb of a split: ascent less descent.
pub open spec fn split_climb(split: (i32, i32)) -> int {
    split.0 - split.1
}

/// The sum of a run of walking times.
pub open spec fn total(durations: Seq<u64>) -> nat
    decreases durations.len(),
{
    if durations.len() == 0 {
        0
    } else {
        total(durations.drop_last()) + durations.last() as nat
    }
}

/// The first walking times of a run sum to no more than all of them.
pub proof fn lemma_total_prefix(durations: Seq<u64>, k: int)
    requires
        0 <= k <= durations.len(),
    ensures
        total(durations.take(k)) <= total(durations),
    decreases durations.len(),
{
    if k == durations.len() {
        assert(durations.take(k) =~= durations);
    } else {
        lemma_total_prefix(durations.drop_last(), k);
        assert(durations.drop_last().take(k) =~= durations.take(k));
    }
}

/// The time walked at the end of the last split is the sum of the walking
/// times of all splits.
pub proof fn lemma_last_elapsed_is_total(durations: Seq<u64>, table: Seq<SplitTime>)
    requires
        durations.len() > 0,
        is_time_table(durations, table),
    ensures
        table.last().elapsed == total(durations),
{
    assert(durations.take(durations.len() as int) =~= durations);
}

/// Whether `table` is the time table of these walking times: one line for
/// each, in order, with the sum up to and with that split beside it.
pub open spec fn is_time_table(durations: Seq<u64>, table: Seq<SplitTime>) -> bool {
    &&& table.len() == durations.len()
    &&& forall|i: int|
        0 <= i < durations.len() ==> #[trigger] table[i] == (SplitTime {
            from: i as usize,
            to: (i + 1) as usize,
            duration: durations[i],
            elapsed: total(durations.take(i + 1)) as u64,
        })
    &&& forall|i: int|
        0 <= i < durations.len() ==> total(#[trigger] durations.take(i + 1)) <= u64::MAX
}

/// Accepts a split length in metres that is not below zero.
pub fn split_length(meters: i32) -> (checked: Result<i32, ConfigurationError>)
    ensures
        meters >= 0 ==> checked == Ok::<i32, ConfigurationError>(meters),
        meters < 0 ==> checked == Err::<i32, ConfigurationError>(
            ConfigurationError::NegativeSplitLength,
        ),
{
    if meters >= 0 {
        Ok(meters)
    } else {
        Err(ConfigurationError::NegativeSplitLength)
    }
}

/// The figures of a walk given by splits. Splits carry neither distances
/// nor heights, so these are the figures of a path without legs.
pub fn stats(splits: &Splits, split_length: i32) -> (figures: PathStats)
    ensures
        figures@ == empty_tally(),
{
    PathStats::default()
}

/// The signed climb of each split in metres, in order.
pub fn split_deltas(splits: &Vec<(i32, i32)>) -> (deltas: Vec<i64>)
    ensures
        deltas@.len() == splits@.len(),
        forall|i: int| 0 <= i < splits@.len() ==> #[trigger] deltas@[i] == split_climb(splits@[i]),
{
    let mut deltas: Vec<i64> = Vec::new();
    let mut i: usize = 0;
    while i < splits.len()
        invariant
            i <= splits@.len(),
            deltas@.len() == i,
            forall|k: int| 0 <= k < i ==> #[trigger] deltas@[k] == split_climb(splits@[k]),
        decreases splits@.len() - i,
    {
        let split = splits[i];
        deltas.push(split.0 as i64 - split.1 as i64);
        i += 1;
    }
    deltas
}

/// Whether `seconds` is the walking time of `split` over `split_length`:
/// what `slope_speed` gives for the split's signed climb and that length,
/// and zero for a split of no length, whatever the law.
pub open spec fn split_timed_by<F: Fn(i64, i32) -> u64>(
    split: (i32, i32),
    split_length: i32,
    slope_speed: F,
    seconds: u64,
) -> bool {
    if split_length == 0 {
        seconds == 0
    } else {
        slope_speed.ensures((split_climb(split) as i64, split_length), seconds)
    }
}

/// The walking time of each split in seconds, in order: what `slope_speed`
/// gives for the split's signed climb over `split_length`, both in metres.
/// A length below zero is rejected. Over a length of zero every split takes
/// no time, and the law is not asked.
pub fn calculate_travel_time<F: Fn(i64, i32) -> u64>(
    splits: &Vec<(i32, i32)>,
    split_length: i32,
    slope_speed: F,
) -> (time_table: Result<Vec<u64>, ConfigurationError>)
    requires
        split_length > 0 ==> forall|i: int|
            0 <= i < splits@.len() ==> slope_speed.requires(
                (#[trigger] split_climb(splits@[i]) as i64, split_length),
            ),
    ensures
        split_length < 0 ==> time_table == Err::<Vec<u64>, ConfigurationError>(
            ConfigurationError::NegativeSplitLength,
        ),
        split_length >= 0 ==> time_table.is_ok(),
        time_table matches Ok(times) ==> {
            &&& times@.len() == splits@.len()
            &&& forall|i: int|
                0 <= i < splits@.len() ==> split_timed_by(
                    splits@[i],
                    split_length,
                    slope_speed,
                    #[trigger] times@[i],
                )
        },
{
    if split_length < 0 {
        return Err(ConfigurationError::NegativeSplitLength);
    }
    let mut times: Vec<u64> = Vec::new();
    let mut i: usize = 0;
    while i < splits.len()
        invariant
            i <= splits@.len(),
            split_length >= 0,
            times@.len() == i,
            split_length > 0 ==> forall|k: int|
                0 <= k < splits@.len() ==> slope_speed.requires(
                    (#[trigger] split_climb(splits@[k]) as i64, split_length),
                ),
            forall|k: int|
                0 <= k < i ==> split_timed_by(
                    splits@[k],
                    split_length,
                    slope_speed,
                    #[trigger] times@[k],
                ),
        decreases splits@.len() - i,
    {
        let split = splits[i];
        let climb: i64 = split.0 as i64 - split.1 as i64;
        assert(climb == split_climb(splits@[i as int]) as i64);
        if split_length == 0 {
            times.push(0);
        } else {
            times.push(slope_speed(climb, split_length));
        }
        i += 1;
    }
    Ok(times)
}

/// The sum of the walking times, or `None` where it outgrows a machine word.
pub fn checked_total(durations: &Vec<u64>) -> (sum: Option<u64>)
    ensures
        total(durations@) <= u64::MAX ==> sum == Some(total(durations@) as u64),
        total(durations@) > u64::MAX ==> sum.is_none(),
{
    let mut sum: u64 = 0;
    let mut i: usize = 0;
    while i < durations.len()
        invariant
            i <= durations@.len(),
            sum == total(durations@.take(i as int)),
        decreases durations@.len() - i,
    {
        proof {
            assert(durations@.take(i + 1).drop_last() =~= durations@.take(i as int));
            lemma_total_prefix(durations@, i + 1);
        }
        if durations[i] > u64::MAX - sum {
            return None;
        }
        sum = sum + durations[i];
        i += 1;
    }
    proof {
        assert(durations@.take(i as int) =~= durations@);
    }
    Some(sum)
}

/// The time table of a walk: for each split its marks, its walking time and
/// the running sum.
pub fn time_table(durations: &Vec<u64>) -> (table: Vec<SplitTime>)
    requires
        total(durations@) <= u64::MAX,
    ensures
        is_time_table(durations@, table@),
        durations@.len() > 0 ==> table@.last().elapsed == total(durations@),
{
    let mut table: Vec<SplitTime> = Vec::new();
    let mut elapsed: u64 = 0;
    let mut i: usize = 0;
    while i < durations.len()
        invariant
            i <= durations@.len(),
            total(durations@) <= u64::MAX,
            elapsed == total(durations@.take(i as int)),
            table@.len() == i,
            forall|k: int|
                0 <= k < i ==> #[trigger] table@[k] == (SplitTime {
                    from: k as usize,
                    to: (k + 1) as usize,
                    duration: durations@[k],
                    elapsed: total(durations@.take(k + 1)) as u64,
                }),
            forall|k: int| 0 <= k < i ==> total(#[trigger] durations@.take(k + 1)) <= u64::MAX,
        decreases durations@.len() - i,
    {
        proof {
            assert(durations@.take(i + 1).drop_last() =~= durations@.take(i as int));
            lemma_total_prefix(durations@, i + 1);
        }
        elapsed = elapsed + durations[i];
        table.push(SplitTime { from: i, to: i + 1, duration: durations[i], elapsed });
        i += 1;
    }
    proof {
        assert(durations@.take(i as int) =~= durations@);
    }
    table
}

} // verus!
