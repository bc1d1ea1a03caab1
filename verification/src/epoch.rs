//! Block heights: progress through an epoch and the reference height.

use vstd::prelude::*;

verus! {

/// The number of blocks in one epoch.
pub const EPOCH_LENGTH: u64 = 43200;

/// How far back from an epoch's first block the reference block is taken by
/// default, so that the block lies in the epoch before.
pub const REFERENCE_OFFSET: u64 = 6;

/// Why no epoch figure could be given.
#[derive(Clone, Copy, Debug, PartialEq, Eq, Structural)]
pub enum EpochError {
    /// The current block lies before the block that starts the epoch.
    CurrentBeforeEpochStart,
}

/// The share of the epoch that has passed at `current`, in percent, rounded
/// down.
pub open spec fn progress_of(start: u64, current: u64) -> int {
    (current - start) * 100 / (EPOCH_LENGTH as int)
}

/// The share of the epoch that has passed, in percent, rounded down, for a
/// current block at or after the epoch's first block.
pub fn current_position_in_epoch(start: u64, current: u64) -> (r: u64)
    requires
        start <= current,
    ensures
        r == progress_of(start, current),
{
    let blocks: u128 = (current - start) as u128;
    let percent: u128 = blocks * 100 / (EPOCH_LENGTH as u128);
    assert(percent <= blocks);
    percent as u64
}

/// The share of the epoch that has passed, or the error where the current
/// block lies before the epoch's first block.
pub fn epoch_progress(start: u64, current: u64) -> (r: Result<u64, EpochError>)
    ensures
        start <= current ==> r == Ok::<u64, EpochError>(progress_of(start, current) as u64),
        start <= current ==> progress_of(start, current) <= u64::MAX,
        current < start ==> r == Err::<u64, EpochError>(EpochError::CurrentBeforeEpochStart),
{
    if current < start {
        Err(EpochError::CurrentBeforeEpochStart)
    } else {
        Ok(current_position_in_epoch(start, current))
    }
}

/// The height of the reference block: `offset` blocks before the epoch's
/// first block, or nothing where the chain does not reach that far back.
pub fn reference_height(epoch_start_height: u64, offset: u64) -> (r: Option<u64>)
    ensures
        offset <= epoch_start_height ==> r == Some((epoch_start_height - offset) as u64),
        offset > epoch_start_height ==> r is None,
{
    if offset <= epoch_start_height {
        Some(epoch_start_height - offset)
    } else {
        None
    }
}

} // verus!
