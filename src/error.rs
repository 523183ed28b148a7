use vstd::prelude::*;

verus! {

/// The ways a consumer-group operation can fail.
#[derive(Clone, Copy, Debug, PartialEq, Eq, Structural)]
pub enum ConsumerGroupError {
    /// The broker or the group coordinator could not be reached, or timed out.
    BrokerUnavailable,
    /// The broker's metadata does not hold the topic or partition.
    UnknownTopicOrPartition,
    /// No group of that name is known to the coordinator.
    UnknownGroup,
    /// The group still has active members.
    GroupNotEmpty,
    /// A reset request named no reset target.
    InvalidResetRequest,
    /// The broker rejected the offset commit, or it timed out.
    CommitFailed,
}

} // verus!
