use vstd::prelude::*;
use crate::error::ConsumerGroupError;
use crate::offsets::{
    OffsetResetType,
    PartitionScope,
    ResolvedOffset,
    select_partitions,
    selected,
};

verus! {

/// What the broker answered to the session's last request.
#[derive(Debug)]
pub enum BrokerReply {
    /// The topic's metadata lists these partitions.
    TopicPartitions(Vec<i32>),
    /// The broker's metadata does not hold the topic.
    TopicMissing,
    /// The partition's low and high watermarks.
    Watermarks { low: i64, high: i64 },
    /// The offset that the time index gave for the timestamp; negative where
    /// it matched nothing.
    TimestampOffset(i64),
    /// The commit was acknowledged.
    Committed,
    /// The call failed: the broker could not be reached, timed out, or
    /// refused it. For a timestamp lookup, also an answer without an offset.
    Failed,
}

/// What the session needs from the broker next, or its outcome.
#[derive(Debug)]
pub enum BrokerRequest {
    /// Fetch the topic's metadata.
    FetchMetadata,
    /// Fetch the watermarks of a partition. `after_failed_lookup` is set where
    /// the time index found nothing and the low watermark stands in for it.
    FetchWatermarks { partition: i32, after_failed_lookup: bool },
    /// Ask the time index for the first offset at or after `timestamp`.
    LookupTimestamp { partition: i32, timestamp: i64 },
    /// Commit these offsets for the group, all together, and wait for the
    /// acknowledgement.
    Commit(Vec<ResolvedOffset>),
    /// The session is over.
    Finished(Result<Vec<ResolvedOffset>, ConsumerGroupError>),
}

/// Where a reset session stands.
#[derive(Clone, Copy, Debug, PartialEq, Eq, Structural)]
pub enum ResetPhase {
    AwaitMetadata,
    AwaitWatermarks,
    AwaitTimestamp,
    AwaitCommit,
    Done,
}

/// The abstract state of a reset session.
pub struct ResetState {
    pub target: OffsetResetType,
    pub requested: Seq<i32>,
    pub execute: bool,
    pub phase: ResetPhase,
    /// The partitions selected, once the metadata is in.
    pub partitions: Seq<i32>,
    /// The offsets resolved so far, one per selected partition, in order.
    pub resolved: Seq<ResolvedOffset>,
    /// Whether the current partition's timestamp lookup found nothing.
    pub fallback: bool,
    pub error: Option<ConsumerGroupError>,
}

/// One reset of a group's offsets on one topic, from the metadata fetch to
/// the commit. The caller performs each request against the broker and hands
/// the answer back to `step`; a dry run resolves in the same way and stops
/// before the commit.
pub struct ResetSession {
    target: OffsetResetType,
    scope: PartitionScope,
    execute: bool,
    phase: ResetPhase,
    partitions: Vec<i32>,
    resolved: Vec<ResolvedOffset>,
    fallback: bool,
    error: Option<ConsumerGroupError>,
}

/// The phase once every selected partition is resolved.
pub open spec fn end_phase(execute: bool) -> ResetPhase {
    if execute {
        ResetPhase::AwaitCommit
    } else {
        ResetPhase::Done
    }
}

/// The state that resolves the next partition, or ends the resolution.
pub open spec fn enter_next(s: ResetState) -> ResetState {
    if s.resolved.len() < s.partitions.len() {
        ResetState {
            phase: if s.target is Timestamp {
                ResetPhase::AwaitTimestamp
            } else {
                ResetPhase::AwaitWatermarks
            },
            fallback: false,
            ..s
        }
    } else {
        ResetState { phase: end_phase(s.execute), fallback: false, ..s }
    }
}

/// The offsets of every partition in `partitions` set to `n`.
pub open spec fn all_at(partitions: Seq<i32>, n: i64) -> Seq<ResolvedOffset> {
    partitions.map_values(|p: i32| ResolvedOffset { partition: p, offset: n })
}

/// The partition being resolved.
pub open spec fn current_partition(s: ResetState) -> i32 {
    s.partitions[s.resolved.len() as int]
}

/// `s` with the current partition resolved to `offset`.
pub open spec fn resolve_current(s: ResetState, offset: i64) -> ResetState {
    enter_next(
        ResetState {
            resolved: s.resolved.push(ResolvedOffset { partition: current_partition(s), offset }),
            ..s
        },
    )
}

/// `s` ended by an error.
pub open spec fn fail(s: ResetState, e: ConsumerGroupError) -> ResetState {
    ResetState { phase: ResetPhase::Done, fallback: false, error: Some(e), ..s }
}

/// The state after the broker's answer `reply` to the request of state `s`.
/// An answer that does not fit the request leaves the state as it is.
pub open spec fn next_state(s: ResetState, reply: BrokerReply) -> ResetState {
    match s.phase {
        ResetPhase::AwaitMetadata => match reply {
            BrokerReply::TopicPartitions(ids) => {
                let parts = selected(ids@, s.requested);
                match s.target {
                    OffsetResetType::Offset(n) => ResetState {
                        partitions: parts,
                        resolved: all_at(parts, n),
                        phase: end_phase(s.execute),
                        ..s
                    },
                    _ => enter_next(ResetState { partitions: parts, resolved: Seq::empty(), ..s }),
                }
            },
            BrokerReply::TopicMissing => fail(s, ConsumerGroupError::UnknownTopicOrPartition),
            BrokerReply::Failed => fail(s, ConsumerGroupError::BrokerUnavailable),
            _ => s,
        },
        ResetPhase::AwaitWatermarks => match reply {
            BrokerReply::Watermarks { low, high } => resolve_current(
                s,
                if s.target is Latest {
                    high
                } else {
                    low
                },
            ),
            BrokerReply::Failed => fail(s, ConsumerGroupError::BrokerUnavailable),
            _ => s,
        },
        ResetPhase::AwaitTimestamp => match reply {
            BrokerReply::TimestampOffset(o) => if o >= 0 {
                resolve_current(s, o)
            } else {
                ResetState { phase: ResetPhase::AwaitWatermarks, fallback: true, ..s }
            },
            BrokerReply::Failed => ResetState {
                phase: ResetPhase::AwaitWatermarks,
                fallback: true,
                ..s
            },
            _ => s,
        },
        ResetPhase::AwaitCommit => match reply {
            BrokerReply::Committed => ResetState { phase: ResetPhase::Done, ..s },
            BrokerReply::Failed => fail(s, ConsumerGroupError::CommitFailed),
            _ => s,
        },
        ResetPhase::Done => s,
    }
}

/// Whether `r` is the request that state `s` makes.
pub open spec fn requests(s: ResetState, r: BrokerRequest) -> bool {
    match s.phase {
        ResetPhase::AwaitMetadata => r is FetchMetadata,
        ResetPhase::AwaitWatermarks => r == BrokerRequest::FetchWatermarks {
            partition: current_partition(s),
            after_failed_lookup: s.fallback,
        },
        ResetPhase::AwaitTimestamp => match s.target {
            OffsetResetType::Timestamp(ts) => r == BrokerRequest::LookupTimestamp {
                partition: current_partition(s),
                timestamp: ts,
            },
            _ => false,
        },
        ResetPhase::AwaitCommit => match r {
            BrokerRequest::Commit(set) => set@ == s.resolved,
            _ => false,
        },
        ResetPhase::Done => match r {
            BrokerRequest::Finished(Ok(set)) => s.error is None && set@ == s.resolved,
            BrokerRequest::Finished(Err(e)) => s.error == Some(e),
            _ => false,
        },
    }
}

/// The invariant of a reset session's state.
pub open spec fn state_wf(s: ResetState) -> bool {
    &&& s.resolved.len() <= s.partitions.len()
    &&& forall|i: int|
        0 <= i < s.resolved.len() ==> #[trigger] s.resolved[i].partition == s.partitions[i]
    &&& s.phase is AwaitMetadata ==> s.partitions.len() == 0 && s.resolved.len() == 0
    &&& (s.phase is AwaitWatermarks || s.phase is AwaitTimestamp) ==> s.resolved.len()
        < s.partitions.len()
    &&& s.phase is AwaitTimestamp ==> s.target is Timestamp
    &&& s.phase is AwaitWatermarks ==> !(s.target is Offset)
    &&& s.fallback ==> s.phase is AwaitWatermarks && s.target is Timestamp
    &&& (s.phase is AwaitWatermarks && s.target is Timestamp) ==> s.fallback
    &&& s.phase is AwaitCommit ==> s.execute && s.resolved.len() == s.partitions.len()
    &&& (s.phase is Done && s.error is None) ==> s.resolved.len() == s.partitions.len()
    &&& s.error is Some ==> s.phase is Done
}

impl View for ResetSession {
    type V = ResetState;

    closed spec fn view(&self) -> ResetState {
        ResetState {
            target: self.target,
            requested: self.scope.requested(),
            execute: self.execute,
            phase: self.phase,
            partitions: self.partitions@,
            resolved: self.resolved@,
            fallback: self.fallback,
            error: self.error,
        }
    }
}

/// Copies a list of resolved offsets.
fn copy_offsets(v: &Vec<ResolvedOffset>) -> (r: Vec<ResolvedOffset>)
    ensures
        r@ == v@,
{
    let mut r: Vec<ResolvedOffset> = Vec::new();
    let mut i: usize = 0;
    while i < v.len()
        invariant
            i <= v.len(),
            r@ == v@.subrange(0, i as int),
        decreases v.len() - i,
    {
        r.push(v[i]);
        i = i + 1;
    }
    assert(r@ =~= v@);
    r
}

impl ResetSession {
    /// The invariant of the session.
    pub open spec fn wf(&self) -> bool {
        state_wf(self@)
    }

    /// A session that resets the offsets of the partitions in `scope` to
    /// `target`, committing them where `execute` is set.
    pub fn new(target: OffsetResetType, scope: PartitionScope, execute: bool) -> (r: ResetSession)
        ensures
            r.wf(),
            r@ == (ResetState {
                target,
                requested: scope.requested(),
                execute,
                phase: ResetPhase::AwaitMetadata,
                partitions: Seq::empty(),
                resolved: Seq::empty(),
                fallback: false,
                error: None,
            }),
    {
        let r = ResetSession {
            target,
            scope,
            execute,
            phase: ResetPhase::AwaitMetadata,
            partitions: Vec::new(),
            resolved: Vec::new(),
            fallback: false,
            error: None,
        };
        assert(r@.partitions =~= Seq::empty());
        assert(r@.resolved =~= Seq::empty());
        r
    }

    /// The request that the session makes in its current state.
    pub fn request(&self) -> (r: BrokerRequest)
        requires
            self.wf(),
        ensures
            requests(self@, r),
    {
        match self.phase {
            ResetPhase::AwaitMetadata => BrokerRequest::FetchMetadata,
            ResetPhase::AwaitWatermarks => BrokerRequest::FetchWatermarks {
                partition: self.partitions[self.resolved.len()],
                after_failed_lookup: self.fallback,
            },
            ResetPhase::AwaitTimestamp => {
                let ts = match self.target {
                    OffsetResetType::Timestamp(ts) => ts,
                    _ => 0,
                };
                BrokerRequest::LookupTimestamp {
                    partition: self.partitions[self.resolved.len()],
                    timestamp: ts,
                }
            },
            ResetPhase::AwaitCommit => BrokerRequest::Commit(copy_offsets(&self.resolved)),
            ResetPhase::Done => match self.error {
                Some(e) => BrokerRequest::Finished(Err(e)),
                None => BrokerRequest::Finished(Ok(copy_offsets(&self.resolved))),
            },
        }
    }

    /// Whether the session is over.
    pub fn is_finished(&self) -> (r: bool)
        ensures
            r == (self@.phase is Done),
    {
        self.phase == ResetPhase::Done
    }

    /// Moves to the next partition, or ends the resolution.
    fn enter_next(&mut self)
        ensures
            final(self)@ == enter_next(old(self)@),
    {
        if self.resolved.len() < self.partitions.len() {
            self.phase = match self.target {
                OffsetResetType::Timestamp(_) => ResetPhase::AwaitTimestamp,
                _ => ResetPhase::AwaitWatermarks,
            };
        } else {
            self.phase = if self.execute {
                ResetPhase::AwaitCommit
            } else {
                ResetPhase::Done
            };
        }
        self.fallback = false;
    }

    /// Records `offset` for the partition being resolved and moves on.
    fn resolve_current(&mut self, offset: i64)
        requires
            old(self)@.resolved.len() < old(self)@.partitions.len(),
        ensures
            final(self)@ == resolve_current(old(self)@, offset),
    {
        let p = self.partitions[self.resolved.len()];
        self.resolved.push(ResolvedOffset { partition: p, offset });
        self.enter_next();
    }

    /// Ends the session with `e`.
    fn fail(&mut self, e: ConsumerGroupError)
        ensures
            final(self)@ == fail(old(self)@, e),
    {
        self.phase = ResetPhase::Done;
        self.fallback = false;
        self.error = Some(e);
    }

    /// Takes the broker's answer to the current request.
    pub fn step(&mut self, reply: BrokerReply)
        requires
            old(self).wf(),
        ensures
            final(self).wf(),
            final(self)@ == next_state(old(self)@, reply),
    {
        match self.phase {
            ResetPhase::AwaitMetadata => match reply {
                BrokerReply::TopicPartitions(ids) => {
                    let parts = select_partitions(&ids, &self.scope);
                    match self.target {
                        OffsetResetType::Offset(n) => {
                            let mut resolved: Vec<ResolvedOffset> = Vec::new();
                            let mut i: usize = 0;
                            while i < parts.len()
                                invariant
                                    i <= parts.len(),
                                    resolved@ == all_at(parts@, n).subrange(0, i as int),
                                decreases parts.len() - i,
                            {
                                resolved.push(ResolvedOffset { partition: parts[i], offset: n });
                                i = i + 1;
                                assert(resolved@ =~= all_at(parts@, n).subrange(0, i as int));
                            }
                            assert(resolved@ =~= all_at(parts@, n));
                            self.partitions = parts;
                            self.resolved = resolved;
                            self.phase = if self.execute {
                                ResetPhase::AwaitCommit
                            } else {
                                ResetPhase::Done
                            };
                        },
                        _ => {
                            self.partitions = parts;
                            self.resolved = Vec::new();
                            assert(self.resolved@ =~= Seq::empty());
                            self.enter_next();
                        },
                    }
                },
                BrokerReply::TopicMissing => self.fail(ConsumerGroupError::UnknownTopicOrPartition),
                BrokerReply::Failed => self.fail(ConsumerGroupError::BrokerUnavailable),
                _ => {},
            },
            ResetPhase::AwaitWatermarks => match reply {
                BrokerReply::Watermarks { low, high } => {
                    let offset = match self.target {
                        OffsetResetType::Latest => high,
                        _ => low,
                    };
                    self.resolve_current(offset);
                },
                BrokerReply::Failed => self.fail(ConsumerGroupError::BrokerUnavailable),
                _ => {},
            },
            ResetPhase::AwaitTimestamp => match reply {
                BrokerReply::TimestampOffset(o) => {
                    if o >= 0 {
                        self.resolve_current(o);
                    } else {
                        self.phase = ResetPhase::AwaitWatermarks;
                        self.fallback = true;
                    }
                },
                BrokerReply::Failed => {
                    self.phase = ResetPhase::AwaitWatermarks;
                    self.fallback = true;
                },
                _ => {},
            },
            ResetPhase::AwaitCommit => match reply {
                BrokerReply::Committed => self.phase = ResetPhase::Done,
                BrokerReply::Failed => self.fail(ConsumerGroupError::CommitFailed),
                _ => {},
            },
            ResetPhase::Done => {},
        }
    }
}

} // verus!
