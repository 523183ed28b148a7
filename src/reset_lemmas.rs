use vstd::prelude::*;
use crate::offsets::{
    OffsetResetType,
    ResolvedOffset,
    apply_commit,
    lookup_matched,
    resolved_offset,
    selected,
};
use crate::reset::{BrokerReply, ResetPhase, ResetState, next_state, state_wf};

verus! {

/// The state of a session after the replies `replies`, one after another.
pub open spec fn run(s: ResetState, replies: Seq<BrokerReply>) -> ResetState
    decreases replies.len(),
{
    if replies.len() == 0 {
        s
    } else {
        run(next_state(s, replies[0]), replies.drop_first())
    }
}

/// The state of a session just created.
pub open spec fn fresh(target: OffsetResetType, requested: Seq<i32>, execute: bool) -> ResetState {
    ResetState {
        target,
        requested,
        execute,
        phase: ResetPhase::AwaitMetadata,
        partitions: Seq::empty(),
        resolved: Seq::empty(),
        fallback: false,
        error: None,
    }
}

/// A broker whose state stays as it is while a session runs.
pub struct BrokerSnapshot {
    /// The topic's partitions; `None` where the topic is unknown.
    pub topic_partitions: Option<Seq<i32>>,
    pub low: Map<i32, i64>,
    pub high: Map<i32, i64>,
    /// The offset that the time index gives, by partition, for the
    /// session's timestamp; no entry where the lookup fails.
    pub time_index: Map<i32, i64>,
    pub accepts_commit: bool,
}

/// The time index's answer for partition `p`.
pub open spec fn found_in(b: BrokerSnapshot, p: i32) -> Option<i64> {
    if b.time_index.contains_key(p) {
        Some(b.time_index[p])
    } else {
        None
    }
}

/// Whether `reply` is what broker `b` answers to the request of state `s`.
pub open spec fn answers(b: BrokerSnapshot, s: ResetState, reply: BrokerReply) -> bool {
    let p = s.partitions[s.resolved.len() as int];
    match s.phase {
        ResetPhase::AwaitMetadata => match b.topic_partitions {
            Some(ps) => match reply {
                BrokerReply::TopicPartitions(ids) => ids@ == ps,
                _ => false,
            },
            None => reply is TopicMissing,
        },
        ResetPhase::AwaitWatermarks => if b.low.contains_key(p) && b.high.contains_key(p) {
            reply == (BrokerReply::Watermarks { low: b.low[p], high: b.high[p] })
        } else {
            reply is Failed
        },
        ResetPhase::AwaitTimestamp => if b.time_index.contains_key(p) {
            reply == BrokerReply::TimestampOffset(b.time_index[p])
        } else {
            reply is Failed
        },
        ResetPhase::AwaitCommit => if b.accepts_commit {
            reply is Committed
        } else {
            reply is Failed
        },
        ResetPhase::Done => true,
    }
}

/// Whether each of `replies` is what broker `b` answers to the request of
/// the state reached before it, starting from `s`.
pub open spec fn answered_by(b: BrokerSnapshot, s: ResetState, replies: Seq<BrokerReply>) -> bool
    decreases replies.len(),
{
    replies.len() == 0 || (answers(b, s, replies[0]) && answered_by(
        b,
        next_state(s, replies[0]),
        replies.drop_first(),
    ))
}

/// Every resolved offset is what the target gives from the broker's state.
pub open spec fn resolved_from(b: BrokerSnapshot, s: ResetState) -> bool {
    forall|i: int|
        0 <= i < s.resolved.len() ==> #[trigger] s.resolved[i].offset == resolved_offset(
            s.target,
            b.low[s.partitions[i]],
            b.high[s.partitions[i]],
            found_in(b, s.partitions[i]),
        )
}

/// Whether the partition being resolved has fallen back after a lookup
/// that matched nothing.
pub open spec fn fallback_fits(b: BrokerSnapshot, s: ResetState) -> bool {
    s.fallback ==> !(b.time_index.contains_key(s.partitions[s.resolved.len() as int])
        && b.time_index[s.partitions[s.resolved.len() as int]] >= 0)
}

proof fn lemma_step_state_wf(s: ResetState, reply: BrokerReply)
    requires
        state_wf(s),
    ensures
        state_wf(next_state(s, reply)),
{
    let t = next_state(s, reply);
    if s.phase is AwaitMetadata {
        if let BrokerReply::TopicPartitions(ids) = reply {
            if let OffsetResetType::Offset(n) = s.target {
                assert forall|i: int| 0 <= i < t.resolved.len() implies #[trigger] t.resolved[i].partition
                    == t.partitions[i] by {}
            }
        }
    }
}

proof fn lemma_step_resolved_from(b: BrokerSnapshot, s: ResetState, reply: BrokerReply)
    requires
        state_wf(s),
        resolved_from(b, s),
        fallback_fits(b, s),
        answers(b, s, reply),
    ensures
        resolved_from(b, next_state(s, reply)),
        fallback_fits(b, next_state(s, reply)),
{
    let t = next_state(s, reply);
    let k = s.resolved.len() as int;
    if s.phase is AwaitMetadata {
        if let BrokerReply::TopicPartitions(ids) = reply {
            if let OffsetResetType::Offset(n) = s.target {
                assert forall|i: int| 0 <= i < t.resolved.len() implies #[trigger] t.resolved[i].offset
                    == resolved_offset(
                    t.target,
                    b.low[t.partitions[i]],
                    b.high[t.partitions[i]],
                    found_in(b, t.partitions[i]),
                ) by {}
            }
        }
    } else if s.phase is AwaitWatermarks || s.phase is AwaitTimestamp {
        if t.resolved.len() > s.resolved.len() {
            assert forall|i: int| 0 <= i < t.resolved.len() implies #[trigger] t.resolved[i].offset
                == resolved_offset(
                t.target,
                b.low[t.partitions[i]],
                b.high[t.partitions[i]],
                found_in(b, t.partitions[i]),
            ) by {
                if i < k {
                    assert(t.resolved[i] == s.resolved[i]);
                } else {
                    let p = s.partitions[k];
                    assert(t.partitions[i] == p);
                    match reply {
                        BrokerReply::Watermarks { low, high } => {
                            assert(s.phase is AwaitWatermarks);
                            assert(low == b.low[p] && high == b.high[p]);
                            let off = if s.target is Latest {
                                high
                            } else {
                                low
                            };
                            assert(t.resolved == s.resolved.push(
                                ResolvedOffset { partition: p, offset: off },
                            ));
                            if s.target is Timestamp {
                                assert(s.fallback);
                                assert(!lookup_matched(found_in(b, p)));
                            }
                            assert(resolved_offset(s.target, b.low[p], b.high[p], found_in(b, p)) == off);
                            assert(t.resolved[i].offset == off);
                        },
                        BrokerReply::TimestampOffset(o) => {
                            assert(s.phase is AwaitTimestamp);
                            assert(found_in(b, p) == Some(o));
                            assert(o >= 0);
                            assert(t.resolved[i].offset == o);
                            assert(t.resolved == s.resolved.push(
                                ResolvedOffset { partition: p, offset: o },
                            ));
                        },
                        _ => {},
                    }
                }
            }
        }
    }
}

proof fn lemma_run_resolved_from(b: BrokerSnapshot, s: ResetState, replies: Seq<BrokerReply>)
    requires
        state_wf(s),
        resolved_from(b, s),
        fallback_fits(b, s),
        answered_by(b, s, replies),
    ensures
        state_wf(run(s, replies)),
        resolved_from(b, run(s, replies)),
    decreases replies.len(),
{
    if replies.len() > 0 {
        lemma_step_state_wf(s, replies[0]);
        lemma_step_resolved_from(b, s, replies[0]);
        lemma_run_resolved_from(b, next_state(s, replies[0]), replies.drop_first());
    }
}

/// Against a broker whose state does not change, every offset that a
/// reset resolves is the one its target gives from the partition's
/// watermarks and the time index: the low watermark for the earliest
/// target, the high watermark for the latest, a given offset as it is,
/// and for a timestamp the offset found, or the low watermark where the
/// lookup matched nothing.
pub proof fn lemma_reset_resolves_from_broker(
    b: BrokerSnapshot,
    target: OffsetResetType,
    requested: Seq<i32>,
    execute: bool,
    replies: Seq<BrokerReply>,
)
    requires
        answered_by(b, fresh(target, requested, execute), replies),
    ensures
        ({
            let s = run(fresh(target, requested, execute), replies);
            forall|i: int|
                0 <= i < s.resolved.len() ==> {
                    let p = s.partitions[i];
                    &&& #[trigger] s.resolved[i].partition == p
                    &&& s.resolved[i].offset == resolved_offset(
                        target,
                        b.low[p],
                        b.high[p],
                        found_in(b, p),
                    )
                    &&& target is Earliest ==> s.resolved[i].offset == b.low[p]
                    &&& target is Latest ==> s.resolved[i].offset == b.high[p]
                    &&& (target is Timestamp && !lookup_matched(found_in(b, p)))
                        ==> s.resolved[i].offset == b.low[p]
                }
        }),
{
    lemma_run_state_wf(fresh(target, requested, execute), replies);
    lemma_run_resolved_from(b, fresh(target, requested, execute), replies);
    lemma_run_keeps_target(fresh(target, requested, execute), replies);
}

proof fn lemma_run_keeps_target(s: ResetState, replies: Seq<BrokerReply>)
    ensures
        run(s, replies).target == s.target,
        run(s, replies).requested == s.requested,
        run(s, replies).execute == s.execute,
    decreases replies.len(),
{
    if replies.len() > 0 {
        lemma_run_keeps_target(next_state(s, replies[0]), replies.drop_first());
    }
}

proof fn lemma_run_state_wf(s: ResetState, replies: Seq<BrokerReply>)
    requires
        state_wf(s),
    ensures
        state_wf(run(s, replies)),
    decreases replies.len(),
{
    if replies.len() > 0 {
        lemma_step_state_wf(s, replies[0]);
        lemma_run_state_wf(next_state(s, replies[0]), replies.drop_first());
    }
}

/// Every offset resolved so far is `n`.
pub open spec fn all_resolved_to(s: ResetState, n: i64) -> bool {
    forall|i: int| 0 <= i < s.resolved.len() ==> #[trigger] s.resolved[i].offset == n
}

proof fn lemma_run_offset_target(s: ResetState, n: i64, replies: Seq<BrokerReply>)
    requires
        state_wf(s),
        s.target == OffsetResetType::Offset(n),
        all_resolved_to(s, n),
    ensures
        all_resolved_to(run(s, replies), n),
    decreases replies.len(),
{
    if replies.len() > 0 {
        lemma_step_state_wf(s, replies[0]);
        lemma_run_offset_target(next_state(s, replies[0]), n, replies.drop_first());
    }
}

/// A reset to a given offset asks the broker for no watermarks and no
/// timestamp lookup, whatever the broker answers, and resolves every
/// selected partition to that offset.
pub proof fn lemma_offset_target_needs_no_lookup(
    n: i64,
    requested: Seq<i32>,
    execute: bool,
    replies: Seq<BrokerReply>,
)
    requires
        n >= 0,
    ensures
        !(run(fresh(OffsetResetType::Offset(n), requested, execute), replies).phase is AwaitWatermarks),
        !(run(fresh(OffsetResetType::Offset(n), requested, execute), replies).phase is AwaitTimestamp),
        all_resolved_to(run(fresh(OffsetResetType::Offset(n), requested, execute), replies), n),
{
    let s0 = fresh(OffsetResetType::Offset(n), requested, execute);
    lemma_run_state_wf(s0, replies);
    lemma_run_keeps_target(s0, replies);
    lemma_run_offset_target(s0, n, replies);
}

/// A timestamp lookup that fails, or finds no offset, never ends a reset
/// in an error: the session goes on to the partition's low watermark.
pub proof fn lemma_failed_lookup_falls_back(s: ResetState, reply: BrokerReply)
    requires
        state_wf(s),
        s.phase is AwaitTimestamp,
        reply is Failed || (reply matches BrokerReply::TimestampOffset(o) && o < 0),
    ensures
        next_state(s, reply).error == s.error,
        next_state(s, reply).phase is AwaitWatermarks,
        next_state(s, reply).fallback,
        next_state(s, reply).resolved == s.resolved,
{
}

/// Whether `b` holds the topic, the watermarks of every partition that a
/// reset of `requested` selects, and takes commits.
pub open spec fn serves(b: BrokerSnapshot, requested: Seq<i32>) -> bool {
    &&& b.topic_partitions is Some
    &&& forall|p: i32|
        #[trigger] selected(b.topic_partitions->0, requested).contains(p) ==> b.low.contains_key(p)
            && b.high.contains_key(p)
    &&& b.accepts_commit
}

/// The selected partitions agree with the broker's metadata: none are
/// selected before it comes in or where it failed, else those of the topic
/// for the scope.
pub open spec fn selection_from(b: BrokerSnapshot, s: ResetState) -> bool {
    s.phase is AwaitMetadata || (s.error is Some && s.partitions.len() == 0) || (
    b.topic_partitions is Some && s.partitions == selected(b.topic_partitions->0, s.requested))
}

proof fn lemma_run_without_error(b: BrokerSnapshot, s: ResetState, replies: Seq<BrokerReply>)
    requires
        state_wf(s),
        serves(b, s.requested),
        selection_from(b, s),
        s.error is None,
        answered_by(b, s, replies),
    ensures
        run(s, replies).error is None,
    decreases replies.len(),
{
    if replies.len() > 0 {
        let t = next_state(s, replies[0]);
        lemma_step_state_wf(s, replies[0]);
        if s.phase is AwaitWatermarks {
            let k = s.resolved.len() as int;
            let p = s.partitions[k];
            assert(s.partitions.contains(p)) by {
                assert(s.partitions[k] == p);
            }
            assert(s.partitions == selected(b.topic_partitions->0, s.requested));
            assert(selected(b.topic_partitions->0, s.requested).contains(p));
            assert(b.low.contains_key(p) && b.high.contains_key(p));
        }
        assert(t.error is None);
        assert(selection_from(b, t));
        lemma_run_without_error(b, t, replies.drop_first());
    }
}

/// Against a broker that holds the topic and the watermarks of every
/// selected partition and takes the commit, a reset never fails, whatever
/// the time index answers: a timestamp that matches nothing falls back to
/// the low watermark.
pub proof fn lemma_reset_completes_against_serving_broker(
    b: BrokerSnapshot,
    target: OffsetResetType,
    requested: Seq<i32>,
    execute: bool,
    replies: Seq<BrokerReply>,
)
    requires
        serves(b, requested),
        answered_by(b, fresh(target, requested, execute), replies),
    ensures
        run(fresh(target, requested, execute), replies).error is None,
{
    lemma_run_without_error(b, fresh(target, requested, execute), replies);
}

/// Two sessions that agree on everything but whether they commit: the dry
/// run `a` and the executing `b`.
pub open spec fn mirrors(a: ResetState, b: ResetState) -> bool {
    &&& !a.execute && b.execute
    &&& a.target == b.target && a.requested == b.requested
    &&& a.partitions == b.partitions && a.resolved == b.resolved && a.fallback == b.fallback
    &&& ((a.phase == b.phase && a.error == b.error && !(a.phase is AwaitCommit)) || (a.phase is Done
        && a.error is None && (b.phase is AwaitCommit || b.phase is Done)))
}

proof fn lemma_run_mirrors(a: ResetState, b: ResetState, replies: Seq<BrokerReply>)
    requires
        state_wf(a),
        state_wf(b),
        mirrors(a, b),
    ensures
        mirrors(run(a, replies), run(b, replies)),
    decreases replies.len(),
{
    if replies.len() > 0 {
        lemma_step_state_wf(a, replies[0]);
        lemma_step_state_wf(b, replies[0]);
        lemma_run_mirrors(next_state(a, replies[0]), next_state(b, replies[0]), replies.drop_first());
    }
}

/// A dry run and an executed reset of the same request, given the same
/// answers by the broker, select the same partitions and resolve them to
/// the same offsets. The dry run never reaches the commit; where the
/// executed reset succeeds, so does the dry run.
pub proof fn lemma_dry_run_matches_execute(
    target: OffsetResetType,
    requested: Seq<i32>,
    replies: Seq<BrokerReply>,
)
    ensures
        ({
            let a = run(fresh(target, requested, false), replies);
            let b = run(fresh(target, requested, true), replies);
            &&& a.partitions == b.partitions
            &&& a.resolved == b.resolved
            &&& !(a.phase is AwaitCommit)
            &&& (b.phase is Done && b.error is None) ==> (a.phase is Done && a.error is None)
        }),
{
    lemma_run_mirrors(fresh(target, requested, false), fresh(target, requested, true), replies);
}

/// A commit of `set` gives each partition in it the offset of its last
/// entry, and leaves every other partition's committed offset as it was.
pub proof fn lemma_commit_touches_only_its_partitions(
    committed: Map<i32, i64>,
    set: Seq<ResolvedOffset>,
    p: i32,
)
    ensures
        (forall|i: int| 0 <= i < set.len() ==> #[trigger] set[i].partition != p) ==> (apply_commit(
            committed,
            set,
        ).contains_key(p) == committed.contains_key(p) && apply_commit(committed, set)[p]
            == committed[p]),
        forall|i: int|
            0 <= i < set.len() && #[trigger] set[i].partition == p && (forall|j: int|
                i < j < set.len() ==> set[j].partition != p) ==> apply_commit(
                committed,
                set,
            ).contains_key(p) && apply_commit(committed, set)[p] == set[i].offset,
    decreases set.len(),
{
    if set.len() > 0 {
        let rest = set.drop_last();
        lemma_commit_touches_only_its_partitions(committed, rest, p);
        assert forall|i: int|
            0 <= i < set.len() && #[trigger] set[i].partition == p && (forall|j: int|
                i < j < set.len() ==> set[j].partition != p) implies apply_commit(
            committed,
            set,
        ).contains_key(p) && apply_commit(committed, set)[p] == set[i].offset by {
            if i < set.len() - 1 {
                assert(set[set.len() - 1].partition != p);
                assert(rest[i] == set[i]);
                assert forall|j: int| i < j < rest.len() implies rest[j].partition != p by {
                    assert(rest[j] == set[j]);
                }
            }
        }
        if forall|i: int| 0 <= i < set.len() ==> #[trigger] set[i].partition != p {
            assert forall|i: int| 0 <= i < rest.len() implies #[trigger] rest[i].partition != p by {
                assert(rest[i] == set[i]);
            }
            assert(set[set.len() - 1].partition != p);
        }
    }
}

proof fn lemma_run_selection_from(b: BrokerSnapshot, s: ResetState, replies: Seq<BrokerReply>)
    requires
        state_wf(s),
        selection_from(b, s),
        answered_by(b, s, replies),
    ensures
        selection_from(b, run(s, replies)),
    decreases replies.len(),
{
    if replies.len() > 0 {
        lemma_step_state_wf(s, replies[0]);
        lemma_run_selection_from(b, next_state(s, replies[0]), replies.drop_first());
    }
}

/// Against a broker whose state does not change, the commit that an
/// executed reset asks for holds exactly the partitions selected from the
/// topic's metadata, in order, and leaves the committed offset of every
/// other partition as it was.
pub proof fn lemma_execute_commits_exactly_the_selection(
    b: BrokerSnapshot,
    target: OffsetResetType,
    requested: Seq<i32>,
    replies: Seq<BrokerReply>,
    committed: Map<i32, i64>,
    p: i32,
)
    requires
        answered_by(b, fresh(target, requested, true), replies),
        run(fresh(target, requested, true), replies).phase is AwaitCommit,
    ensures
        ({
            let s = run(fresh(target, requested, true), replies);
            let chosen = selected(b.topic_partitions->0, requested);
            &&& b.topic_partitions is Some
            &&& s.resolved.len() == chosen.len()
            &&& forall|i: int| 0 <= i < chosen.len() ==> #[trigger] s.resolved[i].partition == chosen[i]
            &&& !chosen.contains(p) ==> apply_commit(committed, s.resolved).contains_key(p)
                == committed.contains_key(p) && apply_commit(committed, s.resolved)[p] == committed[p]
        }),
{
    let s0 = fresh(target, requested, true);
    let s = run(s0, replies);
    lemma_run_state_wf(s0, replies);
    lemma_run_keeps_target(s0, replies);
    lemma_run_selection_from(b, s0, replies);
    let chosen = selected(b.topic_partitions->0, requested);
    lemma_commit_touches_only_its_partitions(committed, s.resolved, p);
    if !chosen.contains(p) {
        assert forall|i: int| 0 <= i < s.resolved.len() implies #[trigger] s.resolved[i].partition != p by {
            assert(s.resolved[i].partition == chosen[i]);
        }
    }
}

/// An upper bound on the broker answers a session still needs before it is
/// done: two for each partition left (a timestamp lookup may be followed by
/// a watermark fetch), one for the commit, and, before the metadata, one
/// for it and two for each partition that it will select.
pub open spec fn answers_left(b: BrokerSnapshot, s: ResetState) -> nat {
    let left = (s.partitions.len() - s.resolved.len()) as nat;
    match s.phase {
        ResetPhase::AwaitMetadata => 2 * selected(b.topic_partitions->0, s.requested).len() + 2,
        ResetPhase::AwaitTimestamp => 2 * left + 1,
        ResetPhase::AwaitWatermarks => 2 * left,
        ResetPhase::AwaitCommit => 1,
        ResetPhase::Done => 0,
    }
}

proof fn lemma_run_reaches_done(b: BrokerSnapshot, s: ResetState, replies: Seq<BrokerReply>)
    requires
        state_wf(s),
        answered_by(b, s, replies),
        replies.len() >= answers_left(b, s),
    ensures
        run(s, replies).phase is Done,
    decreases replies.len(),
{
    if replies.len() > 0 {
        let t = next_state(s, replies[0]);
        lemma_step_state_wf(s, replies[0]);
        if !(s.phase is Done) {
            assert(answers_left(b, t) < answers_left(b, s));
        }
        lemma_run_reaches_done(b, t, replies.drop_first());
    }
}

/// Against a broker that holds the topic and the watermarks of every
/// selected partition and takes the commit, a reset that has had the
/// broker's answers to all its requests is over, and has succeeded,
/// whatever the time index answers: at most two answers for each selected
/// partition, one for the metadata and one for the commit.
pub proof fn lemma_reset_finishes_against_serving_broker(
    b: BrokerSnapshot,
    target: OffsetResetType,
    requested: Seq<i32>,
    execute: bool,
    replies: Seq<BrokerReply>,
)
    requires
        serves(b, requested),
        answered_by(b, fresh(target, requested, execute), replies),
        replies.len() >= 2 * selected(b.topic_partitions->0, requested).len() + 2,
    ensures
        run(fresh(target, requested, execute), replies).phase is Done,
        run(fresh(target, requested, execute), replies).error is None,
{
    lemma_run_reaches_done(b, fresh(target, requested, execute), replies);
    lemma_run_without_error(b, fresh(target, requested, execute), replies);
}

} // verus!
