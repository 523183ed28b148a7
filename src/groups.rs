use vstd::prelude::*;
use vstd::string::StrSliceExecFns;
use crate::error::ConsumerGroupError;

verus! {

/// A member of a consumer group.
#[derive(Debug)]
pub struct GroupMemberInfo {
    pub member_id: String,
    pub client_id: String,
    pub host: String,
}

/// A consumer group as the coordinator describes it.
#[derive(Debug)]
pub struct ConsumerGroupInfo {
    pub name: String,
    pub state: String,
    pub members: Vec<GroupMemberInfo>,
}

/// A group's position on one partition, beside the partition's end.
#[derive(Debug)]
pub struct GroupOffsetInfo {
    pub topic: String,
    pub partition: i32,
    /// The committed offset; -1 where the group has committed none.
    pub current_offset: i64,
    /// The high watermark; -1 where it could not be fetched.
    pub log_end_offset: i64,
    /// How far the group is behind; -1 where that is unknown.
    pub lag: i64,
}

/// What the coordinator holds as a group's committed position on a partition.
#[derive(Clone, Copy, Debug, PartialEq, Eq, Structural)]
pub enum CommittedPosition {
    /// A concrete offset.
    At(i64),
    /// The group has committed nothing there.
    NotCommitted,
    /// A symbolic position (beginning, end, stored, from the tail).
    Symbolic,
}

/// The lag of a group at `current` on a partition that ends at `log_end`:
/// their difference where both are known, else -1.
pub open spec fn lag_of(current: i64, log_end: i64) -> int {
    if current >= 0 && log_end >= 0 {
        log_end - current
    } else {
        -1
    }
}

/// Whether a topic is internal to the broker: its name starts with two
/// underscores.
pub open spec fn internal_topic(name: Seq<char>) -> bool {
    name.len() >= 2 && name[0] == '_' && name[1] == '_'
}

/// The index of the first group named `name`, if there is one.
pub open spec fn first_named(groups: Seq<ConsumerGroupInfo>, name: Seq<char>) -> Option<int> {
    if exists|i: int| 0 <= i < groups.len() && #[trigger] groups[i].name@ == name {
        Some(
            choose|i: int|
                0 <= i < groups.len() && #[trigger] groups[i].name@ == name && forall|j: int|
                    0 <= j < i ==> groups[j].name@ != name,
        )
    } else {
        None
    }
}

/// Whether row `o` belongs in a listing of lag: a topic of users, with an
/// offset committed.
pub open spec fn lag_bearing(o: GroupOffsetInfo) -> bool {
    !internal_topic(o.topic@) && o.current_offset >= 0
}

/// Whether `name` passes the topic filter: no filter, or one that names it.
pub open spec fn passes_filter(filter: Option<Vec<String>>, name: Seq<char>) -> bool {
    match filter {
        None => true,
        Some(names) => exists|i: int| 0 <= i < names@.len() && #[trigger] names@[i]@ == name,
    }
}

impl CommittedPosition {
    /// The offset reported for the group on the partition: the committed
    /// offset, -1 where nothing is committed, and `None` for a symbolic
    /// position, which is left out of the report.
    pub fn current_offset(&self) -> (r: Option<i64>)
        ensures
            r == (match *self {
                CommittedPosition::At(o) => Some(o),
                CommittedPosition::NotCommitted => Some(-1i64),
                CommittedPosition::Symbolic => None::<i64>,
            }),
    {
        match *self {
            CommittedPosition::At(o) => Some(o),
            CommittedPosition::NotCommitted => Some(-1),
            CommittedPosition::Symbolic => None,
        }
    }
}

impl GroupOffsetInfo {
    /// The row of a group at `current_offset` on a partition that ends at
    /// `log_end_offset`, with its lag.
    pub fn new(topic: String, partition: i32, current_offset: i64, log_end_offset: i64) -> (r:
        GroupOffsetInfo)
        ensures
            r.topic == topic,
            r.partition == partition,
            r.current_offset == current_offset,
            r.log_end_offset == log_end_offset,
            r.lag == lag_of(current_offset, log_end_offset),
    {
        let lag = if current_offset >= 0 && log_end_offset >= 0 {
            log_end_offset - current_offset
        } else {
            -1
        };
        GroupOffsetInfo { topic, partition, current_offset, log_end_offset, lag }
    }

    /// A copy of the row.
    pub fn duplicate(&self) -> (r: GroupOffsetInfo)
        ensures
            r == *self,
    {
        GroupOffsetInfo {
            topic: self.topic.clone(),
            partition: self.partition,
            current_offset: self.current_offset,
            log_end_offset: self.log_end_offset,
            lag: self.lag,
        }
    }
}

/// Whether a partition's row needs the partition's high watermark: only
/// where the committed position was fetched and is not symbolic. `None`
/// stands for a fetch that failed or gave nothing.
pub fn row_needs_log_end(committed: Option<CommittedPosition>) -> (r: bool)
    ensures
        r == (committed is Some && !(committed->0 is Symbolic)),
{
    match committed {
        Some(CommittedPosition::Symbolic) => false,
        Some(_) => true,
        None => false,
    }
}

/// The row of a group on a partition, from the committed position fetched
/// (`None` where the fetch failed or gave nothing) and the high watermark
/// fetched (`None` where that failed). There is no row where the position
/// is missing or symbolic; an unknown log end is -1.
pub fn offset_row(
    topic: String,
    partition: i32,
    committed: Option<CommittedPosition>,
    log_end: Option<i64>,
) -> (r: Option<GroupOffsetInfo>)
    ensures
        match committed {
            Some(c) => match c {
                CommittedPosition::Symbolic => r is None,
                _ => {
                    let current = match c {
                        CommittedPosition::At(o) => o,
                        _ => -1i64,
                    };
                    let end = match log_end {
                        Some(e) => e,
                        None => -1i64,
                    };
                    &&& r is Some
                    &&& r->0.topic == topic
                    &&& r->0.partition == partition
                    &&& r->0.current_offset == current
                    &&& r->0.log_end_offset == end
                    &&& r->0.lag == lag_of(current, end)
                },
            },
            None => r is None,
        },
{
    match committed {
        Some(c) => match c.current_offset() {
            Some(current) => {
                let end = match log_end {
                    Some(e) => e,
                    None => -1,
                };
                Some(GroupOffsetInfo::new(topic, partition, current, end))
            },
            None => None,
        },
        None => None,
    }
}

/// Whether a topic is internal to the broker (its name starts with `__`);
/// such topics are left out of listings meant for users.
pub fn is_internal_topic(name: &str) -> (r: bool)
    ensures
        r == internal_topic(name@),
{
    let n = name.unicode_len();
    n >= 2 && name.get_char(0) == '_' && name.get_char(1) == '_'
}

/// Whether offsets of topic `name` are reported under `filter`.
pub fn topic_selected(filter: &Option<Vec<String>>, name: &str) -> (r: bool)
    ensures
        r == passes_filter(*filter, name@),
{
    match filter {
        None => true,
        Some(names) => {
            let key = name.to_owned();
            let mut i: usize = 0;
            while i < names.len()
                invariant
                    i <= names.len(),
                    key@ == name@,
                    *filter == Some(*names),
                    forall|j: int| 0 <= j < i ==> names@[j]@ != name@,
                decreases names.len() - i,
            {
                if names[i] == key {
                    assert(names@[i as int]@ == name@);
                    assert((*filter)->0@[i as int]@ == name@);
                    return true;
                }
                i = i + 1;
            }
            false
        },
    }
}

/// The index of the first group named `group_id`, if any.
fn position_of(groups: &Vec<ConsumerGroupInfo>, group_id: &str) -> (r: Option<usize>)
    ensures
        match r {
            Some(i) => i < groups@.len() && first_named(groups@, group_id@) == Some(i as int),
            None => first_named(groups@, group_id@) is None,
        },
{
    let key = group_id.to_owned();
    let mut i: usize = 0;
    while i < groups.len()
        invariant
            i <= groups.len(),
            key@ == group_id@,
            forall|j: int| 0 <= j < i ==> groups@[j].name@ != group_id@,
        decreases groups.len() - i,
    {
        if groups[i].name == key {
            proof {
                let gi = i as int;
                assert(0 <= gi < groups@.len() && groups@[gi].name@ == group_id@);
                let c = first_named(groups@, group_id@);
                assert(c is Some);
                let ci = c->0;
                if ci < gi {
                    assert(groups@[ci].name@ != group_id@);
                }
                if gi < ci {
                    assert(groups@[gi].name@ != group_id@);
                }
            }
            return Some(i);
        }
        i = i + 1;
    }
    None
}

/// The description of group `group_id` among those that the coordinator
/// listed: the first of that name, or `UnknownGroup` where none has it.
pub fn find_group(groups: Vec<ConsumerGroupInfo>, group_id: &str) -> (r: Result<
    ConsumerGroupInfo,
    ConsumerGroupError,
>)
    ensures
        match first_named(groups@, group_id@) {
            Some(i) => r is Ok && r->Ok_0 == groups@[i],
            None => r == Err::<ConsumerGroupInfo, ConsumerGroupError>(
                ConsumerGroupError::UnknownGroup,
            ),
        },
{
    match position_of(&groups, group_id) {
        Some(i) => {
            let mut groups = groups;
            Ok(groups.remove(i))
        },
        None => Err(ConsumerGroupError::UnknownGroup),
    }
}

/// Whether group `group_id` may be deleted: it must be known and have no
/// active member. Nothing is removed here; an empty group is reclaimed by
/// the broker once its offsets' retention has passed.
pub fn check_group_deletable(groups: &Vec<ConsumerGroupInfo>, group_id: &str) -> (r: Result<
    (),
    ConsumerGroupError,
>)
    ensures
        match first_named(groups@, group_id@) {
            Some(i) => if groups@[i].members@.len() > 0 {
                r == Err::<(), ConsumerGroupError>(ConsumerGroupError::GroupNotEmpty)
            } else {
                r is Ok
            },
            None => r == Err::<(), ConsumerGroupError>(ConsumerGroupError::UnknownGroup),
        },
{
    match position_of(groups, group_id) {
        Some(i) => {
            if groups[i].members.len() > 0 {
                Err(ConsumerGroupError::GroupNotEmpty)
            } else {
                Ok(())
            }
        },
        None => Err(ConsumerGroupError::UnknownGroup),
    }
}

/// The rows of `offsets` that a listing of lag shows, in order.
pub open spec fn lag_rows(offsets: Seq<GroupOffsetInfo>) -> Seq<GroupOffsetInfo> {
    offsets.filter(|o: GroupOffsetInfo| lag_bearing(o))
}

/// The rows of `offsets` that a listing of lag shows, in order: those of
/// topics that are not internal and that have an offset committed.
pub fn lag_listing(offsets: &Vec<GroupOffsetInfo>) -> (r: Vec<GroupOffsetInfo>)
    ensures
        r@ == lag_rows(offsets@),
{
    let mut r: Vec<GroupOffsetInfo> = Vec::new();
    let mut i: usize = 0;
    while i < offsets.len()
        invariant
            i <= offsets.len(),
            r@ == lag_rows(offsets@.subrange(0, i as int)),
        decreases offsets.len() - i,
    {
        let ghost before = offsets@.subrange(0, i as int);
        let ghost after = offsets@.subrange(0, i as int + 1);
        assert(after.drop_last() =~= before);
        assert(after.last() == offsets@[i as int]);
        reveal(Seq::filter);
        let o = &offsets[i];
        if !is_internal_topic(o.topic.as_str()) && o.current_offset >= 0 {
            r.push(o.duplicate());
        }
        i = i + 1;
    }
    assert(offsets@.subrange(0, offsets@.len() as int) =~= offsets@);
    r
}

} // verus!
