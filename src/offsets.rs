use vstd::prelude::*;
use chrono::TimeZone;
use crate::error::ConsumerGroupError;

verus! {

/// Where a consumer group's offsets should be moved to.
#[derive(Clone, Copy, Debug, PartialEq, Eq, Structural)]
pub enum OffsetResetType {
    /// The low watermark of each partition.
    Earliest,
    /// The high watermark of each partition.
    Latest,
    /// A given offset, used as it is.
    Offset(i64),
    /// The first offset at or after a time, in milliseconds since the epoch.
    Timestamp(i64),
}

/// How many of the four forms of reset target a request gives.
pub open spec fn forms_given(
    to_earliest: bool,
    to_latest: bool,
    to_offset: Option<i64>,
    to_datetime: Option<i64>,
) -> int {
    (if to_earliest {
        1int
    } else {
        0
    }) + (if to_latest {
        1int
    } else {
        0
    }) + (if to_offset is Some {
        1int
    } else {
        0
    }) + (if to_datetime is Some {
        1int
    } else {
        0
    })
}

impl OffsetResetType {
    /// The target of a reset request that gives it in one of four forms: to
    /// the earliest offset, to the latest, to a given offset, or to a time in
    /// milliseconds since the epoch. A request must give exactly one, and a
    /// given offset must not be negative.
    pub fn from_flags(
        to_earliest: bool,
        to_latest: bool,
        to_offset: Option<i64>,
        to_datetime: Option<i64>,
    ) -> (r: Result<OffsetResetType, ConsumerGroupError>)
        ensures
            forms_given(to_earliest, to_latest, to_offset, to_datetime) != 1 || (to_offset is Some
                && to_offset->0 < 0) ==> r == Err::<OffsetResetType, ConsumerGroupError>(
                ConsumerGroupError::InvalidResetRequest,
            ),
            forms_given(to_earliest, to_latest, to_offset, to_datetime) == 1 && !(to_offset is Some
                && to_offset->0 < 0) ==> r == Ok::<
                OffsetResetType,
                ConsumerGroupError,
            >(
                if to_earliest {
                    OffsetResetType::Earliest
                } else if to_latest {
                    OffsetResetType::Latest
                } else if to_offset is Some {
                    OffsetResetType::Offset(to_offset->0)
                } else {
                    OffsetResetType::Timestamp(to_datetime->0)
                },
            ),
    {
        let given: u8 = (if to_earliest {
            1u8
        } else {
            0
        }) + (if to_latest {
            1u8
        } else {
            0
        }) + (if to_offset.is_some() {
            1u8
        } else {
            0
        }) + (if to_datetime.is_some() {
            1u8
        } else {
            0
        });
        if given != 1 {
            return Err(ConsumerGroupError::InvalidResetRequest);
        }
        if let Some(n) = to_offset {
            if n < 0 {
                return Err(ConsumerGroupError::InvalidResetRequest);
            }
        }
        if to_earliest {
            Ok(OffsetResetType::Earliest)
        } else if to_latest {
            Ok(OffsetResetType::Latest)
        } else {
            match to_offset {
                Some(n) => Ok(OffsetResetType::Offset(n)),
                None => match to_datetime {
                    Some(t) => Ok(OffsetResetType::Timestamp(t)),
                    None => Err(ConsumerGroupError::InvalidResetRequest),
                },
            }
        }
    }

    /// The calendar date and time, in the machine's time zone, of a
    /// timestamp target, for people to read; `None` for other targets. Every
    /// time from year 0 to year 9999 has a text.
    pub fn datetime_text(&self) -> (r: Option<String>)
        ensures
            !(*self is Timestamp) ==> r is None,
            (*self matches OffsetResetType::Timestamp(ms) && in_calendar_range(ms)) ==> r is Some,
    {
        match *self {
            OffsetResetType::Timestamp(ms) => local_datetime(ms),
            _ => None,
        }
    }
}

/// Whether a time, in milliseconds since the epoch, falls between the
/// start of year 0 and the end of year 9999.
pub open spec fn in_calendar_range(millis: i64) -> bool {
    -62_167_219_200_000 <= millis <= 253_402_300_799_999
}

/// Relies on chrono's `Local::timestamp_millis_opt` and `DateTime::format`:
/// the date and time of `millis` in the machine's time zone, as
/// `year-month-day hour:minute:second offset`. The text depends on the time
/// zone; that there is one does not: `timestamp_millis_opt` gives a single
/// local time for every time within chrono's range of years, which holds
/// years 0 to 9999.
#[verifier::external_body]
fn local_datetime(millis: i64) -> (r: Option<String>)
    ensures
        in_calendar_range(millis) ==> r is Some,
{
    chrono::Local.timestamp_millis_opt(millis).single().map(
        |dt| dt.format("%Y-%m-%d %H:%M:%S %Z").to_string(),
    )
}

/// The offset chosen for one partition.
#[derive(Clone, Copy, Debug, PartialEq, Eq, Structural)]
pub struct ResolvedOffset {
    pub partition: i32,
    pub offset: i64,
}

/// Which partitions of a topic a reset applies to.
#[derive(Debug)]
pub enum PartitionScope {
    /// Every partition that the topic's metadata reports.
    AllPartitions,
    /// These partitions, as given; an empty list means all of them.
    ExplicitSet(Vec<i32>),
}

impl PartitionScope {
    /// The partitions asked for by name; empty where the scope is the whole topic.
    pub open spec fn requested(&self) -> Seq<i32> {
        match self {
            PartitionScope::AllPartitions => Seq::empty(),
            PartitionScope::ExplicitSet(ids) => ids@,
        }
    }

    /// The scope of a request that may list partitions. No list, or an empty
    /// one, stands for the whole topic.
    pub fn from_request(partitions: Option<Vec<i32>>) -> (r: PartitionScope)
        ensures
            r.requested() == (match partitions {
                Some(ids) => ids@,
                None => Seq::<i32>::empty(),
            }),
            r is ExplicitSet ==> r.requested().len() > 0,
    {
        match partitions {
            Some(ids) => {
                if ids.len() == 0 {
                    PartitionScope::AllPartitions
                } else {
                    PartitionScope::ExplicitSet(ids)
                }
            },
            None => PartitionScope::AllPartitions,
        }
    }

    /// Whether the scope is the whole topic.
    pub fn covers_all(&self) -> (r: bool)
        ensures
            r == (self.requested().len() == 0),
    {
        match self {
            PartitionScope::AllPartitions => true,
            PartitionScope::ExplicitSet(ids) => ids.len() == 0,
        }
    }
}

/// The partitions a reset touches: those requested, or, where none are,
/// every partition of the topic.
pub open spec fn selected(topic_partitions: Seq<i32>, requested: Seq<i32>) -> Seq<i32> {
    if requested.len() == 0 {
        topic_partitions
    } else {
        requested
    }
}

/// Whether the time index found an offset for a timestamp. `None` stands
/// for a lookup that failed or gave no offset at all.
pub open spec fn lookup_matched(found: Option<i64>) -> bool {
    found is Some && found->0 >= 0
}

/// The offset that a reset target stands for on one partition, given the
/// partition's low and high watermarks and the time index's answer. A
/// timestamp that matched nothing falls back to the low watermark.
pub open spec fn resolved_offset(
    target: OffsetResetType,
    low: i64,
    high: i64,
    found: Option<i64>,
) -> i64 {
    match target {
        OffsetResetType::Earliest => low,
        OffsetResetType::Latest => high,
        OffsetResetType::Offset(n) => n,
        OffsetResetType::Timestamp(_) => if lookup_matched(found) {
            found->0
        } else {
            low
        },
    }
}

/// The group's committed offsets, by partition, after a commit of `set`.
/// Later entries of the set win over earlier ones for the same partition.
pub open spec fn apply_commit(committed: Map<i32, i64>, set: Seq<ResolvedOffset>) -> Map<
    i32,
    i64,
>
    decreases set.len(),
{
    if set.len() == 0 {
        committed
    } else {
        apply_commit(committed, set.drop_last()).insert(set.last().partition, set.last().offset)
    }
}

/// Copies a list of partition ids.
fn copy_ids(ids: &Vec<i32>) -> (r: Vec<i32>)
    ensures
        r@ == ids@,
{
    let mut r: Vec<i32> = Vec::new();
    let mut i: usize = 0;
    while i < ids.len()
        invariant
            i <= ids.len(),
            r@ == ids@.subrange(0, i as int),
        decreases ids.len() - i,
    {
        r.push(ids[i]);
        i = i + 1;
    }
    assert(r@ =~= ids@);
    r
}

/// The partitions of a topic that a reset in `scope` applies to. Explicit
/// ids are taken as given, without a check against the topic's metadata.
pub fn select_partitions(topic_partitions: &Vec<i32>, scope: &PartitionScope) -> (r: Vec<i32>)
    ensures
        r@ == selected(topic_partitions@, scope.requested()),
{
    match scope {
        PartitionScope::ExplicitSet(ids) => {
            if ids.len() == 0 {
                copy_ids(topic_partitions)
            } else {
                copy_ids(ids)
            }
        },
        PartitionScope::AllPartitions => copy_ids(topic_partitions),
    }
}

/// An empty explicit list selects what the whole topic selects.
pub proof fn lemma_empty_explicit_set_is_all(topic_partitions: Seq<i32>, ids: Vec<i32>)
    requires
        ids@.len() == 0,
    ensures
        selected(topic_partitions, PartitionScope::ExplicitSet(ids).requested()) == selected(
            topic_partitions,
            PartitionScope::AllPartitions.requested(),
        ),
{
}

} // verus!
