//! Request scheduling: queue configuration, and the two-lane queue that
//! always serves urgent requests first.
use vstd::prelude::*;
use std::collections::VecDeque;
use crate::error::CatcherError;
use crate::observability::Priority;

verus! {

/// How many requests may run at once.
#[derive(Debug, Clone, Copy, PartialEq, Eq, Structural)]
pub enum ConcurrencyMode {
    /// A fixed number.
    Fixed(usize),
    /// Following the network quality.
    Adaptive,
}

impl Default for ConcurrencyMode {
    /// Fifty at once.
    fn default() -> (r: Self)
        ensures
            r == ConcurrencyMode::Fixed(50),
    {
        ConcurrencyMode::Fixed(50)
    }
}

/// Queue settings.
#[derive(Debug, Clone, Copy, PartialEq, Eq, Structural)]
pub struct QueueConfig {
    /// Requests running at once.
    pub max_concurrency: usize,
    /// Requests waiting in each lane.
    pub queue_capacity: usize,
    /// Time a request may take when it names none, in milliseconds.
    pub default_timeout_ms: u64,
    pub concurrency_mode: ConcurrencyMode,
}

pub fn default_max_concurrency() -> (r: usize)
    ensures
        r == 50,
{
    50
}

pub fn default_queue_capacity() -> (r: usize)
    ensures
        r == 1024,
{
    1024
}

pub fn default_timeout() -> (r: u64)
    ensures
        r == 30_000,
{
    30_000
}

impl Default for QueueConfig {
    /// Fifty at once, 1024 waiting per lane, 30 s per request.
    fn default() -> (r: Self)
        ensures
            r == (QueueConfig {
                max_concurrency: 50,
                queue_capacity: 1024,
                default_timeout_ms: 30_000,
                concurrency_mode: ConcurrencyMode::Fixed(50),
            }),
    {
        QueueConfig {
            max_concurrency: default_max_concurrency(),
            queue_capacity: default_queue_capacity(),
            default_timeout_ms: default_timeout(),
            concurrency_mode: ConcurrencyMode::Fixed(50),
        }
    }
}

/// The time a queued request may take: its own, else the queue's default.
pub fn task_timeout(timeout_ms: Option<u64>, config: &QueueConfig) -> (r: u64)
    ensures
        r == match timeout_ms {
            Some(t) => t,
            None => config.default_timeout_ms,
        },
{
    match timeout_ms {
        Some(t) => t,
        None => config.default_timeout_ms,
    }
}

/// How a queued request ended.
pub enum TaskOutcome<T> {
    /// It finished with this result.
    Finished(Result<T, CatcherError>),
    /// Its time ran out.
    TimedOut,
}

/// The result handed back for a queued request that was given `timeout_ms`:
/// a request that ran out of time fails with a queue timeout naming it.
pub fn task_result<T>(outcome: TaskOutcome<T>, timeout_ms: u64) -> (r: Result<T, CatcherError>)
    ensures
        match outcome {
            TaskOutcome::Finished(res) => r == res,
            TaskOutcome::TimedOut => r == Err::<T, CatcherError>(CatcherError::QueueTimeout(timeout_ms)),
        },
{
    match outcome {
        TaskOutcome::Finished(res) => res,
        TaskOutcome::TimedOut => Err(CatcherError::QueueTimeout(timeout_ms)),
    }
}

/// Requests waiting to run, in two lanes: `Critical` and `High` requests
/// in the urgent lane, the others in the normal lane. Each lane is first in,
/// first out, and nothing leaves the normal lane while the urgent lane holds
/// a request.
pub struct PriorityLanes<T> {
    high: VecDeque<T>,
    low: VecDeque<T>,
    capacity: usize,
}

/// The lane a request goes to.
pub open spec fn is_urgent(p: Priority) -> bool {
    p.spec_rank() <= 2
}

impl<T> PriorityLanes<T> {
    /// The urgent lane, oldest first.
    pub closed spec fn urgent(&self) -> Seq<T> {
        self.high@
    }

    /// The normal lane, oldest first.
    pub closed spec fn normal(&self) -> Seq<T> {
        self.low@
    }

    /// The most requests one lane holds.
    pub closed spec fn cap(&self) -> nat {
        self.capacity as nat
    }

    /// The order in which the waiting requests leave.
    pub open spec fn order(&self) -> Seq<T> {
        self.urgent() + self.normal()
    }

    /// Empty lanes holding up to `capacity` requests each.
    pub fn new(capacity: usize) -> (r: Self)
        ensures
            r.urgent() == Seq::<T>::empty(),
            r.normal() == Seq::<T>::empty(),
            r.cap() == capacity,
    {
        PriorityLanes { high: VecDeque::new(), low: VecDeque::new(), capacity }
    }

    /// Adds a request at the back of its lane. It is refused, and handed
    /// back, when that lane is full.
    pub fn push(&mut self, priority: Priority, item: T) -> (r: Result<(), T>)
        ensures
            final(self).cap() == old(self).cap(),
            is_urgent(priority) ==> match r {
                Ok(_) => {
                    &&& old(self).urgent().len() < old(self).cap()
                    &&& final(self).urgent() == old(self).urgent().push(item)
                    &&& final(self).normal() == old(self).normal()
                },
                Err(x) => {
                    &&& old(self).urgent().len() >= old(self).cap()
                    &&& x == item
                    &&& final(self).urgent() == old(self).urgent()
                    &&& final(self).normal() == old(self).normal()
                },
            },
            !is_urgent(priority) ==> match r {
                Ok(_) => {
                    &&& old(self).normal().len() < old(self).cap()
                    &&& final(self).normal() == old(self).normal().push(item)
                    &&& final(self).urgent() == old(self).urgent()
                },
                Err(x) => {
                    &&& old(self).normal().len() >= old(self).cap()
                    &&& x == item
                    &&& final(self).urgent() == old(self).urgent()
                    &&& final(self).normal() == old(self).normal()
                },
            },
    {
        if priority.is_high() {
            if self.high.len() >= self.capacity {
                return Err(item);
            }
            self.high.push_back(item);
        } else {
            if self.low.len() >= self.capacity {
                return Err(item);
            }
            self.low.push_back(item);
        }
        Ok(())
    }

    /// Takes the next request: the oldest urgent one, else the oldest
    /// normal one.
    pub fn pop(&mut self) -> (r: Option<T>)
        ensures
            final(self).cap() == old(self).cap(),
            old(self).order().len() == 0 <==> r is None,
            r matches Some(x) ==> x == old(self).order()[0] && final(self).order()
                == old(self).order().drop_first(),
            old(self).urgent().len() > 0 ==> final(self).normal() == old(self).normal(),
            old(self).urgent().len() == 0 ==> final(self).urgent() == old(self).urgent(),
    {
        match self.high.pop_front() {
            Some(x) => {
                proof {
                    assert(final(self).order() =~= old(self).order().drop_first());
                }
                Some(x)
            },
            None => {
                let r = self.low.pop_front();
                proof {
                    assert(old(self).order() =~= old(self).normal());
                    if r is Some {
                        assert(final(self).order() =~= old(self).order().drop_first());
                    }
                }
                r
            },
        }
    }

    /// The number of waiting requests.
    pub fn len(&self) -> (r: usize)
        requires
            self.urgent().len() + self.normal().len() <= usize::MAX,
        ensures
            r == self.order().len(),
    {
        self.high.len() + self.low.len()
    }
}

/// An urgent request is taken before any normal one that waits with it.
pub proof fn law_urgent_first<T>(lanes: PriorityLanes<T>)
    requires
        lanes.urgent().len() > 0,
    ensures
        lanes.order()[0] == lanes.urgent()[0],
{
}

/// Within a lane, requests leave in the order they came: pushing a request
/// into a lane puts it after every request already waiting in the queue's
/// order for that lane.
pub proof fn law_lane_fifo<T>(before: PriorityLanes<T>, after: PriorityLanes<T>, item: T)
    requires
        after.urgent() == before.urgent(),
        after.normal() == before.normal().push(item),
    ensures
        after.order() == before.order().push(item),
{
    assert(after.order() =~= before.order().push(item));
}

} // verus!
