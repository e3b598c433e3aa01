//! The decisions of the queue core. Each store operation (enqueue, dequeue,
//! delete, length, promotion) is a verified function from the values that the
//! store handed back to what must be written next or returned to the caller.
//!
//! The queue never purges a record by itself: a job delivered on its last try,
//! or one that expired, stays in the store until a producer or consumer
//! deletes it. Deleting a job after processing it is the caller's duty.
use vstd::prelude::*;
use crate::task::{Task, TaskView, PoptaskParam, opt_view, queue_key, clone_opt};
use crate::outside::{base64_of, encode_payload, fresh_task_id, unix_now};

verus! {

/// Where a record goes when it is written: the tail of a ready queue, or the
/// delay index with a due time as its score.
#[derive(Debug)]
pub enum Route {
    Ready(String),
    Delayed(i64),
}

pub enum RouteView {
    Ready(Seq<char>),
    Delayed(int),
}

impl View for Route {
    type V = RouteView;

    open spec fn view(&self) -> RouteView {
        match self {
            Route::Ready(k) => RouteView::Ready(k@),
            Route::Delayed(d) => RouteView::Delayed(*d as int),
        }
    }
}

/// A record due at or before `now` is ready; a later one waits in the delay
/// index until its due time.
pub open spec fn route_of(t: TaskView, now: int) -> RouteView {
    if t.delay <= now {
        RouteView::Ready(t.key())
    } else {
        RouteView::Delayed(t.delay)
    }
}

/// Where the record `t` is written at time `now`.
pub fn route(t: &Task, now: i64) -> (r: Route)
    requires
        t@.wf(),
    ensures
        r@ == route_of(t@, now as int),
{
    if t.delay <= now {
        let p = t.project.as_ref().unwrap();
        let q = t.queue.as_ref().unwrap();
        Route::Ready(queue_key(p.as_str(), q.as_str()))
    } else {
        Route::Delayed(t.delay)
    }
}

/// The record as a caller sees it: its timestamps relative to `now`.
pub fn to_relative(t: Task, now: i64) -> (r: Task)
    requires
        t@.wf(),
        now >= 0,
    ensures
        r@ == t@.relative_to(now as int),
{
    let delay = t.delay - now;
    let ttl = t.ttl - now;
    Task { delay, ttl, ..t }
}

// ---------------------------------------------------------------- enqueue

/// Why an enqueue was refused.
#[derive(Debug, PartialEq, Eq, Structural)]
pub enum EnqueueError {
    /// The delay was negative.
    NegativeDelay,
    /// The time to live was not positive.
    NonPositiveTtl,
    /// The number of tries was negative.
    NegativeTries,
    /// The clock was before the epoch, or the due or expiry time would not fit
    /// in an `i64`.
    ClockOutOfRange,
}

/// What an enqueue writes and answers: the record to store under its
/// identifier, where its identifier goes, and the handle for the producer.
#[derive(Debug)]
pub struct Enqueued {
    pub record: Task,
    pub route: Route,
    pub reply: Task,
}

/// The inputs that a producer must respect: no negative delay or tries, and a
/// positive time to live.
pub open spec fn valid_request(params: TaskView) -> bool {
    params.delay >= 0 && params.ttl > 0 && 0 <= params.tries <= i32::MAX
}

/// The due and expiry times computed at `now` fit in an `i64`.
pub open spec fn clock_fits(params: TaskView, now: int) -> bool {
    0 <= now && now + params.delay <= i64::MAX && now + params.ttl <= i64::MAX
}

/// The record that an enqueue at `now` stores.
pub open spec fn new_record(
    params: TaskView,
    project: Seq<char>,
    queue: Seq<char>,
    id: Seq<char>,
    data: Seq<char>,
    now: int,
) -> TaskView {
    TaskView {
        project: Some(project),
        msg: Some("new task"@),
        queue: Some(queue),
        task_id: Some(id),
        delay: now + params.delay,
        ttl: now + params.ttl,
        tries: params.tries,
        data: Some(data),
    }
}

/// Enqueue at time `now` under identifier `id`, with the payload already
/// encoded as `data`. The delay, time to live and tries come from `params`;
/// its other fields are ignored.
pub fn enqueue_at(
    params: &Task,
    project: String,
    queue: String,
    id: String,
    data: String,
    now: i64,
) -> (r: Result<Enqueued, EnqueueError>)
    ensures
        r matches Err(EnqueueError::NegativeDelay) <==> params.delay < 0,
        r matches Err(EnqueueError::NonPositiveTtl) <==> params.delay >= 0 && params.ttl <= 0,
        r matches Err(EnqueueError::NegativeTries) <==> params.delay >= 0 && params.ttl > 0
            && params.tries < 0,
        r matches Err(EnqueueError::ClockOutOfRange) <==> valid_request(params@) && !clock_fits(
            params@,
            now as int,
        ),
        r is Ok <==> valid_request(params@) && clock_fits(params@, now as int),
        r matches Ok(e) ==> {
            &&& e.record@ == new_record(params@, project@, queue@, id@, data@, now as int)
            &&& e.record@.wf()
            &&& e.route@ == route_of(e.record@, now as int)
            &&& e.reply@ == e.record@.relative_to(now as int)
        },
{
    if params.delay < 0 {
        return Err(EnqueueError::NegativeDelay);
    }
    if params.ttl <= 0 {
        return Err(EnqueueError::NonPositiveTtl);
    }
    if params.tries < 0 {
        return Err(EnqueueError::NegativeTries);
    }
    if now < 0 || params.delay > i64::MAX - now || params.ttl > i64::MAX - now {
        return Err(EnqueueError::ClockOutOfRange);
    }
    let record = Task {
        project: Some(project),
        msg: Some(String::from_str("new task")),
        queue: Some(queue),
        task_id: Some(id),
        delay: now + params.delay,
        ttl: now + params.ttl,
        tries: params.tries,
        data: Some(data),
    };
    let route = route(&record, now);
    let reply = to_relative(record.copy(), now);
    Ok(Enqueued { record, route, reply })
}

/// Enqueue `payload` into `queue` of `project` now, under a fresh random
/// identifier, with the payload stored base64-encoded.
pub fn insert_task(params: &Task, project: String, queue: String, payload: &Vec<u8>) -> (r: Result<
    Enqueued,
    EnqueueError,
>)
    requires
        payload@.len() <= usize::MAX / 2,
    ensures
        r matches Err(EnqueueError::NegativeDelay) <==> params.delay < 0,
        r matches Err(EnqueueError::NonPositiveTtl) <==> params.delay >= 0 && params.ttl <= 0,
        r matches Err(EnqueueError::NegativeTries) <==> params.delay >= 0 && params.ttl > 0
            && params.tries < 0,
        valid_request(params@) ==> (r is Ok || r matches Err(EnqueueError::ClockOutOfRange)),
        valid_request(params@) && params.delay <= i64::MAX - 0x800_0000_0000 && params.ttl
            <= i64::MAX - 0x800_0000_0000 ==> r is Ok,
        r matches Ok(e) ==> exists|now: int|
            {
                &&& e.record@ == new_record(
                    params@,
                    project@,
                    queue@,
                    e.record@.id(),
                    base64_of(payload@),
                    now,
                )
                &&& e.record@.wf()
                &&& e.route@ == route_of(e.record@, now)
                &&& e.reply@ == e.record@.relative_to(now)
            },
{
    let id = fresh_task_id();
    let data = encode_payload(payload);
    let now = unix_now();
    let r = enqueue_at(params, project, queue, id, data, now);
    assert(r matches Ok(e) ==> e.record@.id() == id@ && e.route@ == route_of(
        e.record@,
        now as int,
    ));
    r
}

// ---------------------------------------------------------------- dequeue

/// The due time of a lease of `ttr` seconds taken at `now`: a lease that is not
/// positive makes the job due at once, and a due time past the largest
/// timestamp is held at it.
pub open spec fn lease_due(now: int, ttr: int) -> int {
    if ttr <= 0 {
        now
    } else if now + ttr > i64::MAX {
        i64::MAX as int
    } else {
        now + ttr
    }
}

/// What a dequeue at `now` does with a record that it loaded. A missing,
/// malformed or expired record is skipped. A live one is delivered; while it
/// has tries left, it is first written back with one try less and a due time
/// at the end of the lease, so that it comes back if it is not deleted.
pub open spec fn pop_outcome(rec: Option<TaskView>, now: int, ttr: int) -> PopActionView {
    match rec {
        None => PopActionView::Pop,
        Some(t) => if !t.wf() || t.ttl < now {
            PopActionView::Pop
        } else if t.tries > 0 {
            let u = TaskView { tries: t.tries - 1, delay: lease_due(now, ttr), ..t };
            PopActionView::Deliver { reply: u.relative_to(now), reschedule: Some((u, route_of(u, now))) }
        } else {
            PopActionView::Deliver { reply: t.relative_to(now), reschedule: None }
        },
    }
}

/// What the store handed back to a dequeue: the head of the ready queue (none
/// when it was empty), or the record stored under that identifier (none when
/// there is no such record or it could not be read).
#[derive(Debug)]
pub enum PopEvent {
    Popped(Option<String>),
    Loaded(Option<Task>),
}

pub enum PopEventView {
    Popped(Option<Seq<char>>),
    Loaded(Option<TaskView>),
}

pub open spec fn opt_task_view(o: Option<Task>) -> Option<TaskView> {
    match o {
        Some(t) => Some(t@),
        None => None,
    }
}

impl View for PopEvent {
    type V = PopEventView;

    open spec fn view(&self) -> PopEventView {
        match self {
            PopEvent::Popped(id) => PopEventView::Popped(opt_view(*id)),
            PopEvent::Loaded(t) => PopEventView::Loaded(opt_task_view(*t)),
        }
    }
}

/// What a dequeue does next: pop the head of the ready queue again, load a
/// record, answer that no job is available, or deliver a job (after writing
/// the rescheduled record and routing it, where there is one).
#[derive(Debug)]
pub enum PopAction {
    Pop,
    Load(String),
    NotFound,
    Deliver { reply: Task, reschedule: Option<(Task, Route)> },
}

pub enum PopActionView {
    Pop,
    Load(Seq<char>),
    NotFound,
    Deliver { reply: TaskView, reschedule: Option<(TaskView, RouteView)> },
}

impl View for PopAction {
    type V = PopActionView;

    open spec fn view(&self) -> PopActionView {
        match self {
            PopAction::Pop => PopActionView::Pop,
            PopAction::Load(id) => PopActionView::Load(id@),
            PopAction::NotFound => PopActionView::NotFound,
            PopAction::Deliver { reply, reschedule } => PopActionView::Deliver {
                reply: reply@,
                reschedule: match reschedule {
                    Some((t, r)) => Some((t@, r@)),
                    None => None,
                },
            },
        }
    }
}

/// The next action of a dequeue, given the last event.
pub open spec fn pop_next(event: PopEventView, now: int, ttr: int) -> PopActionView {
    match event {
        PopEventView::Popped(None) => PopActionView::NotFound,
        PopEventView::Popped(Some(id)) => PopActionView::Load(id),
        PopEventView::Loaded(rec) => pop_outcome(rec, now, ttr),
    }
}

/// One step of a dequeue at time `now` with the lease in `param`: from what the
/// store handed back to what to do next. A dequeue starts by popping the head
/// of the ready queue.
pub fn pop_task(event: PopEvent, param: &PoptaskParam, now: i64) -> (r: PopAction)
    requires
        now >= 0,
    ensures
        r@ == pop_next(event@, now as int, param.ttr as int),
{
    match event {
        PopEvent::Popped(None) => PopAction::NotFound,
        PopEvent::Popped(Some(id)) => PopAction::Load(id),
        PopEvent::Loaded(None) => PopAction::Pop,
        PopEvent::Loaded(Some(t)) => {
            if !t.is_well_formed() || t.ttl < now {
                PopAction::Pop
            } else if t.tries > 0 {
                let due = if param.ttr <= 0 {
                    now
                } else if param.ttr > i64::MAX - now {
                    i64::MAX
                } else {
                    now + param.ttr
                };
                let u = Task { tries: t.tries - 1, delay: due, ..t };
                let rt = route(&u, now);
                let reply = to_relative(u.copy(), now);
                PopAction::Deliver { reply, reschedule: Some((u, rt)) }
            } else {
                let reply = to_relative(t, now);
                PopAction::Deliver { reply, reschedule: None }
            }
        },
    }
}

/// The most identifiers that one dequeue pops before it gives up and answers
/// that no job is available, so that a queue full of deleted or expired jobs
/// cannot keep a consumer spinning.
pub const MAX_POPS: u32 = 64;

/// The action of a dequeue that has already popped `pops` identifiers: a
/// further pop past the budget becomes "no job available"; any other action
/// stands.
pub fn limit_pops(action: PopAction, pops: u32) -> (r: PopAction)
    ensures
        (action is Pop && pops >= MAX_POPS) ==> r is NotFound,
        !(action is Pop && pops >= MAX_POPS) ==> r@ == action@,
{
    match action {
        PopAction::Pop => if pops >= MAX_POPS {
            PopAction::NotFound
        } else {
            PopAction::Pop
        },
        other => other,
    }
}

// ---------------------------------------------------------------- delete, length

/// Whether a delete removed a record, from the number of keys that the store
/// reports removed.
pub fn delete_task(removed: Option<i64>) -> (existed: bool)
    ensures
        existed == (removed matches Some(n) && n > 0),
{
    match removed {
        Some(n) => n > 0,
        None => false,
    }
}

/// The length of a ready queue, from the store's reply; a queue that the store
/// does not hold is empty.
pub fn queue_len(reply: Option<i64>) -> (n: i64)
    ensures
        n == match reply {
            Some(k) => k,
            None => 0,
        },
{
    match reply {
        Some(k) => k,
        None => 0,
    }
}

// ---------------------------------------------------------------- promotion

/// The push that promotes one due record: its identifier onto the tail of its
/// ready queue. A missing or malformed record is skipped.
pub open spec fn promotion(rec: Option<TaskView>) -> Option<(Seq<char>, Seq<char>)> {
    match rec {
        Some(t) => if t.wf() {
            Some((t.key(), t.id()))
        } else {
            None
        },
        None => None,
    }
}

/// The push that promotes one due record: the key of its ready queue and its
/// identifier, or none for a missing or malformed record.
pub fn promote_one(rec: &Option<Task>) -> (push: Option<(String, String)>)
    ensures
        match push {
            Some(p) => promotion(opt_task_view(*rec)) == Some((p.0@, p.1@)),
            None => promotion(opt_task_view(*rec)) is None,
        },
{
    match rec {
        Some(t) => {
            if t.is_well_formed() {
                let p = t.project.as_ref().unwrap();
                let q = t.queue.as_ref().unwrap();
                let key = queue_key(p.as_str(), q.as_str());
                let id = clone_opt(&t.task_id).unwrap();
                Some((key, id))
            } else {
                None
            }
        },
        None => None,
    }
}

/// The pushes that promote the due records, in their order.
pub open spec fn promotions(recs: Seq<Option<TaskView>>) -> Seq<(Seq<char>, Seq<char>)>
    decreases recs.len(),
{
    if recs.len() == 0 {
        Seq::empty()
    } else {
        let prev = promotions(recs.drop_last());
        match promotion(recs.last()) {
            Some(p) => prev.push(p),
            None => prev,
        }
    }
}

pub open spec fn push_views(v: Seq<(String, String)>) -> Seq<(Seq<char>, Seq<char>)> {
    v.map_values(|p: (String, String)| (p.0@, p.1@))
}

pub open spec fn record_views(v: Seq<Option<Task>>) -> Seq<Option<TaskView>> {
    v.map_values(|o: Option<Task>| opt_task_view(o))
}

/// One promoter tick: given the records loaded for the identifiers that the
/// delay index gave as due (in ascending due time), the (ready queue key,
/// identifier) pairs to push, in that order.
pub fn process_delay_tasks(records: &Vec<Option<Task>>) -> (pushes: Vec<(String, String)>)
    ensures
        push_views(pushes@) == promotions(record_views(records@)),
{
    let mut pushes: Vec<(String, String)> = Vec::new();
    let mut i: usize = 0;
    while i < records.len()
        invariant
            i <= records@.len(),
            push_views(pushes@) == promotions(record_views(records@.subrange(0, i as int))),
        decreases records@.len() - i,
    {
        let ghost before = pushes@;
        let ghost recs = record_views(records@.subrange(0, i as int + 1));
        assert(recs.drop_last() =~= record_views(records@.subrange(0, i as int)));
        assert(recs.last() == opt_task_view(records@[i as int]));
        match promote_one(&records[i]) {
            Some(p) => {
                let ghost pv = (p.0@, p.1@);
                pushes.push(p);
                assert(push_views(pushes@) =~= push_views(before).push(pv));
            },
            None => {},
        }
        i = i + 1;
    }
    assert(records@.subrange(0, records@.len() as int) =~= records@);
    pushes
}

} // verus!
