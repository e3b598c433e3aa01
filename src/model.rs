//! A mathematical model of the store that the queue runs against, with the
//! operations of the queue composed from the decisions in `queue`, and the
//! laws that those operations obey.
use vstd::prelude::*;
use crate::task::{TaskView, key_of};
use crate::queue::{
    RouteView, PopActionView, PopEventView, route_of, pop_next, new_record, valid_request,
    clock_fits, promotion, lease_due,
};

verus! {

/// The store: records by identifier, ready queues by key, and the delay index
/// from identifier to due time.
pub struct StoreView {
    pub records: Map<Seq<char>, TaskView>,
    pub ready: Map<Seq<char>, Seq<Seq<char>>>,
    pub delayed: Map<Seq<char>, int>,
}

impl StoreView {
    /// The ready queue under `key`; one that was never written is empty.
    pub open spec fn ready_of(self, key: Seq<char>) -> Seq<Seq<char>> {
        if self.ready.contains_key(key) {
            self.ready[key]
        } else {
            Seq::empty()
        }
    }

    /// The number of jobs waiting in the ready queue under `key`.
    pub open spec fn length(self, key: Seq<char>) -> nat {
        self.ready_of(key).len()
    }

    pub open spec fn record(self, id: Seq<char>) -> Option<TaskView> {
        if self.records.contains_key(id) {
            Some(self.records[id])
        } else {
            None
        }
    }

    pub open spec fn push_ready(self, key: Seq<char>, id: Seq<char>) -> StoreView {
        StoreView { ready: self.ready.insert(key, self.ready_of(key).push(id)), ..self }
    }

    /// Store the record `t` under its identifier, then route the identifier.
    pub open spec fn write(self, t: TaskView, route: RouteView) -> StoreView {
        let s = StoreView { records: self.records.insert(t.id(), t), ..self };
        match route {
            RouteView::Ready(k) => s.push_ready(k, t.id()),
            RouteView::Delayed(d) => StoreView { delayed: s.delayed.insert(t.id(), d), ..s },
        }
    }

    /// An enqueue at `now` that the queue accepted.
    pub open spec fn enqueue(
        self,
        params: TaskView,
        project: Seq<char>,
        queue: Seq<char>,
        id: Seq<char>,
        data: Seq<char>,
        now: int,
    ) -> StoreView {
        let rec = new_record(params, project, queue, id, data, now);
        self.write(rec, route_of(rec, now))
    }

    pub open spec fn pop_head(self, key: Seq<char>) -> StoreView {
        StoreView { ready: self.ready.insert(key, self.ready_of(key).drop_first()), ..self }
    }

    /// A dequeue at `now` with lease `ttr` on the ready queue under `key`: the
    /// store after it, and the handle that it returned, if any.
    pub open spec fn dequeue(self, key: Seq<char>, now: int, ttr: int) -> (StoreView, Option<TaskView>)
        decreases self.ready_of(key).len(),
    {
        let q = self.ready_of(key);
        if q.len() == 0 {
            (self, None)
        } else {
            let s = self.pop_head(key);
            match pop_next(PopEventView::Loaded(s.record(q[0])), now, ttr) {
                PopActionView::Deliver { reply, reschedule } => match reschedule {
                    Some((u, r)) => (s.write(u, r), Some(reply)),
                    None => (s, Some(reply)),
                },
                _ => s.dequeue(key, now, ttr),
            }
        }
    }

    /// A delete: the store after it, and whether a record existed.
    pub open spec fn delete(self, id: Seq<char>) -> (StoreView, bool) {
        (StoreView { records: self.records.remove(id), ..self }, self.records.contains_key(id))
    }

    /// The entry `id` of the delay index is due at `now`.
    pub open spec fn due(self, id: Seq<char>, now: int) -> bool {
        self.delayed.contains_key(id) && self.delayed[id] <= now
    }

    /// The promoter moves the due entry `id` out of the delay index and, where
    /// its record is still there, onto the tail of its ready queue.
    pub open spec fn promote(self, id: Seq<char>) -> StoreView {
        let s = StoreView { delayed: self.delayed.remove(id), ..self };
        match promotion(self.record(id)) {
            Some((k, i)) => s.push_ready(k, i),
            None => s,
        }
    }
}

/// A job enqueued without delay into a queue with no job waiting is returned
/// by the next dequeue on that queue before it expires; when it has no tries
/// left, or its lease is positive and ends within the range of timestamps, the
/// dequeue after that finds nothing.
pub proof fn lemma_immediate_visibility(
    s: StoreView,
    params: TaskView,
    project: Seq<char>,
    queue: Seq<char>,
    id: Seq<char>,
    data: Seq<char>,
    now: int,
    later: int,
    ttr: int,
)
    requires
        valid_request(params),
        clock_fits(params, now),
        params.delay == 0,
        s.length(key_of(project, queue)) == 0,
        now <= later <= now + params.ttl,
    ensures
        ({
            let key = key_of(project, queue);
            let (s2, got) = s.enqueue(params, project, queue, id, data, now).dequeue(key, later, ttr);
            &&& got matches Some(h) && h.task_id == Some(id) && h.data == Some(data)
            &&& (params.tries == 0 || (ttr > 0 && later < i64::MAX)) ==> s2.dequeue(
                key,
                later,
                ttr,
            ).1 is None
        }),
{
    let key = key_of(project, queue);
    let rec = new_record(params, project, queue, id, data, now);
    let s1 = s.enqueue(params, project, queue, id, data, now);
    assert(s1.ready_of(key) =~= seq![id]);
    let p = s1.pop_head(key);
    assert(p.record(id) == Some(rec));
    assert(p.ready_of(key).len() == 0);
    let (s2, got) = s1.dequeue(key, later, ttr);
    if params.tries > 0 && ttr > 0 && later < i64::MAX {
        let u = TaskView { tries: rec.tries - 1, delay: lease_due(later, ttr), ..rec };
        assert(u.delay > later);
        assert(s2 == p.write(u, route_of(u, later)));
        assert(s2.ready_of(key).len() == 0);
    }
}

/// An enqueue without delay appends the identifier to the tail of its ready
/// queue and leaves the delay index alone; one with a positive delay leaves
/// every ready queue alone and enters the identifier in the delay index at its
/// absolute due time.
pub proof fn lemma_enqueue_placement(
    s: StoreView,
    params: TaskView,
    project: Seq<char>,
    queue: Seq<char>,
    id: Seq<char>,
    data: Seq<char>,
    now: int,
)
    requires
        valid_request(params),
        clock_fits(params, now),
    ensures
        ({
            let key = key_of(project, queue);
            let s1 = s.enqueue(params, project, queue, id, data, now);
            &&& params.delay == 0 ==> s1.ready_of(key) == s.ready_of(key).push(id) && s1.delayed
                == s.delayed
            &&& params.delay > 0 ==> s1.ready == s.ready && s1.delayed == s.delayed.insert(
                id,
                now + params.delay,
            )
        }),
{
}

/// Two consumers that dequeue from a queue holding one live job, their store
/// commands each atomic and so taking turns: the first is handed the job, the
/// second finds nothing, when the job has no tries left or its lease is
/// positive and ends within the range of timestamps.
pub proof fn lemma_one_job_two_consumers(s: StoreView, key: Seq<char>, now: int, ttr: int)
    requires
        s.length(key) == 1,
        s.record(s.ready_of(key)[0]) matches Some(t) && t.wf() && t.ttl >= now && t.id()
            == s.ready_of(key)[0] && t.key() == key,
        s.records[s.ready_of(key)[0]].tries == 0 || (ttr > 0 && now < i64::MAX),
    ensures
        ({
            let id = s.ready_of(key)[0];
            let (s2, first) = s.dequeue(key, now, ttr);
            &&& first matches Some(h) && h.task_id == Some(id)
            &&& s2.dequeue(key, now, ttr).1 is None
        }),
{
    let id = s.ready_of(key)[0];
    let t = s.records[id];
    let p = s.pop_head(key);
    assert(p.record(id) == Some(t));
    assert(p.ready_of(key).len() == 0);
    if t.tries > 0 {
        let u = TaskView { tries: t.tries - 1, delay: lease_due(now, ttr), ..t };
        assert(u.delay > now);
        assert(s.dequeue(key, now, ttr).0 == p.write(u, route_of(u, now)));
    }
}

/// A job enqueued with a positive delay is not put on any ready queue: it waits
/// in the delay index, which holds it as due exactly from `now + delay` on.
/// Promoted then, it stands at the tail of its ready queue, and a dequeue on a
/// queue where it is alone returns it before it expires.
pub proof fn lemma_delay_gating(
    s: StoreView,
    params: TaskView,
    project: Seq<char>,
    queue: Seq<char>,
    id: Seq<char>,
    data: Seq<char>,
    now: int,
    later: int,
    ttr: int,
)
    requires
        valid_request(params),
        clock_fits(params, now),
        params.delay > 0,
    ensures
        ({
            let key = key_of(project, queue);
            let s1 = s.enqueue(params, project, queue, id, data, now);
            &&& s1.ready == s.ready
            &&& s1.due(id, later) <==> later >= now + params.delay
            &&& later >= now + params.delay ==> s1.promote(id).ready_of(key) == s.ready_of(key).push(id)
            &&& (later >= now + params.delay && later <= now + params.ttl && s.length(key) == 0)
                ==> (s1.promote(id).dequeue(key, later, ttr).1 matches Some(h) && h.task_id == Some(id))
        }),
{
    let key = key_of(project, queue);
    let rec = new_record(params, project, queue, id, data, now);
    let s1 = s.enqueue(params, project, queue, id, data, now);
    assert(s1.record(id) == Some(rec));
    let s2 = s1.promote(id);
    if later >= now + params.delay && later <= now + params.ttl && s.length(key) == 0 {
        assert(s2.ready_of(key) =~= seq![id]);
        let p = s2.pop_head(key);
        assert(p.record(id) == Some(rec));
    }
}

/// Every handle that a dequeue returns is of a job that has not expired: its
/// time to live, relative to the dequeue, is not negative. A job at the head of
/// the queue that has expired is dropped: the dequeue goes on as if it had
/// never been there, and the queue's length no longer counts it.
pub proof fn lemma_ttl_exclusion(s: StoreView, key: Seq<char>, now: int, ttr: int)
    ensures
        s.dequeue(key, now, ttr).1 matches Some(h) ==> h.ttl >= 0,
        ({
            let q = s.ready_of(key);
            (q.len() > 0 && (s.record(q[0]) matches Some(t) && t.ttl < now)) ==> {
                &&& s.dequeue(key, now, ttr) == s.pop_head(key).dequeue(key, now, ttr)
                &&& s.pop_head(key).length(key) == s.length(key) - 1
            }
        }),
    decreases s.ready_of(key).len(),
{
    let q = s.ready_of(key);
    if q.len() > 0 {
        let p = s.pop_head(key);
        assert(p.ready_of(key).len() < q.len());
        lemma_ttl_exclusion(p, key, now, ttr);
    }
}

/// A job that has tries left, dequeued with a positive lease `ttr` and never
/// deleted, is returned, written back with one try less, and held in the delay
/// index as due exactly from `now + ttr` on; promoted then, it is back at the
/// tail of its ready queue.
pub proof fn lemma_lease_redelivery(s: StoreView, key: Seq<char>, now: int, ttr: int, later: int)
    requires
        s.length(key) > 0,
        s.record(s.ready_of(key)[0]) matches Some(t) && t.wf() && t.ttl >= now && t.tries > 0
            && t.task_id == Some(s.ready_of(key)[0]),
        ttr > 0,
        0 <= now,
        now + ttr <= i64::MAX,
    ensures
        ({
            let id = s.ready_of(key)[0];
            let t = s.records[id];
            let (s2, got) = s.dequeue(key, now, ttr);
            &&& got matches Some(h) && h.task_id == t.task_id && h.data == t.data
            &&& s2.records[id].tries == t.tries - 1
            &&& s2.due(id, later) <==> later >= now + ttr
            &&& later >= now + ttr ==> s2.promote(id).ready_of(t.key()).last() == id
        }),
{
    let id = s.ready_of(key)[0];
    let t = s.records[id];
    let p = s.pop_head(key);
    assert(p.record(id) == Some(t));
    let u = TaskView { tries: t.tries - 1, delay: now + ttr, ..t };
    assert(lease_due(now, ttr) == now + ttr);
    let s2 = s.dequeue(key, now, ttr).0;
    assert(s2 == p.write(u, route_of(u, now)));
    assert(s2.record(id) == Some(u));
    assert(u.wf() && u.key() == t.key() && u.id() == id);
    let s3 = s2.promote(id);
    assert(s3 == StoreView { delayed: s2.delayed.remove(id), ..s2 }.push_ready(t.key(), id));
    assert(s3.ready_of(t.key()).last() == id);
}

/// Deleting an identifier with no record reports that none existed and leaves
/// the store as it was; so a second delete of the same identifier is harmless.
pub proof fn lemma_delete_idempotent(s: StoreView, id: Seq<char>)
    ensures
        !s.records.contains_key(id) ==> s.delete(id) == (s, false),
        s.delete(id).0.delete(id) == (s.delete(id).0, false),
{
    if !s.records.contains_key(id) {
        assert(s.records.remove(id) =~= s.records);
    }
    let s1 = s.delete(id).0;
    assert(s1.records.remove(id) =~= s1.records);
}

} // verus!
