//! The job record and the keys that the store holds it under.
use vstd::prelude::*;

verus! {

/// A job: who it belongs to, its payload, and its timing and retry data.
///
/// Inside the store `delay` and `ttl` are absolute timestamps in seconds (the
/// time it becomes due and the time it expires); towards producers and
/// consumers they are offsets from the moment of the call.
#[derive(Debug)]
pub struct Task {
    pub project: Option<String>,
    pub msg: Option<String>,
    pub queue: Option<String>,
    pub task_id: Option<String>,
    pub delay: i64,
    pub ttl: i64,
    pub tries: i32,
    pub data: Option<String>,
}

/// The parameters of a dequeue call: the lease, in seconds.
#[derive(Debug)]
pub struct PoptaskParam {
    pub ttr: i64,
}

/// The mathematical value of a `Task`.
pub struct TaskView {
    pub project: Option<Seq<char>>,
    pub msg: Option<Seq<char>>,
    pub queue: Option<Seq<char>>,
    pub task_id: Option<Seq<char>>,
    pub delay: int,
    pub ttl: int,
    pub tries: int,
    pub data: Option<Seq<char>>,
}

pub open spec fn opt_view(o: Option<String>) -> Option<Seq<char>> {
    match o {
        Some(s) => Some(s@),
        None => None,
    }
}

impl View for Task {
    type V = TaskView;

    open spec fn view(&self) -> TaskView {
        TaskView {
            project: opt_view(self.project),
            msg: opt_view(self.msg),
            queue: opt_view(self.queue),
            task_id: opt_view(self.task_id),
            delay: self.delay as int,
            ttl: self.ttl as int,
            tries: self.tries as int,
            data: opt_view(self.data),
        }
    }
}

/// The key of the ready queue of `queue` in `project`.
pub open spec fn key_of(project: Seq<char>, queue: Seq<char>) -> Seq<char> {
    project + seq!['|'] + queue
}

impl TaskView {
    /// A record that the queue can route: it names its project, queue and
    /// identifier, and its timestamps and counter are non-negative machine
    /// integers.
    pub open spec fn wf(self) -> bool {
        &&& self.project is Some
        &&& self.queue is Some
        &&& self.task_id is Some
        &&& 0 <= self.delay <= i64::MAX
        &&& 0 <= self.ttl <= i64::MAX
        &&& 0 <= self.tries <= i32::MAX
    }

    /// The ready queue that the record belongs to.
    pub open spec fn key(self) -> Seq<char> {
        key_of(self.project->Some_0, self.queue->Some_0)
    }

    pub open spec fn id(self) -> Seq<char> {
        self.task_id->Some_0
    }

    /// The same record with its timestamps taken relative to `now`.
    pub open spec fn relative_to(self, now: int) -> TaskView {
        TaskView { delay: self.delay - now, ttl: self.ttl - now, ..self }
    }
}

pub fn clone_opt(o: &Option<String>) -> (r: Option<String>)
    ensures
        opt_view(r) == opt_view(*o),
{
    match o {
        Some(s) => Some(s.clone()),
        None => None,
    }
}

impl Task {
    /// A copy of the record.
    pub fn copy(&self) -> (r: Task)
        ensures
            r@ == self@,
    {
        Task {
            project: clone_opt(&self.project),
            msg: clone_opt(&self.msg),
            queue: clone_opt(&self.queue),
            task_id: clone_opt(&self.task_id),
            delay: self.delay,
            ttl: self.ttl,
            tries: self.tries,
            data: clone_opt(&self.data),
        }
    }

    /// Whether the record can be routed (see `TaskView::wf`).
    pub fn is_well_formed(&self) -> (r: bool)
        ensures
            r == self@.wf(),
    {
        self.project.is_some() && self.queue.is_some() && self.task_id.is_some()
            && self.delay >= 0 && self.ttl >= 0 && self.tries >= 0
    }
}

/// The key of the ready queue of `queue` in `project`: the two names joined
/// by a `|`.
pub fn queue_key(project: &str, queue: &str) -> (r: String)
    ensures
        r@ == key_of(project@, queue@),
{
    let p = String::from_str(project);
    let with_bar = p.concat("|");
    proof {
        reveal_strlit("|");
    }
    let r = with_bar.concat(queue);
    assert(r@ =~= key_of(project@, queue@));
    r
}

} // verus!
