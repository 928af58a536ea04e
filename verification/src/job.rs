//! Jobs: their states and the events a change of state reports.
use vstd::prelude::*;
use crate::error::DiskRipperError;
use crate::text::{owned, str_eq};
use crate::types::JobId;

verus! {

/// The state of a job.
#[derive(Debug, Clone, Copy, PartialEq, Eq, Structural)]
pub enum JobStatus {
    Queued,
    Running,
    Paused,
    Completed,
    Failed,
    Cancelled,
}

/// The name by which a job state is shown.
pub open spec fn job_status_name(s: JobStatus) -> Seq<char> {
    match s {
        JobStatus::Queued => "Queued"@,
        JobStatus::Running => "Running"@,
        JobStatus::Paused => "Paused"@,
        JobStatus::Completed => "Completed"@,
        JobStatus::Failed => "Failed"@,
        JobStatus::Cancelled => "Cancelled"@,
    }
}

impl JobStatus {
    /// The name by which the state is shown.
    pub fn to_string(&self) -> (r: String)
        ensures
            r@ == job_status_name(*self),
    {
        match self {
            JobStatus::Queued => owned("Queued"),
            JobStatus::Running => owned("Running"),
            JobStatus::Paused => owned("Paused"),
            JobStatus::Completed => owned("Completed"),
            JobStatus::Failed => owned("Failed"),
            JobStatus::Cancelled => owned("Cancelled"),
        }
    }
}

/// What happened to a job.
#[derive(Debug, Clone, Copy, PartialEq, Eq, Structural)]
pub enum JobEventType {
    Started,
    Progress,
    Completed,
    Failed,
    Cancelled,
}

/// The event reported when a job enters state `s`: running starts it,
/// the end states end it; queueing and pausing report nothing.
pub open spec fn status_event_of(s: JobStatus) -> Option<JobEventType> {
    match s {
        JobStatus::Running => Some(JobEventType::Started),
        JobStatus::Completed => Some(JobEventType::Completed),
        JobStatus::Failed => Some(JobEventType::Failed),
        JobStatus::Cancelled => Some(JobEventType::Cancelled),
        _ => None,
    }
}

/// The event reported when a job enters state `s`, if any.
pub fn status_event(s: JobStatus) -> (r: Option<JobEventType>)
    ensures
        r == status_event_of(s),
{
    match s {
        JobStatus::Running => Some(JobEventType::Started),
        JobStatus::Completed => Some(JobEventType::Completed),
        JobStatus::Failed => Some(JobEventType::Failed),
        JobStatus::Cancelled => Some(JobEventType::Cancelled),
        _ => None,
    }
}

/// A job: its identity, state and error. Times are seconds since the Unix
/// epoch.
#[derive(Debug, Clone)]
pub struct Job {
    pub id: JobId,
    pub name: String,
    pub status: JobStatus,
    pub created_at: i64,
    pub updated_at: i64,
    pub error: Option<String>,
}

impl Job {
    /// A new queued job named `name`, made at `now`.
    pub fn new(id: JobId, name: String, now: i64) -> (r: Self)
        ensures
            r.id == id,
            r.name@ == name@,
            r.status == JobStatus::Queued,
            r.created_at == now,
            r.updated_at == now,
            r.error is None,
    {
        Job { id, name, status: JobStatus::Queued, created_at: now, updated_at: now, error: None }
    }

    /// Puts the job in state `status` at `now`, giving the event to report.
    pub fn set_status(&mut self, status: JobStatus, now: i64) -> (r: Option<JobEventType>)
        ensures
            final(self).status == status,
            final(self).updated_at == now,
            final(self).id == old(self).id,
            final(self).name == old(self).name,
            final(self).created_at == old(self).created_at,
            final(self).error == old(self).error,
            r == status_event_of(status),
    {
        self.status = status;
        self.updated_at = now;
        status_event(status)
    }

    /// Records that the job failed with `error` at `now`; a failure is
    /// reported.
    pub fn set_error(&mut self, error: String, now: i64) -> (r: JobEventType)
        ensures
            final(self).status == JobStatus::Failed,
            final(self).error == Some(error),
            final(self).updated_at == now,
            final(self).id == old(self).id,
            final(self).name == old(self).name,
            final(self).created_at == old(self).created_at,
            r == JobEventType::Failed,
    {
        self.error = Some(error);
        self.status = JobStatus::Failed;
        self.updated_at = now;
        JobEventType::Failed
    }
}


/// A job as the table sees it: its identifier's text and its fields.
pub struct JobView {
    pub id: Seq<char>,
    pub name: Seq<char>,
    pub status: JobStatus,
    pub created_at: i64,
    pub updated_at: i64,
    pub error: Option<Seq<char>>,
}

/// An optional string taken as characters.
pub open spec fn opt_chars(o: Option<String>) -> Option<Seq<char>> {
    match o {
        Some(s) => Some(s@),
        None => None,
    }
}

impl View for Job {
    type V = JobView;

    open spec fn view(&self) -> JobView {
        JobView {
            id: self.id.0@,
            name: self.name@,
            status: self.status,
            created_at: self.created_at,
            updated_at: self.updated_at,
            error: opt_chars(self.error),
        }
    }
}

impl Job {
    /// A copy of the job.
    pub fn copy(&self) -> (r: Job)
        ensures
            r@ == self@,
    {
        Job {
            id: JobId(owned(self.id.0.as_str())),
            name: owned(self.name.as_str()),
            status: self.status,
            created_at: self.created_at,
            updated_at: self.updated_at,
            error: match &self.error {
                Some(e) => Some(owned(e.as_str())),
                None => None,
            },
        }
    }
}

/// The jobs, each under its identifier.
pub struct JobTable {
    jobs: Vec<Job>,
    index: Ghost<Map<Seq<char>, JobView>>,
    cancelled: Vec<String>,
}

/// The texts of the strings in `v`.
pub open spec fn id_set(v: Seq<String>) -> Set<Seq<char>> {
    Set::new(|k: Seq<char>| exists|i: int| 0 <= i < v.len() && #[trigger] v[i]@ == k)
}

/// Whether a job reads as cancelled: a job that is not in the table does,
/// and so does one whose cancellation was asked for.
pub open spec fn reads_cancelled(t: Map<Seq<char>, JobView>, cancelled: Set<Seq<char>>, id: Seq<char>) -> bool {
    !t.contains_key(id) || cancelled.contains(id)
}

/// Whether `k` is among the strings of `v`.
fn is_listed(v: &Vec<String>, k: &str) -> (r: bool)
    ensures
        r == id_set(v@).contains(k@),
{
    let mut i: usize = 0;
    while i < v.len()
        invariant
            i <= v@.len(),
            forall|j: int| 0 <= j < i ==> #[trigger] v@[j]@ != k@,
        decreases v.len() - i,
    {
        if str_eq(v[i].as_str(), k) {
            assert(v@[i as int]@ == k@);
            return true;
        }
        i = i + 1;
    }
    false
}

/// The strings of `v` other than `k`.
fn unlist(v: &Vec<String>, k: &str) -> (r: Vec<String>)
    ensures
        id_set(r@) == id_set(v@).remove(k@),
{
    let mut out: Vec<String> = Vec::new();
    let mut i: usize = 0;
    while i < v.len()
        invariant
            i <= v@.len(),
            forall|a: int| 0 <= a < out@.len() ==> #[trigger] out@[a]@ != k@ && exists|b: int|
                0 <= b < i && v@[b]@ == out@[a]@,
            forall|b: int| 0 <= b < i && #[trigger] v@[b]@ != k@ ==> exists|a: int|
                0 <= a < out@.len() && out@[a]@ == v@[b]@,
        decreases v.len() - i,
    {
        if !str_eq(v[i].as_str(), k) {
            let ghost before = out@;
            out.push(owned(v[i].as_str()));
            proof {
                assert(out@[before.len() as int]@ == v@[i as int]@);
                assert forall|a: int| 0 <= a < out@.len() implies #[trigger] out@[a]@ != k@
                    && exists|b: int| 0 <= b < i + 1 && v@[b]@ == out@[a]@ by {
                    if a < before.len() {
                        assert(out@[a] == before[a]);
                    }
                }
                assert forall|b: int| 0 <= b < i + 1 && #[trigger] v@[b]@ != k@ implies exists|a: int|
                    0 <= a < out@.len() && out@[a]@ == v@[b]@ by {
                    if b < i {
                        let a = choose|a: int| 0 <= a < before.len() && before[a]@ == v@[b]@;
                        assert(out@[a] == before[a]);
                    } else {
                        assert(out@[before.len() as int]@ == v@[b]@);
                    }
                }
            }
        }
        i = i + 1;
    }
    proof {
        assert(id_set(out@) =~= id_set(v@).remove(k@)) by {
            assert forall|x: Seq<char>| id_set(out@).contains(x) implies id_set(v@).remove(k@).contains(x) by {
                let a = choose|a: int| 0 <= a < out@.len() && #[trigger] out@[a]@ == x;
                let b = choose|b: int| 0 <= b < v@.len() && v@[b]@ == out@[a]@;
                assert(v@[b]@ == x);
            }
            assert forall|x: Seq<char>| id_set(v@).remove(k@).contains(x) implies id_set(out@).contains(x) by {
                let b = choose|b: int| 0 <= b < v@.len() && #[trigger] v@[b]@ == x;
                let a = choose|a: int| 0 <= a < out@.len() && out@[a]@ == v@[b]@;
                assert(out@[a]@ == x);
            }
        }
    }
    out
}

/// Whether the position `x` occurs in `order`.
pub open spec fn listed(order: Seq<usize>, x: int) -> bool {
    exists|a: int| 0 <= a < order.len() && order[a] == x
}

/// A new job: queued, made and updated at `now`, without error.
pub open spec fn queued_job(id: Seq<char>, name: Seq<char>, now: i64) -> JobView {
    JobView { id, name, status: JobStatus::Queued, created_at: now, updated_at: now, error: None }
}

/// The job `j` in state `status` since `now`.
pub open spec fn with_status(j: JobView, status: JobStatus, now: i64) -> JobView {
    JobView { status, updated_at: now, ..j }
}

/// The job `j` failed with `error` at `now`.
pub open spec fn with_error(j: JobView, error: Seq<char>, now: i64) -> JobView {
    JobView { status: JobStatus::Failed, error: Some(error), updated_at: now, ..j }
}

/// The job `j` updated at `now`.
pub open spec fn touched(j: JobView, now: i64) -> JobView {
    JobView { updated_at: now, ..j }
}

impl View for JobTable {
    type V = Map<Seq<char>, JobView>;

    closed spec fn view(&self) -> Map<Seq<char>, JobView> {
        self.index@
    }
}

impl JobTable {
    /// Each job is under its identifier, one job to an identifier, and
    /// nothing else is in the table.
    /// The jobs whose cancellation was asked for.
    pub closed spec fn cancelled_ids(&self) -> Set<Seq<char>> {
        id_set(self.cancelled@)
    }

    pub closed spec fn wf(&self) -> bool {
        &&& forall|i: int, j: int|
            0 <= i < j < self.jobs@.len() ==> #[trigger] self.jobs@[i].id.0@
                != #[trigger] self.jobs@[j].id.0@
        &&& forall|i: int|
            0 <= i < self.jobs@.len() ==> #[trigger] self.index@.contains_key(self.jobs@[i].id.0@)
                && self.index@[self.jobs@[i].id.0@] == self.jobs@[i]@
        &&& forall|k: Seq<char>|
            #[trigger] self.index@.contains_key(k) ==> exists|i: int|
                0 <= i < self.jobs@.len() && #[trigger] self.jobs@[i].id.0@ == k
    }

    /// An empty table.
    pub fn new() -> (r: Self)
        ensures
            r.wf(),
            r@ == Map::<Seq<char>, JobView>::empty(),
            r.cancelled_ids() == Set::<Seq<char>>::empty(),
    {
        let r = JobTable { jobs: Vec::new(), index: Ghost(Map::empty()), cancelled: Vec::new() };
        assert(r.cancelled_ids() =~= Set::<Seq<char>>::empty());
        r
    }

    /// The position of the job `id`, if it is in the table.
    fn position(&self, id: &JobId) -> (r: Option<usize>)
        requires
            self.wf(),
        ensures
            r matches Some(i) ==> i < self.jobs@.len() && self.jobs@[i as int].id.0@ == id.0@,
            r is None ==> !self@.contains_key(id.0@),
    {
        let mut i: usize = 0;
        while i < self.jobs.len()
            invariant
                self.wf(),
                i <= self.jobs@.len(),
                forall|k: int| 0 <= k < i ==> self.jobs@[k].id.0@ != id.0@,
            decreases self.jobs.len() - i,
        {
            if str_eq(self.jobs[i].id.0.as_str(), id.0.as_str()) {
                return Some(i);
            }
            i = i + 1;
        }
        None
    }

    /// The job `id`, if it is in the table.
    pub fn get(&self, id: &JobId) -> (r: Option<&Job>)
        requires
            self.wf(),
        ensures
            r is Some <==> self@.contains_key(id.0@),
            r matches Some(j) ==> j@ == self@[id.0@],
    {
        match self.position(id) {
            Some(i) => Some(&self.jobs[i]),
            None => None,
        }
    }

    /// Puts `job` under its identifier, in place of any job there.
    pub fn insert(&mut self, job: Job)
        requires
            old(self).wf(),
        ensures
            final(self).wf(),
            final(self)@ == old(self)@.insert(job.id.0@, job@),
            final(self).cancelled_ids() == old(self).cancelled_ids(),
    {
        let ghost k = job.id.0@;
        let ghost v = job@;
        let ghost old_jobs = self.jobs@;
        let p = self.position(&job.id);
        let ghost pos: int = match p {
            Some(i) => i as int,
            None => old_jobs.len() as int,
        };
        match p {
            Some(i) => {
                self.jobs.set(i, job);
            },
            None => {
                self.jobs.push(job);
            },
        }
        proof {
            self.index@ = old(self).index@.insert(k, v);
            assert(self.jobs@[pos].id.0@ == k && self.jobs@[pos]@ == v);
            assert forall|j: int| 0 <= j < self.jobs@.len() && j != pos implies #[trigger] self.jobs@[j]
                == old_jobs[j] && old_jobs[j].id.0@ != k by {
                if p is None {
                    assert(old(self).index@.contains_key(old_jobs[j].id.0@));
                }
            }
            assert forall|a: int, b: int|
                0 <= a < b < self.jobs@.len() implies #[trigger] self.jobs@[a].id.0@
                != #[trigger] self.jobs@[b].id.0@ by {
                if a != pos && b != pos {
                    assert(old_jobs[a].id.0@ != old_jobs[b].id.0@);
                }
            }
            assert forall|j: int| 0 <= j < self.jobs@.len() implies #[trigger] self.index@.contains_key(
                self.jobs@[j].id.0@,
            ) && self.index@[self.jobs@[j].id.0@] == self.jobs@[j]@ by {
                if j != pos {
                    assert(old(self).index@.contains_key(old_jobs[j].id.0@));
                }
            }
            assert forall|k2: Seq<char>| #[trigger] self.index@.contains_key(k2) implies exists|
                i: int,
            | 0 <= i < self.jobs@.len() && #[trigger] self.jobs@[i].id.0@ == k2 by {
                if k2 == k {
                    assert(self.jobs@[pos].id.0@ == k2);
                } else {
                    let i = choose|i: int|
                        0 <= i < old_jobs.len() && #[trigger] old_jobs[i].id.0@ == k2;
                    assert(i != pos);
                    assert(self.jobs@[i].id.0@ == k2);
                }
            }
        }
    }

    /// Adds a new queued job named `name`, made at `now`, under a fresh
    /// random identifier, which it gives back.
    pub fn create_job(&mut self, name: String, now: i64) -> (r: JobId)
        requires
            old(self).wf(),
        ensures
            final(self).wf(),
            r.0@.len() == 36,
            final(self)@ == old(self)@.insert(r.0@, queued_job(r.0@, name@, now)),
            final(self).cancelled_ids() == old(self).cancelled_ids().remove(r.0@),
    {
        let id = JobId::new();
        let copy = JobId(owned(id.0.as_str()));
        let job = Job::new(copy, name, now);
        self.insert(job);
        self.cancelled = unlist(&self.cancelled, id.0.as_str());
        id
    }

    /// Changes the job `id` in place with `change`, which takes and gives
    /// a job of the same identifier.
    fn update_at(&mut self, i: usize, job: Job)
        requires
            old(self).wf(),
            i < old(self).jobs@.len(),
            job.id.0@ == old(self).jobs@[i as int].id.0@,
        ensures
            final(self).wf(),
            final(self)@ == old(self)@.insert(job.id.0@, job@),
            final(self).cancelled_ids() == old(self).cancelled_ids(),
    {
        self.insert(job);
    }

    /// Puts the job `id` in state `status` at `now`, giving the event to
    /// report; an error where there is no such job.
    pub fn set_status(&mut self, id: &JobId, status: JobStatus, now: i64) -> (r: Result<
        Option<JobEventType>,
        DiskRipperError,
    >)
        requires
            old(self).wf(),
        ensures
            final(self).wf(),
            final(self).cancelled_ids() == old(self).cancelled_ids(),
            !old(self)@.contains_key(id.0@) ==> final(self)@ == old(self)@ && (r matches Err(
                DiskRipperError::JobNotFound(m),
            ) && m@ == id.0@),
            old(self)@.contains_key(id.0@) ==> r == Ok::<Option<JobEventType>, DiskRipperError>(
                status_event_of(status),
            ) && final(self)@ == old(self)@.insert(
                id.0@,
                with_status(old(self)@[id.0@], status, now),
            ),
    {
        match self.position(id) {
            Some(i) => {
                let mut job = self.jobs[i].copy();
                let ev = job.set_status(status, now);
                self.update_at(i, job);
                Ok(ev)
            },
            None => Err(DiskRipperError::JobNotFound(owned(id.0.as_str()))),
        }
    }

    /// Records that the job `id` failed with `error` at `now`; an error
    /// where there is no such job.
    pub fn set_error(&mut self, id: &JobId, error: String, now: i64) -> (r: Result<
        JobEventType,
        DiskRipperError,
    >)
        requires
            old(self).wf(),
        ensures
            final(self).wf(),
            final(self).cancelled_ids() == old(self).cancelled_ids(),
            !old(self)@.contains_key(id.0@) ==> final(self)@ == old(self)@ && (r matches Err(
                DiskRipperError::JobNotFound(m),
            ) && m@ == id.0@),
            old(self)@.contains_key(id.0@) ==> r == Ok::<JobEventType, DiskRipperError>(
                JobEventType::Failed,
            ) && final(self)@ == old(self)@.insert(
                id.0@,
                with_error(old(self)@[id.0@], error@, now),
            ),
    {
        match self.position(id) {
            Some(i) => {
                let mut job = self.jobs[i].copy();
                let ghost e = error@;
                let ev = job.set_error(error, now);
                self.update_at(i, job);
                Ok(ev)
            },
            None => Err(DiskRipperError::JobNotFound(owned(id.0.as_str()))),
        }
    }

    /// Marks the job `id` updated at `now` (its progress changed); an
    /// error where there is no such job.
    pub fn touch(&mut self, id: &JobId, now: i64) -> (r: Result<(), DiskRipperError>)
        requires
            old(self).wf(),
        ensures
            final(self).wf(),
            final(self).cancelled_ids() == old(self).cancelled_ids(),
            !old(self)@.contains_key(id.0@) ==> final(self)@ == old(self)@ && (r matches Err(
                DiskRipperError::JobNotFound(m),
            ) && m@ == id.0@),
            old(self)@.contains_key(id.0@) ==> r is Ok && final(self)@ == old(self)@.insert(
                id.0@,
                touched(old(self)@[id.0@], now),
            ),
    {
        match self.position(id) {
            Some(i) => {
                let mut job = self.jobs[i].copy();
                job.updated_at = now;
                self.update_at(i, job);
                Ok(())
            },
            None => Err(DiskRipperError::JobNotFound(owned(id.0.as_str()))),
        }
    }

    /// Takes the job `id` out of the table; an error where there is no such
    /// job.
    pub fn remove_job(&mut self, id: &JobId) -> (r: Result<(), DiskRipperError>)
        requires
            old(self).wf(),
        ensures
            final(self).wf(),
            old(self)@.contains_key(id.0@) ==> final(self).cancelled_ids() == old(self).cancelled_ids().remove(id.0@),
            !old(self)@.contains_key(id.0@) ==> final(self).cancelled_ids() == old(self).cancelled_ids(),
            !old(self)@.contains_key(id.0@) ==> final(self)@ == old(self)@ && (r matches Err(
                DiskRipperError::JobNotFound(m),
            ) && m@ == id.0@),
            old(self)@.contains_key(id.0@) ==> r is Ok && final(self)@ == old(self)@.remove(id.0@),
    {
        match self.position(id) {
            Some(i) => {
                let ghost k = id.0@;
                let ghost before = self.jobs@;
                let _removed = self.jobs.remove(i);
                proof {
                    self.index@ = old(self).index@.remove(k);
                    assert forall|a: int, b: int|
                        0 <= a < b < self.jobs@.len() implies #[trigger] self.jobs@[a].id.0@
                        != #[trigger] self.jobs@[b].id.0@ by {
                        let a2 = if a < i { a } else { a + 1 };
                        let b2 = if b < i { b } else { b + 1 };
                        assert(before[a2].id.0@ != before[b2].id.0@);
                    }
                    assert forall|a: int| 0 <= a < self.jobs@.len() implies #[trigger] self.index@.contains_key(
                        self.jobs@[a].id.0@,
                    ) && self.index@[self.jobs@[a].id.0@] == self.jobs@[a]@ by {
                        let a2 = if a < i { a } else { a + 1 };
                        assert(self.jobs@[a] == before[a2]);
                        assert(before[a2].id.0@ != before[i as int].id.0@);
                    }
                    assert forall|k2: Seq<char>| #[trigger] self.index@.contains_key(k2) implies exists|
                        a: int,
                    | 0 <= a < self.jobs@.len() && #[trigger] self.jobs@[a].id.0@ == k2 by {
                        let b = choose|b: int| 0 <= b < before.len() && #[trigger] before[b].id.0@ == k2;
                        if b < i {
                            assert(self.jobs@[b].id.0@ == k2);
                        } else {
                            assert(b != i);
                            assert(self.jobs@[b - 1].id.0@ == k2);
                        }
                    }
                }
                self.cancelled = unlist(&self.cancelled, id.0.as_str());
                Ok(())
            },
            None => Err(DiskRipperError::JobNotFound(owned(id.0.as_str()))),
        }
    }

    /// Asks for the job `id` to stop and puts it in the cancelled state at
    /// `now`, giving the event to report; an error where there is no such
    /// job.
    pub fn cancel_job(&mut self, id: &JobId, now: i64) -> (r: Result<
        Option<JobEventType>,
        DiskRipperError,
    >)
        requires
            old(self).wf(),
        ensures
            final(self).wf(),
            !old(self)@.contains_key(id.0@) ==> final(self)@ == old(self)@ && final(self).cancelled_ids()
                == old(self).cancelled_ids() && (r matches Err(DiskRipperError::JobNotFound(m))
                && m@ == id.0@),
            old(self)@.contains_key(id.0@) ==> r == Ok::<Option<JobEventType>, DiskRipperError>(
                Some(JobEventType::Cancelled),
            ) && final(self)@ == old(self)@.insert(
                id.0@,
                with_status(old(self)@[id.0@], JobStatus::Cancelled, now),
            ) && final(self).cancelled_ids() == old(self).cancelled_ids().insert(id.0@),
    {
        if self.position(id).is_some() && !is_listed(&self.cancelled, id.0.as_str()) {
            let ghost before = self.cancelled@;
            self.cancelled.push(owned(id.0.as_str()));
            proof {
                assert(self.cancelled@[before.len() as int]@ == id.0@);
                assert(id_set(self.cancelled@) =~= id_set(before).insert(id.0@)) by {
                    assert forall|x: Seq<char>| id_set(self.cancelled@).contains(x) implies id_set(
                        before,
                    ).insert(id.0@).contains(x) by {
                        let a = choose|a: int| 0 <= a < self.cancelled@.len() && #[trigger] self.cancelled@[a]@ == x;
                        if a < before.len() {
                            assert(before[a]@ == x);
                        }
                    }
                    assert forall|x: Seq<char>| id_set(before).insert(id.0@).contains(x) implies id_set(
                        self.cancelled@,
                    ).contains(x) by {
                        if x != id.0@ {
                            let a = choose|a: int| 0 <= a < before.len() && #[trigger] before[a]@ == x;
                            assert(self.cancelled@[a]@ == x);
                        }
                    }
                }
            }
        }
        proof {
            assert(old(self)@.contains_key(id.0@) ==> id_set(self.cancelled@) =~= id_set(
                old(self).cancelled@,
            ).insert(id.0@));
        }
        self.set_status(id, JobStatus::Cancelled, now)
    }

    /// Whether the job `id` reads as cancelled: it is not in the table, or
    /// its cancellation was asked for.
    pub fn is_cancelled(&self, id: &JobId) -> (r: bool)
        requires
            self.wf(),
        ensures
            r == reads_cancelled(self@, self.cancelled_ids(), id.0@),
    {
        match self.position(id) {
            None => true,
            Some(_) => is_listed(&self.cancelled, id.0.as_str()),
        }
    }

    /// The jobs, newest first.
    #[verifier::spinoff_prover]
    #[verifier::rlimit(40)]
    pub fn list_jobs(&self) -> (r: Vec<Job>)
        requires
            self.wf(),
        ensures
            forall|i: int| 0 <= i < r@.len() ==> #[trigger] self@.contains_key(r@[i]@.id)
                && self@[r@[i]@.id] == r@[i]@,
            forall|k: Seq<char>| #[trigger] self@.contains_key(k) ==> exists|i: int|
                0 <= i < r@.len() && #[trigger] r@[i]@.id == k,
            forall|i: int, j: int| 0 <= i < j < r@.len() ==> #[trigger] r@[i]@.id != #[trigger] r@[j]@.id,
            forall|i: int, j: int|
                0 <= i < j < r@.len() ==> #[trigger] r@[i].created_at >= #[trigger] r@[j].created_at,
    {
        let n = self.jobs.len();
        let mut order: Vec<usize> = Vec::new();
        let mut m: usize = 0;
        while m < n
            invariant
                n == self.jobs@.len(),
                m <= n,
                order@.len() == m,
                forall|a: int| 0 <= a < m ==> #[trigger] order@[a] < m,
                forall|a: int, b: int| 0 <= a < b < m ==> #[trigger] order@[a] != #[trigger] order@[b],
                forall|x: int| 0 <= x < m ==> #[trigger] listed(order@, x),
                forall|a: int, b: int|
                    0 <= a < b < m ==> #[trigger] self.jobs@[order@[a] as int].created_at
                        >= #[trigger] self.jobs@[order@[b] as int].created_at,
            decreases n - m,
        {
            let t = self.jobs[m].created_at;
            let mut j: usize = 0;
            while j < order.len() && self.jobs[order[j]].created_at >= t
                invariant
                    n == self.jobs@.len(),
                    j <= order@.len(),
                    m < n,
                    forall|a: int| 0 <= a < order@.len() ==> #[trigger] order@[a] < m,
                    forall|a: int| 0 <= a < j ==> #[trigger] self.jobs@[order@[a] as int].created_at >= t,
                decreases order.len() - j,
            {
                j = j + 1;
            }
            let ghost before = order@;
            order.insert(j, m);
            proof {
                assert forall|a: int| 0 <= a <= m implies #[trigger] order@[a] < m + 1 by {
                    if a < j {
                        assert(order@[a] == before[a]);
                    } else if a > j {
                        assert(order@[a] == before[a - 1]);
                    }
                }
                assert forall|a: int, b: int| 0 <= a < b <= m implies #[trigger] order@[a]
                    != #[trigger] order@[b] by {
                    let a2 = if a < j { a } else { a - 1 };
                    let b2 = if b < j { b } else { b - 1 };
                    if a != j && b != j {
                        assert(before[a2] != before[b2]);
                    } else if a == j {
                        assert(before[b2] < m);
                    } else {
                        assert(before[a2] < m);
                    }
                }
                assert forall|x: int| 0 <= x <= m implies #[trigger] listed(order@, x) by {
                    if x == m {
                        assert(order@[j as int] == x);
                    } else {
                        assert(listed(before, x));
                        let a = choose|a: int| 0 <= a < before.len() && #[trigger] before[a] == x;
                        if a < j {
                            assert(order@[a] == x);
                        } else {
                            assert(order@[a + 1] == x);
                        }
                    }
                }
                assert forall|a: int, b: int| 0 <= a < b <= m implies #[trigger] self.jobs@[order@[
                    a
                ] as int].created_at >= #[trigger] self.jobs@[order@[b] as int].created_at by {
                    if b < j {
                        assert(order@[a] == before[a] && order@[b] == before[b]);
                    } else if b == j {
                        assert(order@[a] == before[a]);
                    } else if a < j {
                        assert(order@[a] == before[a] && order@[b] == before[b - 1]);
                        assert(self.jobs@[before[a] as int].created_at >= t);
                    } else if a == j {
                        assert(order@[b] == before[b - 1]);
                        assert(self.jobs@[before[j as int] as int].created_at < t);
                        if b - 1 > j {
                            assert(self.jobs@[before[j as int] as int].created_at >= self.jobs@[before[b - 1] as int].created_at);
                        }
                    } else {
                        assert(order@[a] == before[a - 1] && order@[b] == before[b - 1]);
                    }
                }
            }
            m = m + 1;
        }
        let mut out: Vec<Job> = Vec::new();
        let mut p: usize = 0;
        while p < n
            invariant
                n == self.jobs@.len(),
                order@.len() == n,
                p <= n,
                out@.len() == p,
                forall|a: int| 0 <= a < n ==> #[trigger] order@[a] < n,
                forall|x: int| 0 <= x < n ==> #[trigger] listed(order@, x),
                forall|a: int, b: int| 0 <= a < b < n ==> #[trigger] order@[a] != #[trigger] order@[b],
                forall|a: int, b: int|
                    0 <= a < b < n ==> #[trigger] self.jobs@[order@[a] as int].created_at
                        >= #[trigger] self.jobs@[order@[b] as int].created_at,
                forall|a: int| 0 <= a < p ==> #[trigger] out@[a]@ == self.jobs@[order@[a] as int]@,
            decreases n - p,
        {
            out.push(self.jobs[order[p]].copy());
            p = p + 1;
        }
        proof {
            assert forall|i: int| 0 <= i < out@.len() implies #[trigger] self@.contains_key(out@[i]@.id)
                && self@[out@[i]@.id] == out@[i]@ by {
                assert(order@[i] < n);
                assert(out@[i]@ == self.jobs@[order@[i] as int]@);
                assert(self.index@.contains_key(self.jobs@[order@[i] as int].id.0@));
            }
            assert forall|k: Seq<char>| #[trigger] self@.contains_key(k) implies exists|i: int|
                0 <= i < out@.len() && #[trigger] out@[i]@.id == k by {
                let x = choose|x: int| 0 <= x < n && #[trigger] self.jobs@[x].id.0@ == k;
                assert(listed(order@, x));
                let a = choose|a: int| 0 <= a < order@.len() && #[trigger] order@[a] == x;
                assert(out@[a]@.id == k);
            }
            assert forall|i: int, j: int| 0 <= i < j < out@.len() implies #[trigger] out@[i]@.id
                != #[trigger] out@[j]@.id by {
                let x = order@[i] as int;
                let y = order@[j] as int;
                if x < y {
                    assert(self.jobs@[x].id.0@ != self.jobs@[y].id.0@);
                } else {
                    assert(self.jobs@[y].id.0@ != self.jobs@[x].id.0@);
                }
            }
            assert forall|i: int, j: int| 0 <= i < j < out@.len() implies #[trigger] out@[i].created_at
                >= #[trigger] out@[j].created_at by {
                assert(out@[i]@ == self.jobs@[order@[i] as int]@);
                assert(out@[j]@ == self.jobs@[order@[j] as int]@);
                assert(self.jobs@[order@[i] as int].created_at >= self.jobs@[order@[j] as int].created_at);
            }
        }
        out
    }

}


/// A created job is found under its identifier, as made; the other jobs
/// stay as they were.
pub proof fn law_create_then_get(
    t: Map<Seq<char>, JobView>,
    id: Seq<char>,
    name: Seq<char>,
    now: i64,
    k: Seq<char>,
)
    ensures
        t.insert(id, queued_job(id, name, now)).contains_key(id),
        t.insert(id, queued_job(id, name, now))[id] == queued_job(id, name, now),
        k != id ==> (t.insert(id, queued_job(id, name, now)).contains_key(k) == t.contains_key(k)
            && t.insert(id, queued_job(id, name, now))[k] == t[k]),
{
}

/// A removed job is no longer found; the other jobs stay as they were.
pub proof fn law_remove_then_absent(t: Map<Seq<char>, JobView>, id: Seq<char>, k: Seq<char>)
    ensures
        !t.remove(id).contains_key(id),
        k != id ==> (t.remove(id).contains_key(k) == t.contains_key(k) && t.remove(id)[k] == t[k]),
{
}

/// A change of state keeps the job's identity, name, creation time and
/// error, and no other job changes.
pub proof fn law_status_change_keeps_the_rest(
    t: Map<Seq<char>, JobView>,
    id: Seq<char>,
    status: JobStatus,
    now: i64,
    k: Seq<char>,
)
    requires
        t.contains_key(id),
    ensures
        ({
            let u = t.insert(id, with_status(t[id], status, now));
            &&& u[id].id == t[id].id
            &&& u[id].name == t[id].name
            &&& u[id].created_at == t[id].created_at
            &&& u[id].error == t[id].error
            &&& u[id].status == status
            &&& k != id ==> u.contains_key(k) == t.contains_key(k) && u[k] == t[k]
        }),
{
}

/// A job whose cancellation was asked for reads as cancelled and is in the
/// cancelled state; a job just created does not read as cancelled; a job
/// that is not in the table reads as cancelled.
pub proof fn law_cancel_then_cancelled(
    t: Map<Seq<char>, JobView>,
    c: Set<Seq<char>>,
    id: Seq<char>,
    name: Seq<char>,
    now: i64,
)
    ensures
        t.contains_key(id) ==> reads_cancelled(
            t.insert(id, with_status(t[id], JobStatus::Cancelled, now)),
            c.insert(id),
            id,
        ) && t.insert(id, with_status(t[id], JobStatus::Cancelled, now))[id].status
            == JobStatus::Cancelled,
        !reads_cancelled(t.insert(id, queued_job(id, name, now)), c.remove(id), id),
        !t.contains_key(id) ==> reads_cancelled(t, c, id),
{
}

} // verus!
