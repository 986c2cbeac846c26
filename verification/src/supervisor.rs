use vstd::prelude::*;
use vstd::string::*;
use crate::error::{failure, ErrorKind, RuntimeError};
use crate::ids::{simple_hex, JobId};
use crate::limits::{decimal, join, limit_writes, writes_view, Cgroup, FileWrite, ResourceLimits};
use crate::logbuf::{advanced, delivery, Cursor, LogBuffer, LogPoll};
use crate::status::{ExitStatus, JobStatus};

verus! {

/// The mathematical value of a job's entry.
pub struct JobModel {
    /// Who started the job.
    pub owner: Seq<char>,
    pub status: JobStatus,
    /// When the job was allocated.
    pub created_at: u64,
    /// The path of the job's cgroup, while it has one.
    pub cgroup: Option<Seq<char>>,
    /// The job's merged output so far.
    pub log: Seq<u8>,
    /// Whether the output is complete.
    pub closed: bool,
    /// Whether the child can still be sent a kill.
    pub kill_handle: bool,
    /// How many of the child's output pipes are still read.
    pub open_pipes: nat,
    /// The child's exit, while it waits for the pipes to drain.
    pub exit: Option<ExitStatus>,
}

impl JobModel {
    /// What holds of every entry: only a running job has a kill handle, and
    /// it has none once its exit is known; the output of a job that has
    /// ended is complete; an exit waits only for pipes that are still read;
    /// and a job has a cgroup exactly until it ends.
    pub open spec fn wf(self) -> bool {
        &&& self.kill_handle ==> self.status is Running && self.exit is None
        &&& self.status.terminal() ==> self.closed
        &&& self.exit is Some ==> self.status is Running && self.open_pipes > 0
        &&& self.open_pipes > 0 ==> self.status is Running
        &&& self.open_pipes <= 2
        &&& self.cgroup is Some <==> !self.status.terminal()
    }

    /// The entry once the child is spawned with `pid`: running, with a kill
    /// handle, and with both output pipes read.
    pub open spec fn spawned(self, pid: u32) -> JobModel {
        JobModel { status: JobStatus::Running { pid }, kill_handle: true, open_pipes: 2, ..self }
    }

    /// The entry at the end of the job: the status that `exit` gives, the
    /// output complete, no kill handle and no cgroup.
    pub open spec fn ended(self, exit: ExitStatus) -> JobModel {
        JobModel {
            status: JobStatus::of_exit(exit),
            closed: true,
            kill_handle: false,
            cgroup: None,
            open_pipes: 0,
            exit: None,
            ..self
        }
    }

    /// The entry after the child's exit was reported. The kill handle is
    /// dropped. While a pipe is still read the exit waits, so that no
    /// output is lost; otherwise the job ends. An entry that is not running,
    /// or whose exit is known already, stays as it is.
    pub open spec fn after_exit(self, exit: ExitStatus) -> JobModel {
        if !(self.status is Running) || self.exit is Some {
            self
        } else if self.open_pipes > 0 {
            JobModel { exit: Some(exit), kill_handle: false, ..self }
        } else {
            self.ended(exit)
        }
    }

    /// The entry after one of the child's pipes reached its end or failed.
    /// With the last pipe the output is complete, and a job whose exit was
    /// waiting ends.
    pub open spec fn after_pipe_closed(self) -> JobModel {
        if self.open_pipes == 0 {
            self
        } else if self.open_pipes > 1 {
            JobModel { open_pipes: (self.open_pipes - 1) as nat, ..self }
        } else {
            match self.exit {
                Some(exit) => self.ended(exit),
                None => JobModel { open_pipes: 0, closed: true, ..self },
            }
        }
    }

    /// The entry of a job that was just allocated.
    pub open spec fn pending(owner: Seq<char>, created_at: u64, cgroup: Seq<char>) -> JobModel {
        JobModel {
            owner,
            status: JobStatus::Pending,
            created_at,
            cgroup: Some(cgroup),
            log: Seq::empty(),
            closed: false,
            kill_handle: false,
            open_pipes: 0,
            exit: None,
        }
    }

    /// The entry at or after a later time: owner and creation time stay,
    /// the status only moves forward, the output only grows at its end and
    /// not at all once it is complete, and a kill handle that was given up
    /// does not come back.
    pub open spec fn leads_to(self, later: JobModel) -> bool {
        &&& later.owner == self.owner
        &&& later.created_at == self.created_at
        &&& self.status.leads_to(later.status)
        &&& self.log.len() <= later.log.len()
        &&& later.log.subrange(0, self.log.len() as int) == self.log
        &&& self.closed ==> later.closed && later.log == self.log
        &&& (!self.kill_handle && !(self.status is Pending)) ==> !later.kill_handle
    }
}

/// The job table at or after a later time: a job that had left the pending
/// state is still there, and each job that is still there has moved forward.
pub open spec fn evolves(before: Map<JobId, JobModel>, after: Map<JobId, JobModel>) -> bool {
    forall|id: JobId| #[trigger]
        before.contains_key(id) ==> if after.contains_key(id) {
            before[id].leads_to(after[id])
        } else {
            before[id].status is Pending
        }
}

/// An entry leads to itself.
pub proof fn lemma_leads_to_reflexive(m: JobModel)
    ensures
        m.leads_to(m),
{
    assert(m.log.subrange(0, m.log.len() as int) =~= m.log);
}

/// What may follow a later entry may follow an earlier one.
pub proof fn lemma_leads_to_transitive(a: JobModel, b: JobModel, c: JobModel)
    requires
        a.leads_to(b),
        b.leads_to(c),
    ensures
        a.leads_to(c),
{
    assert(c.log.subrange(0, a.log.len() as int) =~= b.log.subrange(0, a.log.len() as int));
}

/// A table evolves into itself.
pub proof fn lemma_evolves_reflexive(jobs: Map<JobId, JobModel>)
    ensures
        evolves(jobs, jobs),
{
    assert forall|id: JobId| #[trigger] jobs.contains_key(id) implies jobs[id].leads_to(
        jobs[id],
    ) by {
        lemma_leads_to_reflexive(jobs[id]);
    }
}

/// Evolution composes, as long as no id that left the table is given out
/// again.
pub proof fn lemma_evolves_transitive(
    a: Map<JobId, JobModel>,
    b: Map<JobId, JobModel>,
    c: Map<JobId, JobModel>,
)
    requires
        evolves(a, b),
        evolves(b, c),
        forall|id: JobId| a.contains_key(id) && !b.contains_key(id) ==> !c.contains_key(id),
    ensures
        evolves(a, c),
{
    assert forall|id: JobId| #[trigger] a.contains_key(id) implies if c.contains_key(id) {
        a[id].leads_to(c[id])
    } else {
        a[id].status is Pending
    } by {
        if b.contains_key(id) {
            if c.contains_key(id) {
                lemma_leads_to_transitive(a[id], b[id], c[id]);
            }
        }
    }
}

/// Once a job has ended, its status, its output and its owner are what
/// every later table shows.
pub proof fn lemma_terminal_stays(a: Map<JobId, JobModel>, b: Map<JobId, JobModel>, id: JobId)
    requires
        evolves(a, b),
        a.contains_key(id),
        a[id].status.terminal(),
        a[id].wf(),
    ensures
        b.contains_key(id),
        b[id].status == a[id].status,
        b[id].log == a[id].log,
        b[id].owner == a[id].owner,
{
}

/// Replacing an entry by one that it leads to, or adding an entry under a
/// new id, is an evolution.
pub proof fn lemma_evolves_insert(jobs: Map<JobId, JobModel>, id: JobId, m: JobModel)
    requires
        jobs.contains_key(id) ==> jobs[id].leads_to(m),
    ensures
        evolves(jobs, jobs.insert(id, m)),
{
    assert forall|k: JobId| #[trigger] jobs.contains_key(k) implies jobs[k].leads_to(
        jobs.insert(id, m)[k],
    ) by {
        lemma_leads_to_reflexive(jobs[k]);
    }
}

/// Dropping a pending entry is an evolution.
pub proof fn lemma_evolves_remove(jobs: Map<JobId, JobModel>, id: JobId)
    requires
        jobs.contains_key(id) ==> jobs[id].status is Pending,
    ensures
        evolves(jobs, jobs.remove(id)),
{
    assert forall|k: JobId| #[trigger] jobs.contains_key(k) && k != id implies jobs[k].leads_to(
        jobs.remove(id)[k],
    ) by {
        lemma_leads_to_reflexive(jobs[k]);
    }
}

/// The per-job state that the supervisor keeps.
#[derive(Debug)]
pub struct JobEntry {
    id: JobId,
    owner: String,
    status: JobStatus,
    created_at: u64,
    cgroup: Option<Cgroup>,
    log: LogBuffer,
    kill_handle: bool,
    open_pipes: u8,
    exit: Option<ExitStatus>,
}

impl View for JobEntry {
    type V = JobModel;

    closed spec fn view(&self) -> JobModel {
        JobModel {
            owner: self.owner@,
            status: self.status,
            created_at: self.created_at,
            cgroup: match self.cgroup {
                Some(c) => Some(c@),
                None => None,
            },
            log: self.log.content(),
            closed: self.log.is_closed(),
            kill_handle: self.kill_handle,
            open_pipes: self.open_pipes as nat,
            exit: self.exit,
        }
    }
}

/// What the caller of `begin_start` has to do before the job can run:
/// create the cgroup, make the writes in order, then spawn the program.
#[derive(Debug)]
pub struct StartPlan {
    pub cgroup: Cgroup,
    pub limit_writes: Vec<FileWrite>,
    pub path: String,
    pub args: Vec<String>,
}

/// What a stop asks of the operating system.
#[derive(Clone, Copy, Debug, PartialEq, Eq, Structural)]
pub enum StopAction {
    /// Send SIGKILL to the child with this pid.
    Kill { pid: u32 },
    /// Nothing: the job has ended, or the kill was already sent.
    Nothing,
}

/// A snapshot of a job.
#[derive(Clone, Debug, PartialEq, Eq)]
pub struct JobInfo {
    pub job: JobId,
    pub owner: String,
    pub status: JobStatus,
}

/// The single owner of the job table and of every lifecycle transition.
#[derive(Debug)]
pub struct Supervisor {
    parent: Cgroup,
    jobs: Vec<JobEntry>,
}

spec fn slot(jobs: Seq<JobEntry>, id: JobId) -> int {
    choose|i: int| 0 <= i < jobs.len() && jobs[i].id == id
}

spec fn table(jobs: Seq<JobEntry>) -> Map<JobId, JobModel> {
    Map::new(
        |id: JobId| exists|i: int| 0 <= i < jobs.len() && jobs[i].id == id,
        |id: JobId| jobs[slot(jobs, id)]@,
    )
}

spec fn unique(jobs: Seq<JobEntry>) -> bool {
    forall|i: int, j: int| 0 <= i < j < jobs.len() ==> jobs[i].id != jobs[j].id
}

spec fn sound(jobs: Seq<JobEntry>) -> bool {
    forall|i: int| 0 <= i < jobs.len() ==> (#[trigger] jobs[i])@.wf()
}

proof fn lemma_lookup(jobs: Seq<JobEntry>, i: int)
    requires
        unique(jobs),
        0 <= i < jobs.len(),
    ensures
        table(jobs).contains_key(jobs[i].id),
        table(jobs)[jobs[i].id] == jobs[i]@,
{
    let id = jobs[i].id;
    let k = slot(jobs, id);
    assert(0 <= k < jobs.len() && jobs[k].id == id);
    if k < i {
        assert(jobs[k].id != jobs[i].id);
    } else if i < k {
        assert(jobs[i].id != jobs[k].id);
    }
}

proof fn lemma_push(jobs: Seq<JobEntry>, e: JobEntry)
    requires
        unique(jobs),
        !table(jobs).contains_key(e.id),
    ensures
        unique(jobs.push(e)),
        table(jobs.push(e)) == table(jobs).insert(e.id, e@),
{
    let next = jobs.push(e);
    assert forall|i: int, j: int| 0 <= i < j < next.len() implies next[i].id != next[j].id by {
        if j == jobs.len() {
            assert(next[i] == jobs[i]);
        } else {
            assert(next[i] == jobs[i] && next[j] == jobs[j]);
        }
    }
    assert(next[jobs.len() as int] == e);
    lemma_lookup(next, jobs.len() as int);
    assert forall|id: JobId| #[trigger]
        table(next).contains_key(id) <==> table(jobs).insert(e.id, e@).contains_key(id) by {
        if table(next).contains_key(id) {
            let k = slot(next, id);
            if k < jobs.len() {
                assert(jobs[k].id == id);
            }
        }
        if table(jobs).contains_key(id) {
            let k = slot(jobs, id);
            assert(next[k].id == id);
        }
    }
    assert forall|id: JobId| #[trigger]
        table(next).contains_key(id) implies table(next)[id] == table(jobs).insert(e.id, e@)[id] by {
        if id != e.id {
            let k = slot(jobs, id);
            assert(next[k] == jobs[k]);
            lemma_lookup(next, k);
            lemma_lookup(jobs, k);
        }
    }
    assert(table(next) =~= table(jobs).insert(e.id, e@));
}

proof fn lemma_remove(jobs: Seq<JobEntry>, i: int)
    requires
        unique(jobs),
        0 <= i < jobs.len(),
    ensures
        unique(jobs.remove(i)),
        table(jobs.remove(i)) == table(jobs).remove(jobs[i].id),
{
    let next = jobs.remove(i);
    let gone = jobs[i].id;
    assert forall|a: int| 0 <= a < next.len() implies next[a] == jobs[if a < i {
        a
    } else {
        a + 1
    }] by {}
    assert forall|a: int, b: int| 0 <= a < b < next.len() implies next[a].id != next[b].id by {
        let a0 = if a < i {
            a
        } else {
            a + 1
        };
        let b0 = if b < i {
            b
        } else {
            b + 1
        };
        assert(next[a] == jobs[a0] && next[b] == jobs[b0]);
    }
    assert forall|id: JobId| #[trigger]
        table(next).contains_key(id) <==> table(jobs).remove(gone).contains_key(id) by {
        if table(next).contains_key(id) {
            let k = slot(next, id);
            let k0 = if k < i {
                k
            } else {
                k + 1
            };
            assert(next[k] == jobs[k0]);
            assert(jobs[k0].id == id);
            if k0 < i {
                assert(jobs[k0].id != jobs[i].id);
            } else {
                assert(jobs[i].id != jobs[k0].id);
            }
        }
        if table(jobs).remove(gone).contains_key(id) {
            let k = slot(jobs, id);
            assert(k != i);
            let k1 = if k < i {
                k
            } else {
                k - 1
            };
            assert(next[k1] == jobs[k]);
            assert(next[k1].id == id);
        }
    }
    assert forall|id: JobId| #[trigger]
        table(next).contains_key(id) implies table(next)[id] == table(jobs).remove(gone)[id] by {
        let k = slot(next, id);
        let k0 = if k < i {
            k
        } else {
            k + 1
        };
        assert(next[k] == jobs[k0]);
        lemma_lookup(next, k);
        lemma_lookup(jobs, k0);
    }
    assert(table(next) =~= table(jobs).remove(gone));
}

/// The reply that a stop is owed: unknown id, not found; another owner's
/// job, permission denied; a job whose child is not spawned yet cannot be
/// stopped; otherwise success, with a kill only while the kill handle is
/// there.
pub open spec fn stop_reply(jobs: Map<JobId, JobModel>, id: JobId, owner: Seq<char>) -> Result<
    StopAction,
    ErrorKind,
> {
    if !jobs.contains_key(id) {
        Err(ErrorKind::NotFound)
    } else if jobs[id].owner != owner {
        Err(ErrorKind::PermissionDenied)
    } else {
        match jobs[id].status {
            JobStatus::Pending => Err(ErrorKind::Internal),
            JobStatus::Running { pid } => if jobs[id].kill_handle {
                Ok(StopAction::Kill { pid })
            } else {
                Ok(StopAction::Nothing)
            },
            _ => Ok(StopAction::Nothing),
        }
    }
}

/// The job table after a stop: a kill uses the kill handle up, and nothing
/// else changes.
pub open spec fn after_stop(jobs: Map<JobId, JobModel>, id: JobId, owner: Seq<char>) -> Map<
    JobId,
    JobModel,
> {
    match stop_reply(jobs, id, owner) {
        Ok(StopAction::Kill { .. }) => jobs.insert(
            id,
            JobModel { kill_handle: false, ..jobs[id] },
        ),
        _ => jobs,
    }
}

/// Why a caller may not look at a job, if it may not: unknown id, not
/// found; another owner's job, permission denied.
pub open spec fn refusal(jobs: Map<JobId, JobModel>, id: JobId, owner: Seq<char>) -> Option<
    ErrorKind,
> {
    if !jobs.contains_key(id) {
        Some(ErrorKind::NotFound)
    } else if jobs[id].owner != owner {
        Some(ErrorKind::PermissionDenied)
    } else {
        None
    }
}

/// The kind of a reply's failure, with the success untouched.
pub open spec fn kind_of<T>(r: Result<T, RuntimeError>) -> Result<T, ErrorKind> {
    match r {
        Ok(v) => Ok(v),
        Err(e) => Err(e.kind),
    }
}

fn same_text(a: &String, b: &str) -> (r: bool)
    ensures
        r == (a@ == b@),
{
    let other: String = String::from_str(b);
    *a == other
}

impl Supervisor {
    /// The job table: each job's entry under its id.
    pub closed spec fn view(&self) -> Map<JobId, JobModel> {
        table(self.jobs@)
    }

    /// The path of the cgroup under which the jobs' cgroups are created.
    pub closed spec fn parent(&self) -> Seq<char> {
        self.parent@
    }

    /// No id occurs twice, and every entry is well formed.
    pub closed spec fn wf(&self) -> bool {
        unique(self.jobs@) && sound(self.jobs@)
    }

    /// Every entry of a well-formed table is well formed.
    pub proof fn lemma_entries_wf(&self)
        requires
            self.wf(),
        ensures
            forall|id: JobId| #[trigger] self@.contains_key(id) ==> self@[id].wf(),
    {
        assert forall|id: JobId| #[trigger] self@.contains_key(id) implies self@[id].wf() by {
            let k = slot(self.jobs@, id);
            assert(self.jobs@[k]@.wf());
        }
    }

    /// A supervisor without jobs, whose jobs' cgroups will stand under
    /// `parent`.
    pub fn new(parent: Cgroup) -> (r: Supervisor)
        ensures
            r.wf(),
            r@ == Map::<JobId, JobModel>::empty(),
            r.parent() == parent@,
    {
        let r = Supervisor { parent, jobs: Vec::new() };
        assert(r@ =~= Map::<JobId, JobModel>::empty());
        r
    }

    /// Whether the table holds the job `id`.
    pub fn contains(&self, id: JobId) -> (r: bool)
        requires
            self.wf(),
        ensures
            r == self@.contains_key(id),
    {
        self.find(id).is_some()
    }

    fn find(&self, id: JobId) -> (r: Option<usize>)
        requires
            self.wf(),
        ensures
            match r {
                Some(i) => i < self.jobs.len() && self.jobs[i as int].id == id
                    && self@.contains_key(id) && self@[id] == self.jobs[i as int]@
                    && self@[id].wf(),
                None => !self@.contains_key(id),
            },
    {
        let mut i: usize = 0;
        while i < self.jobs.len()
            invariant
                self.wf(),
                i <= self.jobs.len(),
                forall|k: int| 0 <= k < i ==> self.jobs[k].id != id,
            decreases self.jobs.len() - i,
        {
            if self.jobs[i].id == id {
                proof {
                    lemma_lookup(self.jobs@, i as int);
                }
                return Some(i);
            }
            i = i + 1;
        }
        None
    }

    fn take(&mut self, i: usize) -> (e: JobEntry)
        requires
            old(self).wf(),
            i < old(self).jobs.len(),
        ensures
            e == old(self).jobs[i as int],
            final(self).wf(),
            final(self)@ == old(self)@.remove(e.id),
            final(self).parent() == old(self).parent(),
    {
        proof {
            lemma_remove(self.jobs@, i as int);
            let next = self.jobs@.remove(i as int);
            assert forall|a: int| 0 <= a < next.len() implies (#[trigger] next[a])@.wf() by {
                assert(next[a] == self.jobs@[if a < i {
                    a
                } else {
                    a + 1
                }]);
            }
        }
        self.jobs.remove(i)
    }

    fn put(&mut self, e: JobEntry)
        requires
            old(self).wf(),
            !old(self)@.contains_key(e.id),
            e@.wf(),
        ensures
            final(self).wf(),
            final(self)@ == old(self)@.insert(e.id, e@),
            final(self).parent() == old(self).parent(),
    {
        proof {
            lemma_push(self.jobs@, e);
            let next = self.jobs@.push(e);
            assert forall|a: int| 0 <= a < next.len() implies (#[trigger] next[a])@.wf() by {
                if a < self.jobs@.len() {
                    assert(next[a] == self.jobs@[a]);
                }
            }
        }
        self.jobs.push(e);
    }

    /// Allocates the job `id` for `owner`, in the pending state, and says
    /// what has to be done to run it: the job's cgroup, named by the id
    /// under the parent, the writes that apply `limits` to it, and the
    /// program with its arguments. An id that is in the table already is
    /// refused, and the table stays as it is.
    pub fn begin_start(
        &mut self,
        id: JobId,
        path: String,
        args: Vec<String>,
        owner: String,
        limits: ResourceLimits,
        now: u64,
    ) -> (r: Result<StartPlan, RuntimeError>)
        requires
            old(self).wf(),
        ensures
            final(self).wf(),
            final(self).parent() == old(self).parent(),
            evolves(old(self)@, final(self)@),
            r is Ok <==> !old(self)@.contains_key(id),
            match r {
                Ok(plan) => {
                    &&& plan.cgroup@ == join(old(self).parent(), simple_hex(id.value))
                    &&& writes_view(plan.limit_writes@) == limit_writes(plan.cgroup@, limits)
                    &&& plan.path == path
                    &&& plan.args == args
                    &&& final(self)@ == old(self)@.insert(
                        id,
                        JobModel::pending(owner@, now, plan.cgroup@),
                    )
                },
                Err(e) => e@ == failure(ErrorKind::Internal) && final(self)@ == old(self)@,
            },
    {
        match self.find(id) {
            Some(_) => {
                proof {
                    lemma_evolves_reflexive(self@);
                }
                Err(RuntimeError::of_kind(ErrorKind::Internal))
            },
            None => {
                let name: String = id.to_simple_string();
                let cgroup: Cgroup = Cgroup::new_relative_to(&self.parent, name.as_str());
                let limit_writes: Vec<FileWrite> = cgroup.apply_limits(limits);
                let entry = JobEntry {
                    id,
                    owner,
                    status: JobStatus::Pending,
                    created_at: now,
                    cgroup: Some(cgroup.clone()),
                    log: LogBuffer::new(),
                    kill_handle: false,
                    open_pipes: 0,
                    exit: None,
                };
                proof {
                    lemma_evolves_insert(self@, id, entry@);
                }
                self.put(entry);
                Ok(StartPlan { cgroup, limit_writes, path, args })
            },
        }
    }

    /// Draws a random id and allocates the job under it. Whatever id was
    /// drawn, it is given out only if the table did not hold it.
    pub fn start(
        &mut self,
        path: String,
        args: Vec<String>,
        owner: String,
        limits: ResourceLimits,
        now: u64,
    ) -> (r: Result<(JobId, StartPlan), RuntimeError>)
        requires
            old(self).wf(),
        ensures
            final(self).wf(),
            final(self).parent() == old(self).parent(),
            evolves(old(self)@, final(self)@),
            match r {
                Ok((id, plan)) => {
                    &&& !old(self)@.contains_key(id)
                    &&& plan.cgroup@ == join(old(self).parent(), simple_hex(id.value))
                    &&& writes_view(plan.limit_writes@) == limit_writes(plan.cgroup@, limits)
                    &&& plan.path == path
                    &&& plan.args == args
                    &&& final(self)@ == old(self)@.insert(
                        id,
                        JobModel::pending(owner@, now, plan.cgroup@),
                    )
                },
                Err(e) => e@ == failure(ErrorKind::Internal) && final(self)@ == old(self)@,
            },
    {
        let id: JobId = JobId::random();
        match self.begin_start(id, path, args, owner, limits, now) {
            Ok(plan) => Ok((id, plan)),
            Err(e) => Err(e),
        }
    }

    /// Gives up a start whose cgroup or spawn failed: the pending entry
    /// leaves the table, and the failure to report carries `message`, the
    /// operating system's own words. A job that is not pending is left
    /// alone, and nothing is to be reported.
    pub fn fail_start(&mut self, id: JobId, message: String) -> (r: Option<RuntimeError>)
        requires
            old(self).wf(),
        ensures
            final(self).wf(),
            final(self).parent() == old(self).parent(),
            evolves(old(self)@, final(self)@),
            r is Some <==> old(self)@.contains_key(id) && old(self)@[id].status is Pending,
            match r {
                Some(e) => e@ == (ErrorKind::ResourceError, message@) && final(self)@ == old(
                    self,
                )@.remove(id),
                None => final(self)@ == old(self)@,
            },
    {
        match self.find(id) {
            Some(i) => {
                if let JobStatus::Pending = self.jobs[i].status {
                    proof {
                        lemma_evolves_remove(self@, id);
                    }
                    let _gone: JobEntry = self.take(i);
                    Some(RuntimeError { kind: ErrorKind::ResourceError, message })
                } else {
                    proof {
                        lemma_evolves_reflexive(self@);
                    }
                    None
                }
            },
            None => {
                proof {
                    lemma_evolves_reflexive(self@);
                }
                None
            },
        }
    }

    /// Records that the child of the pending job `id` was spawned with
    /// `pid`: the job is running, can be killed, and its two output pipes
    /// are read. The result is the write
    /// that moves the child into the job's cgroup. An unknown id is not
    /// found; a job that is not pending is refused as a broken invariant.
    pub fn commit_start(&mut self, id: JobId, pid: u32) -> (r: Result<FileWrite, RuntimeError>)
        requires
            old(self).wf(),
        ensures
            final(self).wf(),
            final(self).parent() == old(self).parent(),
            evolves(old(self)@, final(self)@),
            r is Ok <==> old(self)@.contains_key(id) && old(self)@[id].status is Pending,
            match r {
                Ok(write) => {
                    &&& old(self)@[id].cgroup is Some
                    &&& write@ == (
                        join(old(self)@[id].cgroup->Some_0, "cgroup.procs"@),
                        decimal(pid as nat),
                    )
                    &&& final(self)@ == old(self)@.insert(id, old(self)@[id].spawned(pid))
                },
                Err(e) => {
                    &&& final(self)@ == old(self)@
                    &&& e@ == failure(
                        if old(self)@.contains_key(id) {
                            ErrorKind::Internal
                        } else {
                            ErrorKind::NotFound
                        },
                    )
                },
            },
    {
        proof {
            lemma_evolves_reflexive(self@);
        }
        match self.find(id) {
            Some(i) => {
                if let JobStatus::Pending = self.jobs[i].status {
                    let ghost before = self@;
                    let mut e: JobEntry = self.take(i);
                    let attach: Option<FileWrite> = match &e.cgroup {
                        Some(cgroup) => Some(cgroup.attach(pid)),
                        None => None,
                    };
                    e.status = JobStatus::Running { pid };
                    e.kill_handle = true;
                    e.open_pipes = 2;
                    proof {
                        assert(e@.log.subrange(0, before[id].log.len() as int) =~= before[id].log);
                        lemma_evolves_insert(before, id, e@);
                        assert(before.remove(id).insert(id, e@) =~= before.insert(id, e@));
                    }
                    self.put(e);
                    match attach {
                        Some(write) => Ok(write),
                        None => Err(RuntimeError::of_kind(ErrorKind::Internal)),
                    }
                } else {
                    Err(RuntimeError::of_kind(ErrorKind::Internal))
                }
            },
            None => Err(RuntimeError::of_kind(ErrorKind::NotFound)),
        }
    }

    /// Stops the job `id` on behalf of `owner`. The reply is `stop_reply`'s:
    /// a job that has ended, or whose kill was already sent, is a success
    /// that asks nothing of the operating system. The status is left as it
    /// is: the child's exit will change it.
    pub fn stop(&mut self, id: JobId, owner: &str) -> (r: Result<StopAction, RuntimeError>)
        requires
            old(self).wf(),
        ensures
            final(self).wf(),
            final(self).parent() == old(self).parent(),
            evolves(old(self)@, final(self)@),
            kind_of(r) == stop_reply(old(self)@, id, owner@),
            r is Err ==> r->Err_0@ == failure(r->Err_0.kind),
            final(self)@ == after_stop(old(self)@, id, owner@),
    {
        proof {
            lemma_evolves_reflexive(self@);
        }
        match self.find(id) {
            None => Err(RuntimeError::of_kind(ErrorKind::NotFound)),
            Some(i) => {
                if !same_text(&self.jobs[i].owner, owner) {
                    return Err(RuntimeError::of_kind(ErrorKind::PermissionDenied));
                }
                match self.jobs[i].status {
                    JobStatus::Pending => Err(RuntimeError::of_kind(ErrorKind::Internal)),
                    JobStatus::Running { pid } => {
                        if self.jobs[i].kill_handle {
                            let ghost before = self@;
                            let mut e: JobEntry = self.take(i);
                            e.kill_handle = false;
                            proof {
                                assert(e@.log.subrange(0, before[id].log.len() as int)
                                    =~= before[id].log);
                                lemma_evolves_insert(before, id, e@);
                                assert(before.remove(id).insert(id, e@) =~= before.insert(
                                    id,
                                    e@,
                                ));
                            }
                            self.put(e);
                            Ok(StopAction::Kill { pid })
                        } else {
                            Ok(StopAction::Nothing)
                        }
                    },
                    _ => Ok(StopAction::Nothing),
                }
            },
        }
    }

    /// A snapshot of the job `id` for `owner`: its id, owner and status.
    pub fn status(&self, id: JobId, owner: &str) -> (r: Result<JobInfo, RuntimeError>)
        requires
            self.wf(),
        ensures
            match r {
                Ok(info) => {
                    &&& refusal(self@, id, owner@) is None
                    &&& info.job == id
                    &&& info.owner@ == owner@
                    &&& info.status == self@[id].status
                },
                Err(e) => refusal(self@, id, owner@) == Some(e.kind) && e@ == failure(e.kind),
            },
    {
        match self.find(id) {
            None => Err(RuntimeError::of_kind(ErrorKind::NotFound)),
            Some(i) => {
                if !same_text(&self.jobs[i].owner, owner) {
                    return Err(RuntimeError::of_kind(ErrorKind::PermissionDenied));
                }
                Ok(
                    JobInfo {
                        job: id,
                        owner: self.jobs[i].owner.clone(),
                        status: self.jobs[i].status,
                    },
                )
            },
        }
    }

    /// Subscribes `owner` to the output of the job `id`: the subscriber
    /// starts before the first byte, whenever it attaches.
    pub fn fetch_logs(&self, id: JobId, owner: &str) -> (r: Result<Cursor, RuntimeError>)
        requires
            self.wf(),
        ensures
            match r {
                Ok(cursor) => refusal(self@, id, owner@) is None && cursor.position() == 0,
                Err(e) => refusal(self@, id, owner@) == Some(e.kind) && e@ == failure(e.kind),
            },
    {
        match self.find(id) {
            None => Err(RuntimeError::of_kind(ErrorKind::NotFound)),
            Some(i) => {
                if !same_text(&self.jobs[i].owner, owner) {
                    return Err(RuntimeError::of_kind(ErrorKind::PermissionDenied));
                }
                Ok(self.jobs[i].log.subscribe())
            },
        }
    }

    /// Gives a subscriber of the job `id` what was appended since it last
    /// asked. A refused caller's cursor stays where it is.
    pub fn read_logs(&self, id: JobId, owner: &str, cursor: &mut Cursor) -> (r: Result<
        LogPoll,
        RuntimeError,
    >)
        requires
            self.wf(),
        ensures
            match r {
                Ok(poll) => {
                    &&& refusal(self@, id, owner@) is None
                    &&& poll@ == delivery(
                        self@[id].log,
                        self@[id].closed,
                        old(cursor).position(),
                    )
                    &&& final(cursor).position() == advanced(
                        self@[id].log,
                        old(cursor).position(),
                    )
                },
                Err(e) => {
                    &&& refusal(self@, id, owner@) == Some(e.kind)
                    &&& e@ == failure(e.kind)
                    &&& *final(cursor) == *old(cursor)
                },
            },
    {
        match self.find(id) {
            None => Err(RuntimeError::of_kind(ErrorKind::NotFound)),
            Some(i) => {
                if !same_text(&self.jobs[i].owner, owner) {
                    return Err(RuntimeError::of_kind(ErrorKind::PermissionDenied));
                }
                Ok(self.jobs[i].log.next_chunk(cursor))
            },
        }
    }

    /// Routes a chunk of the child's output into the job's log. It is
    /// accepted if the job exists and its log is open; otherwise nothing
    /// changes.
    pub fn append_output(&mut self, id: JobId, chunk: &[u8]) -> (accepted: bool)
        requires
            old(self).wf(),
        ensures
            final(self).wf(),
            final(self).parent() == old(self).parent(),
            evolves(old(self)@, final(self)@),
            accepted == (old(self)@.contains_key(id) && !old(self)@[id].closed),
            final(self)@ == if accepted {
                old(self)@.insert(
                    id,
                    JobModel { log: old(self)@[id].log + chunk@, ..old(self)@[id] },
                )
            } else {
                old(self)@
            },
    {
        proof {
            lemma_evolves_reflexive(self@);
        }
        match self.find(id) {
            None => false,
            Some(i) => {
                if self.jobs[i].log.closed() {
                    false
                } else {
                    let ghost before = self@;
                    let mut e: JobEntry = self.take(i);
                    let accepted: bool = e.log.append(chunk);
                    proof {
                        assert(e@.log.subrange(0, before[id].log.len() as int) =~= before[id].log);
                        lemma_evolves_insert(before, id, e@);
                        assert(before.remove(id).insert(id, e@) =~= before.insert(id, e@));
                    }
                    self.put(e);
                    accepted
                }
            },
        }
    }

    /// Records that one of the child's output pipes reached its end or
    /// failed. With the second pipe the log is closed; the status stays,
    /// unless the child's exit was waiting for the pipes: then the job ends,
    /// and its cgroup is handed back for removal. For an unknown job, or one
    /// without an open pipe, nothing changes.
    pub fn pipe_closed(&mut self, id: JobId) -> (r: Option<Cgroup>)
        requires
            old(self).wf(),
        ensures
            final(self).wf(),
            final(self).parent() == old(self).parent(),
            evolves(old(self)@, final(self)@),
            final(self)@ == if old(self)@.contains_key(id) {
                old(self)@.insert(id, old(self)@[id].after_pipe_closed())
            } else {
                old(self)@
            },
            r is Some <==> old(self)@.contains_key(id) && old(self)@[id].open_pipes == 1
                && old(self)@[id].exit is Some,
            r is Some ==> old(self)@[id].cgroup == Some(r->Some_0@),
    {
        proof {
            lemma_evolves_reflexive(self@);
        }
        match self.find(id) {
            None => None,
            Some(i) => {
                let ghost before = self@;
                let mut e: JobEntry = self.take(i);
                let mut released: Option<Cgroup> = None;
                if e.open_pipes > 1 {
                    e.open_pipes = e.open_pipes - 1;
                } else if e.open_pipes == 1 {
                    e.open_pipes = 0;
                    e.log.close();
                    if let Some(exit) = e.exit {
                        e.status = JobStatus::from_exit(exit);
                        e.kill_handle = false;
                        e.exit = None;
                        released = e.cgroup;
                        e.cgroup = None;
                    }
                }
                proof {
                    assert(e@ == before[id].after_pipe_closed());
                    assert(e@.log.subrange(0, before[id].log.len() as int) =~= before[id].log);
                    lemma_evolves_insert(before, id, e@);
                    assert(before.remove(id).insert(id, e@) =~= before.insert(id, e@));
                }
                self.put(e);
                released
            },
        }
    }

    /// Records the exit of the child of the job `id`. The kill handle is
    /// dropped. If both pipes are drained the job ends: the status becomes
    /// finished or killed as `exit` says, the log is closed, and the job's
    /// cgroup is handed back for removal. Otherwise the exit waits for the
    /// pipes. For a job that is unknown or not running, or whose exit was
    /// reported before, nothing changes.
    pub fn child_exited(&mut self, id: JobId, exit: ExitStatus) -> (r: Option<Cgroup>)
        requires
            old(self).wf(),
        ensures
            final(self).wf(),
            final(self).parent() == old(self).parent(),
            evolves(old(self)@, final(self)@),
            final(self)@ == if old(self)@.contains_key(id) {
                old(self)@.insert(id, old(self)@[id].after_exit(exit))
            } else {
                old(self)@
            },
            r is Some <==> old(self)@.contains_key(id) && old(self)@[id].status is Running
                && old(self)@[id].exit is None && old(self)@[id].open_pipes == 0,
            r is Some ==> old(self)@[id].cgroup == Some(r->Some_0@),
    {
        proof {
            lemma_evolves_reflexive(self@);
        }
        match self.find(id) {
            None => None,
            Some(i) => {
                let ghost before = self@;
                let mut e: JobEntry = self.take(i);
                let mut released: Option<Cgroup> = None;
                if let JobStatus::Running { .. } = e.status {
                    if e.exit.is_none() {
                        e.kill_handle = false;
                        if e.open_pipes > 0 {
                            e.exit = Some(exit);
                        } else {
                            e.status = JobStatus::from_exit(exit);
                            e.log.close();
                            released = e.cgroup;
                            e.cgroup = None;
                        }
                    }
                }
                proof {
                    assert(e@ == before[id].after_exit(exit));
                    assert(e@.log.subrange(0, before[id].log.len() as int) =~= before[id].log);
                    lemma_evolves_insert(before, id, e@);
                    assert(before.remove(id).insert(id, e@) =~= before.insert(id, e@));
                }
                self.put(e);
                released
            },
        }
    }
}

/// A job ends only when its exit is known and both pipes are drained, in
/// whichever order that comes about; its status is then the one that the
/// exit gives, and its output is complete.
pub proof fn lemma_job_ends_after_exit_and_pipes(m: JobModel, exit: ExitStatus)
    requires
        m.wf(),
        m.status is Running,
        m.exit is None,
        m.open_pipes == 2,
    ensures
        m.after_exit(exit).after_pipe_closed().after_pipe_closed() == m.ended(exit),
        m.after_pipe_closed().after_exit(exit).after_pipe_closed() == m.ended(exit),
        m.after_pipe_closed().after_pipe_closed().after_exit(exit) == m.ended(exit),
        !m.after_exit(exit).status.terminal(),
        !m.after_exit(exit).after_pipe_closed().status.terminal(),
        !m.after_pipe_closed().after_pipe_closed().status.terminal(),
{
}

/// The transitions of an entry keep it well formed and lead forward, and
/// each moves the status along at most one edge of the lifecycle.
pub proof fn lemma_entry_transitions(m: JobModel, exit: ExitStatus, pid: u32)
    requires
        m.wf(),
    ensures
        m.after_exit(exit).wf(),
        m.leads_to(m.after_exit(exit)),
        m.after_pipe_closed().wf(),
        m.leads_to(m.after_pipe_closed()),
        m.status is Pending ==> m.spawned(pid).wf() && m.leads_to(m.spawned(pid)),
        m.status is Pending ==> m.status.steps_to(m.spawned(pid).status),
        m.after_exit(exit).status == m.status || m.status.steps_to(m.after_exit(exit).status),
        m.after_pipe_closed().status == m.status || m.status.steps_to(
            m.after_pipe_closed().status,
        ),
{
    lemma_leads_to_reflexive(m);
}

/// No operation that one owner issues on another owner's job succeeds: a
/// stop, a status request, a subscription and a read are all refused with
/// permission denied, and a refused stop leaves the table as it is.
pub proof fn lemma_foreign_owner_is_denied(
    jobs: Map<JobId, JobModel>,
    id: JobId,
    caller: Seq<char>,
)
    requires
        jobs.contains_key(id),
        jobs[id].owner != caller,
    ensures
        stop_reply(jobs, id, caller) == Err::<StopAction, ErrorKind>(ErrorKind::PermissionDenied),
        after_stop(jobs, id, caller) == jobs,
        refusal(jobs, id, caller) == Some(ErrorKind::PermissionDenied),
{
}

/// A stop that succeeded succeeds again, at once or at any later time, and
/// then asks nothing of the operating system.
pub proof fn lemma_stop_is_idempotent(
    jobs: Map<JobId, JobModel>,
    later: Map<JobId, JobModel>,
    id: JobId,
    owner: Seq<char>,
)
    requires
        jobs.contains_key(id) ==> jobs[id].wf(),
        stop_reply(jobs, id, owner) is Ok,
        evolves(after_stop(jobs, id, owner), later),
    ensures
        stop_reply(after_stop(jobs, id, owner), id, owner) == Ok::<StopAction, ErrorKind>(
            StopAction::Nothing,
        ),
        stop_reply(later, id, owner) == Ok::<StopAction, ErrorKind>(StopAction::Nothing),
        after_stop(later, id, owner) == later,
{
    let mid = after_stop(jobs, id, owner);
    assert(mid.contains_key(id));
    assert(!mid[id].kill_handle);
    assert(!(mid[id].status is Pending));
    assert(later.contains_key(id));
    assert(mid[id].leads_to(later[id]));
}

/// A stop never changes a status.
pub proof fn lemma_stop_keeps_status(
    jobs: Map<JobId, JobModel>,
    id: JobId,
    owner: Seq<char>,
    other: JobId,
)
    requires
        jobs.contains_key(other),
    ensures
        after_stop(jobs, id, owner).contains_key(other),
        after_stop(jobs, id, owner)[other].status == jobs[other].status,
{
}

/// The id of a job that was spawned is never given out again: the job
/// stays in every later table, and a start gives out only an id that the
/// table does not hold.
pub proof fn lemma_started_id_is_never_reused(
    jobs: Map<JobId, JobModel>,
    later: Map<JobId, JobModel>,
    id: JobId,
    fresh: JobId,
)
    requires
        jobs.contains_key(id),
        !(jobs[id].status is Pending),
        evolves(jobs, later),
        !later.contains_key(fresh),
    ensures
        later.contains_key(id),
        fresh != id,
{
}

/// A run of the supervisor: the tables in the order in which they were
/// reached, each evolved from the one before it.
pub open spec fn is_run(run: Seq<Map<JobId, JobModel>>) -> bool {
    forall|k: int| 0 <= k < run.len() - 1 ==> evolves(#[trigger] run[k], run[k + 1])
}

/// The statuses at or after a later time: a job that is gone was pending,
/// and the status of each job that is there has not moved backward.
pub open spec fn statuses_advance(
    before: Map<JobId, JobModel>,
    after: Map<JobId, JobModel>,
) -> bool {
    forall|id: JobId| #[trigger]
        before.contains_key(id) ==> if after.contains_key(id) {
            before[id].status.leads_to(after[id].status)
        } else {
            before[id].status is Pending
        }
}

/// Over a whole run, a job that has left the pending state stays in the
/// table, and its entry at any later time is one that the earlier entry
/// leads to: same owner, status not moved backward, output only grown.
pub proof fn lemma_run_keeps_jobs(run: Seq<Map<JobId, JobModel>>, i: int, j: int, id: JobId)
    requires
        is_run(run),
        0 <= i <= j < run.len(),
        run[i].contains_key(id),
        !(run[i][id].status is Pending),
    ensures
        run[j].contains_key(id),
        run[i][id].leads_to(run[j][id]),
        !(run[j][id].status is Pending),
    decreases j - i,
{
    if i == j {
        lemma_leads_to_reflexive(run[i][id]);
    } else {
        lemma_run_keeps_jobs(run, i, j - 1, id);
        assert(evolves(run[j - 1], run[j]));
        assert(run[j - 1].contains_key(id));
        lemma_leads_to_transitive(run[i][id], run[j - 1][id], run[j][id]);
    }
}

/// Over a whole run, the statuses observed of any id never move backward:
/// they form a prefix of pending, running, terminal.
pub proof fn lemma_run_statuses_advance(run: Seq<Map<JobId, JobModel>>, i: int, j: int)
    requires
        is_run(run),
        0 <= i <= j < run.len(),
    ensures
        statuses_advance(run[i], run[j]),
{
    assert forall|id: JobId| #[trigger] run[i].contains_key(id) implies if run[j].contains_key(
        id,
    ) {
        run[i][id].status.leads_to(run[j][id].status)
    } else {
        run[i][id].status is Pending
    } by {
        if !(run[i][id].status is Pending) {
            lemma_run_keeps_jobs(run, i, j, id);
        }
    }
}

/// Over a whole run, a status that is terminal is the status at every
/// later time, and so is the output.
pub proof fn lemma_run_terminal_is_final(
    run: Seq<Map<JobId, JobModel>>,
    i: int,
    j: int,
    id: JobId,
)
    requires
        is_run(run),
        0 <= i <= j < run.len(),
        run[i].contains_key(id),
        run[i][id].status.terminal(),
        run[i][id].wf(),
    ensures
        run[j].contains_key(id),
        run[j][id].status == run[i][id].status,
        run[j][id].log == run[i][id].log,
{
    lemma_run_keeps_jobs(run, i, j, id);
}

/// Over a whole run, once a stop has succeeded, every later stop of the
/// same job by its owner succeeds and asks nothing of the operating system.
pub proof fn lemma_run_stop_is_idempotent(
    run: Seq<Map<JobId, JobModel>>,
    i: int,
    j: int,
    id: JobId,
    owner: Seq<char>,
)
    requires
        is_run(run),
        0 <= i < j < run.len(),
        run[i].contains_key(id) ==> run[i][id].wf(),
        stop_reply(run[i], id, owner) is Ok,
        run[i + 1] == after_stop(run[i], id, owner),
    ensures
        stop_reply(run[j], id, owner) == Ok::<StopAction, ErrorKind>(StopAction::Nothing),
        after_stop(run[j], id, owner) == run[j],
{
    lemma_run_keeps_jobs(run, i + 1, j, id);
}

/// A stop that another owner tried and was refused leaves the job to its
/// owner: the owner's stop is then answered as if the other had never
/// asked.
pub proof fn lemma_refused_stop_changes_nothing(
    jobs: Map<JobId, JobModel>,
    id: JobId,
    owner: Seq<char>,
    other: Seq<char>,
)
    requires
        jobs.contains_key(id),
        jobs[id].owner == owner,
        other != owner,
    ensures
        after_stop(jobs, id, other) == jobs,
        stop_reply(after_stop(jobs, id, other), id, owner) == stop_reply(jobs, id, owner),
{
}

/// Two stops in a row are answered alike, whatever the state of the job:
/// if the first succeeds so does the second, and if the first is refused
/// the second is refused for the same reason.
pub proof fn lemma_stop_twice_same_reply(jobs: Map<JobId, JobModel>, id: JobId, owner: Seq<char>)
    ensures
        stop_reply(jobs, id, owner) is Ok <==> stop_reply(
            after_stop(jobs, id, owner),
            id,
            owner,
        ) is Ok,
        stop_reply(jobs, id, owner) is Err ==> stop_reply(after_stop(jobs, id, owner), id, owner)
            == stop_reply(jobs, id, owner),
{
}

} // verus!
