//! The normalized job model: job states, job records and the job list
//! with its derived views.

use crate::text;
use vstd::prelude::*;
use vstd::string::StringExecFns;

verus! {

/// The scheduler state of a job.  Unrecognized state text is
/// preserved in `Unknown` rather than rejected.
#[derive(Debug, PartialEq)]
pub enum JobState {
    Pending,
    Running,
    Completed,
    Cancelled,
    Failed,
    Timeout,
    NodeFail,
    Preempted,
    Unknown(String),
}

/// The spec-level value of a `JobState`.
pub enum JobStateV {
    Pending,
    Running,
    Completed,
    Cancelled,
    Failed,
    Timeout,
    NodeFail,
    Preempted,
    Unknown(Seq<char>),
}

impl View for JobState {
    type V = JobStateV;

    open spec fn view(&self) -> JobStateV {
        match self {
            JobState::Pending => JobStateV::Pending,
            JobState::Running => JobStateV::Running,
            JobState::Completed => JobStateV::Completed,
            JobState::Cancelled => JobStateV::Cancelled,
            JobState::Failed => JobStateV::Failed,
            JobState::Timeout => JobStateV::Timeout,
            JobState::NodeFail => JobStateV::NodeFail,
            JobState::Preempted => JobStateV::Preempted,
            JobState::Unknown(s) => JobStateV::Unknown(s@),
        }
    }
}

impl Clone for JobState {
    fn clone(&self) -> (r: Self)
        ensures
            r == *self,
    {
        match self {
            JobState::Pending => JobState::Pending,
            JobState::Running => JobState::Running,
            JobState::Completed => JobState::Completed,
            JobState::Cancelled => JobState::Cancelled,
            JobState::Failed => JobState::Failed,
            JobState::Timeout => JobState::Timeout,
            JobState::NodeFail => JobState::NodeFail,
            JobState::Preempted => JobState::Preempted,
            JobState::Unknown(s) => JobState::Unknown(s.clone()),
        }
    }
}

/// The state a scheduler code denotes.  Codes match the abbreviation
/// or the full name, ignoring ASCII case; any other code maps to
/// `Unknown` with the raw text preserved.
pub open spec fn state_of_code(s: Seq<char>) -> JobStateV {
    if text::eq_ci_spec(s, "PENDING"@) || text::eq_ci_spec(s, "PD"@) {
        JobStateV::Pending
    } else if text::eq_ci_spec(s, "RUNNING"@) || text::eq_ci_spec(s, "R"@) {
        JobStateV::Running
    } else if text::eq_ci_spec(s, "COMPLETED"@) || text::eq_ci_spec(s, "CD"@) || text::eq_ci_spec(
        s,
        "COMPLETING"@,
    ) {
        JobStateV::Completed
    } else if text::eq_ci_spec(s, "CANCELLED"@) || text::eq_ci_spec(s, "CA"@) {
        JobStateV::Cancelled
    } else if text::eq_ci_spec(s, "FAILED"@) || text::eq_ci_spec(s, "F"@) {
        JobStateV::Failed
    } else if text::eq_ci_spec(s, "TIMEOUT"@) || text::eq_ci_spec(s, "TO"@) {
        JobStateV::Timeout
    } else if text::eq_ci_spec(s, "NODE_FAIL"@) || text::eq_ci_spec(s, "NF"@) {
        JobStateV::NodeFail
    } else if text::eq_ci_spec(s, "PREEMPTED"@) || text::eq_ci_spec(s, "PR"@) {
        JobStateV::Preempted
    } else {
        JobStateV::Unknown(s)
    }
}

/// The abbreviation code a state renders as; an unknown state renders
/// as its preserved raw text.
pub open spec fn state_code_spec(v: JobStateV) -> Seq<char> {
    match v {
        JobStateV::Pending => "PD"@,
        JobStateV::Running => "R"@,
        JobStateV::Completed => "CD"@,
        JobStateV::Cancelled => "CA"@,
        JobStateV::Failed => "F"@,
        JobStateV::Timeout => "TO"@,
        JobStateV::NodeFail => "NF"@,
        JobStateV::Preempted => "PR"@,
        JobStateV::Unknown(s) => s,
    }
}

impl JobState {
    /// The state denoted by a scheduler code such as `"PD"` or
    /// `"PENDING"`.
    pub fn from_code(code: &str) -> (r: JobState)
        ensures
            r@ == state_of_code(code@),
    {
        let v = text::str_chars(code);
        if text::chars_eq_ci(&v, "PENDING") || text::chars_eq_ci(&v, "PD") {
            JobState::Pending
        } else if text::chars_eq_ci(&v, "RUNNING") || text::chars_eq_ci(&v, "R") {
            JobState::Running
        } else if text::chars_eq_ci(&v, "COMPLETED") || text::chars_eq_ci(&v, "CD")
            || text::chars_eq_ci(&v, "COMPLETING") {
            JobState::Completed
        } else if text::chars_eq_ci(&v, "CANCELLED") || text::chars_eq_ci(&v, "CA") {
            JobState::Cancelled
        } else if text::chars_eq_ci(&v, "FAILED") || text::chars_eq_ci(&v, "F") {
            JobState::Failed
        } else if text::chars_eq_ci(&v, "TIMEOUT") || text::chars_eq_ci(&v, "TO") {
            JobState::Timeout
        } else if text::chars_eq_ci(&v, "NODE_FAIL") || text::chars_eq_ci(&v, "NF") {
            JobState::NodeFail
        } else if text::chars_eq_ci(&v, "PREEMPTED") || text::chars_eq_ci(&v, "PR") {
            JobState::Preempted
        } else {
            JobState::Unknown(code.to_owned())
        }
    }

    /// The abbreviation code of this state.
    pub fn code(&self) -> (r: String)
        ensures
            r@ == state_code_spec(self@),
    {
        match self {
            JobState::Pending => String::from_str("PD"),
            JobState::Running => String::from_str("R"),
            JobState::Completed => String::from_str("CD"),
            JobState::Cancelled => String::from_str("CA"),
            JobState::Failed => String::from_str("F"),
            JobState::Timeout => String::from_str("TO"),
            JobState::NodeFail => String::from_str("NF"),
            JobState::Preempted => String::from_str("PR"),
            JobState::Unknown(s) => s.clone(),
        }
    }
}

/// One scheduled unit of work.  Timestamps are seconds since the Unix
/// epoch, UTC.
#[derive(Debug)]
pub struct Job {
    pub job_id: String,
    pub array_job_id: Option<String>,
    pub array_task_id: Option<u32>,
    pub name: String,
    pub user: String,
    pub partition: String,
    pub state: JobState,
    pub time_limit: Option<String>,
    pub time_used: Option<String>,
    pub submit_time: Option<i64>,
    pub start_time: Option<i64>,
    pub end_time: Option<i64>,
    pub nodes: Option<u32>,
    pub node_list: Option<String>,
    pub cpus: Option<u32>,
    pub memory: Option<String>,
    pub working_dir: Option<String>,
    pub std_out: Option<String>,
    pub std_err: Option<String>,
    pub exit_code: Option<i32>,
    pub reason: Option<String>,
}

/// The spec-level value of a `Job`.
#[verifier::ext_equal]
pub struct JobV {
    pub job_id: Seq<char>,
    pub array_job_id: Option<Seq<char>>,
    pub array_task_id: Option<u32>,
    pub name: Seq<char>,
    pub user: Seq<char>,
    pub partition: Seq<char>,
    pub state: JobStateV,
    pub time_limit: Option<Seq<char>>,
    pub time_used: Option<Seq<char>>,
    pub submit_time: Option<i64>,
    pub start_time: Option<i64>,
    pub end_time: Option<i64>,
    pub nodes: Option<u32>,
    pub node_list: Option<Seq<char>>,
    pub cpus: Option<u32>,
    pub memory: Option<Seq<char>>,
    pub working_dir: Option<Seq<char>>,
    pub std_out: Option<Seq<char>>,
    pub std_err: Option<Seq<char>>,
    pub exit_code: Option<i32>,
    pub reason: Option<Seq<char>>,
}

/// The view of an optional string.
pub open spec fn opt_str_view(o: Option<String>) -> Option<Seq<char>> {
    match o {
        Some(s) => Some(s@),
        None => None,
    }
}

impl View for Job {
    type V = JobV;

    open spec fn view(&self) -> JobV {
        JobV {
            job_id: self.job_id@,
            array_job_id: opt_str_view(self.array_job_id),
            array_task_id: self.array_task_id,
            name: self.name@,
            user: self.user@,
            partition: self.partition@,
            state: self.state@,
            time_limit: opt_str_view(self.time_limit),
            time_used: opt_str_view(self.time_used),
            submit_time: self.submit_time,
            start_time: self.start_time,
            end_time: self.end_time,
            nodes: self.nodes,
            node_list: opt_str_view(self.node_list),
            cpus: self.cpus,
            memory: opt_str_view(self.memory),
            working_dir: opt_str_view(self.working_dir),
            std_out: opt_str_view(self.std_out),
            std_err: opt_str_view(self.std_err),
            exit_code: self.exit_code,
            reason: opt_str_view(self.reason),
        }
    }
}

impl DeepView for Job {
    type V = JobV;

    open spec fn deep_view(&self) -> JobV {
        self.view()
    }
}

fn clone_opt_string(o: &Option<String>) -> (r: Option<String>)
    ensures
        r == *o,
{
    match o {
        Some(s) => Some(s.clone()),
        None => None,
    }
}

impl Clone for Job {
    fn clone(&self) -> (r: Self)
        ensures
            r == *self,
    {
        Job {
            job_id: self.job_id.clone(),
            array_job_id: clone_opt_string(&self.array_job_id),
            array_task_id: self.array_task_id,
            name: self.name.clone(),
            user: self.user.clone(),
            partition: self.partition.clone(),
            state: self.state.clone(),
            time_limit: clone_opt_string(&self.time_limit),
            time_used: clone_opt_string(&self.time_used),
            submit_time: self.submit_time,
            start_time: self.start_time,
            end_time: self.end_time,
            nodes: self.nodes,
            node_list: clone_opt_string(&self.node_list),
            cpus: self.cpus,
            memory: clone_opt_string(&self.memory),
            working_dir: clone_opt_string(&self.working_dir),
            std_out: clone_opt_string(&self.std_out),
            std_err: clone_opt_string(&self.std_err),
            exit_code: self.exit_code,
            reason: clone_opt_string(&self.reason),
        }
    }
}

/// The identity a job displays: `"{array}_{task}"` when both array
/// fields are present, the raw job id otherwise.
pub open spec fn display_id_spec(j: JobV) -> Seq<char> {
    match (j.array_job_id, j.array_task_id) {
        (Some(a), Some(t)) => a + seq!['_'] + text::dec_str(t as nat),
        _ => j.job_id,
    }
}

pub open spec fn spec_is_running(j: JobV) -> bool {
    j.state is Running
}

pub open spec fn spec_is_pending(j: JobV) -> bool {
    j.state is Pending
}

pub open spec fn spec_is_completed(j: JobV) -> bool {
    j.state is Completed || j.state is Failed || j.state is Cancelled || j.state is Timeout
}

/// The difference `a - b`, or `None` when it does not fit in `i64`.
pub open spec fn i64_diff(a: i64, b: i64) -> Option<i64> {
    if i64::MIN <= a - b <= i64::MAX {
        Some((a - b) as i64)
    } else {
        None
    }
}

/// How long a job has run: `end - start` when both times are known, a
/// `now - start` estimate when only the start is known, nothing
/// otherwise.  A difference that does not fit in `i64` yields `None`.
pub open spec fn duration_spec(j: JobV, now_s: i64) -> Option<i64> {
    match (j.start_time, j.end_time) {
        (Some(s), Some(e)) => i64_diff(e, s),
        (Some(s), None) => i64_diff(now_s, s),
        _ => None,
    }
}

fn checked_diff_i64(a: i64, b: i64) -> (r: Option<i64>)
    ensures
        r == i64_diff(a, b),
{
    let d: i128 = (a as i128) - (b as i128);
    if d >= -0x8000_0000_0000_0000i128 && d <= 0x7FFF_FFFF_FFFF_FFFFi128 {
        Some(d as i64)
    } else {
        None
    }
}

impl Job {
    /// A job with the given identity and state; every other attribute
    /// starts absent, with an empty partition.
    pub fn new(job_id: String, name: String, user: String, state: JobState) -> (r: Self)
        ensures
            r.job_id == job_id,
            r.name == name,
            r.user == user,
            r.state == state,
            r.partition@ == Seq::<char>::empty(),
            r.array_job_id is None,
            r.array_task_id is None,
            r.time_limit is None,
            r.time_used is None,
            r.submit_time is None,
            r.start_time is None,
            r.end_time is None,
            r.nodes is None,
            r.node_list is None,
            r.cpus is None,
            r.memory is None,
            r.working_dir is None,
            r.std_out is None,
            r.std_err is None,
            r.exit_code is None,
            r.reason is None,
    {
        Job {
            job_id,
            array_job_id: None,
            array_task_id: None,
            name,
            user,
            partition: String::new(),
            state,
            time_limit: None,
            time_used: None,
            submit_time: None,
            start_time: None,
            end_time: None,
            nodes: None,
            node_list: None,
            cpus: None,
            memory: None,
            working_dir: None,
            std_out: None,
            std_err: None,
            exit_code: None,
            reason: None,
        }
    }

    /// Whether the job id encoded an array job.
    pub fn is_array_job(&self) -> (r: bool)
        ensures
            r == (self@.array_job_id is Some),
    {
        self.array_job_id.is_some()
    }

    /// The identity the job displays.
    pub fn display_id(&self) -> (r: String)
        ensures
            r@ == display_id_spec(self@),
    {
        match (&self.array_job_id, &self.array_task_id) {
            (Some(aid), Some(task)) => {
                let mut r = aid.clone();
                r.push('_');
                let ts = text::u32_to_string(*task);
                r.append(ts.as_str());
                proof {
                    assert(aid@.push('_') =~= aid@ + seq!['_']);
                }
                r
            },
            _ => self.job_id.clone(),
        }
    }

    pub fn is_running(&self) -> (r: bool)
        ensures
            r == spec_is_running(self@),
    {
        matches!(self.state, JobState::Running)
    }

    pub fn is_completed(&self) -> (r: bool)
        ensures
            r == spec_is_completed(self@),
    {
        matches!(
            self.state,
            JobState::Completed | JobState::Failed | JobState::Cancelled | JobState::Timeout
        )
    }

    /// How long the job has run, against the given current time.
    pub fn duration(&self, now_s: i64) -> (r: Option<i64>)
        ensures
            r == duration_spec(self@, now_s),
    {
        match (&self.start_time, &self.end_time) {
            (Some(start), Some(end)) => checked_diff_i64(*end, *start),
            (Some(start), None) => checked_diff_i64(now_s, *start),
            _ => None,
        }
    }
}

/// The current job snapshot plus the time it was installed,
/// milliseconds since the Unix epoch.
#[derive(Debug)]
pub struct JobList {
    pub jobs: Vec<Job>,
    pub last_updated_ms: i64,
}

/// The spec-level value of a `JobList`.
#[verifier::ext_equal]
pub struct JobListV {
    pub jobs: Seq<JobV>,
    pub last_updated_ms: int,
}

impl View for JobList {
    type V = JobListV;

    open spec fn view(&self) -> JobListV {
        JobListV { jobs: self.jobs.deep_view(), last_updated_ms: self.last_updated_ms as int }
    }
}

impl Clone for JobList {
    fn clone(&self) -> (r: Self)
        ensures
            r@ == self@,
    {
        let mut jobs: Vec<Job> = Vec::new();
        let mut k: usize = 0;
        while k < self.jobs.len()
            invariant
                k <= self.jobs.len(),
                jobs@.len() == k as int,
                jobs.deep_view() =~~= self.jobs.deep_view().take(k as int),
            decreases self.jobs.len() - k,
        {
            let j = self.jobs[k].clone();
            proof {
                assert(j == self.jobs@[k as int]);
            }
            jobs.push(j);
            proof {
                assert(jobs@[k as int] == self.jobs@[k as int]);
                assert(jobs.deep_view() =~~= self.jobs.deep_view().take(k as int + 1));
            }
            k += 1;
        }
        proof {
            assert(self.jobs.deep_view().take(self.jobs.len() as int) =~~= self.jobs.deep_view());
        }
        JobList { jobs, last_updated_ms: self.last_updated_ms }
    }
}

impl JobList {
    /// An empty snapshot stamped with the given time.
    pub fn new(now_ms: i64) -> (r: Self)
        ensures
            r@.jobs == Seq::<JobV>::empty(),
            r@.last_updated_ms == now_ms as int,
    {
        let r = JobList { jobs: Vec::new(), last_updated_ms: now_ms };
        proof {
            assert(r@.jobs =~~= Seq::<JobV>::empty());
        }
        r
    }

    /// Replaces the snapshot in one step and stamps it with the given
    /// time.
    pub fn update(&mut self, jobs: Vec<Job>, now_ms: i64)
        ensures
            final(self)@.jobs == jobs.deep_view(),
            final(self)@.last_updated_ms == now_ms as int,
    {
        self.jobs = jobs;
        self.last_updated_ms = now_ms;
    }

    /// The jobs currently running, in snapshot order.
    pub fn running_jobs(&self) -> (r: Vec<Job>)
        ensures
            r.deep_view() == self@.jobs.filter(|j: JobV| spec_is_running(j)),
    {
        let mut r: Vec<Job> = Vec::new();
        let mut k: usize = 0;
        while k < self.jobs.len()
            invariant
                k <= self.jobs.len(),
                r.deep_view() =~~= self.jobs.deep_view().take(k as int).filter(
                    |j: JobV| spec_is_running(j),
                ),
            decreases self.jobs.len() - k,
        {
            proof {
                assert(self.jobs.deep_view().take(k as int + 1).drop_last()
                    =~~= self.jobs.deep_view().take(k as int));
                reveal_with_fuel(Seq::filter, 2);
            }
            if self.jobs[k].is_running() {
                r.push(self.jobs[k].clone());
            }
            k += 1;
        }
        proof {
            assert(self.jobs.deep_view().take(self.jobs.len() as int) =~~= self.jobs.deep_view());
        }
        r
    }

    /// The jobs currently pending, in snapshot order.
    pub fn pending_jobs(&self) -> (r: Vec<Job>)
        ensures
            r.deep_view() == self@.jobs.filter(|j: JobV| spec_is_pending(j)),
    {
        let mut r: Vec<Job> = Vec::new();
        let mut k: usize = 0;
        while k < self.jobs.len()
            invariant
                k <= self.jobs.len(),
                r.deep_view() =~~= self.jobs.deep_view().take(k as int).filter(
                    |j: JobV| spec_is_pending(j),
                ),
            decreases self.jobs.len() - k,
        {
            proof {
                assert(self.jobs.deep_view().take(k as int + 1).drop_last()
                    =~~= self.jobs.deep_view().take(k as int));
                reveal_with_fuel(Seq::filter, 2);
            }
            if matches!(self.jobs[k].state, JobState::Pending) {
                r.push(self.jobs[k].clone());
            }
            k += 1;
        }
        proof {
            assert(self.jobs.deep_view().take(self.jobs.len() as int) =~~= self.jobs.deep_view());
        }
        r
    }

    /// The jobs that have finished, in snapshot order.
    pub fn completed_jobs(&self) -> (r: Vec<Job>)
        ensures
            r.deep_view() == self@.jobs.filter(|j: JobV| spec_is_completed(j)),
    {
        let mut r: Vec<Job> = Vec::new();
        let mut k: usize = 0;
        while k < self.jobs.len()
            invariant
                k <= self.jobs.len(),
                r.deep_view() =~~= self.jobs.deep_view().take(k as int).filter(
                    |j: JobV| spec_is_completed(j),
                ),
            decreases self.jobs.len() - k,
        {
            proof {
                assert(self.jobs.deep_view().take(k as int + 1).drop_last()
                    =~~= self.jobs.deep_view().take(k as int));
                reveal_with_fuel(Seq::filter, 2);
            }
            if self.jobs[k].is_completed() {
                r.push(self.jobs[k].clone());
            }
            k += 1;
        }
        proof {
            assert(self.jobs.deep_view().take(self.jobs.len() as int) =~~= self.jobs.deep_view());
        }
        r
    }
}

} // verus!
