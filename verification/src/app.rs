//! The application state: the current job snapshot, the selection,
//! the active filters, the interaction mode and the refresh
//! bookkeeping.  All clock readings reach this module as plain
//! millisecond values.

use crate::job::{Job, JobList, JobV};
use vstd::prelude::*;

verus! {

/// The interaction mode: browsing, one of the two text-input popups,
/// or the cancel confirmation popup.
#[derive(Debug, Clone, Copy, PartialEq, Eq, Structural)]
pub enum AppState {
    Normal,
    UserSearchPopup,
    PartitionSearchPopup,
    CancelJobPopup,
}

/// An application-level event, as carried between the event loop's
/// tasks.
#[derive(Debug, Clone)]
pub enum AppEvent {
    Refresh,
    JobSelected(String),
    Quit,
}

/// How long a snapshot stays fresh before the loop refreshes it.
pub const REFRESH_INTERVAL_MS: i64 = 2000;

/// How many jobs of a fresh listing are enriched with a detail
/// query; jobs beyond the cap keep their listing-derived fields.
pub const DETAIL_FETCH_CAP: usize = 10;

/// The spec-level value of an `App`.
#[verifier::ext_equal]
pub struct AppV {
    pub jobs: Seq<JobV>,
    pub last_updated_ms: int,
    pub selected_index: int,
    pub selected_job: Option<JobV>,
    pub user: Option<Seq<char>>,
    pub partition: Option<Seq<char>>,
    pub state: AppState,
    pub input: Seq<char>,
    pub confirm: bool,
    pub last_refresh_ms: int,
    pub interval_ms: int,
    pub loading: bool,
    pub error: Option<Seq<char>>,
}

/// The interactive application state.
#[derive(Debug)]
pub struct App {
    pub job_list: JobList,
    pub selected_job_index: usize,
    pub selected_job: Option<Job>,
    pub current_user: Option<String>,
    pub current_partition: Option<String>,
    pub state: AppState,
    pub input: String,
    pub confirm_action: bool,
    pub last_refresh_ms: i64,
    pub refresh_interval_ms: i64,
    pub is_loading: bool,
    pub error_message: Option<String>,
}

impl View for App {
    type V = AppV;

    open spec fn view(&self) -> AppV {
        AppV {
            jobs: self.job_list@.jobs,
            last_updated_ms: self.job_list@.last_updated_ms,
            selected_index: self.selected_job_index as int,
            selected_job: match self.selected_job {
                Some(j) => Some(j@),
                None => None,
            },
            user: crate::job::opt_str_view(self.current_user),
            partition: crate::job::opt_str_view(self.current_partition),
            state: self.state,
            input: self.input@,
            confirm: self.confirm_action,
            last_refresh_ms: self.last_refresh_ms as int,
            interval_ms: self.refresh_interval_ms as int,
            loading: self.is_loading,
            error: crate::job::opt_str_view(self.error_message),
        }
    }
}

/// The job standing at an index, when the index is in range.
pub open spec fn spec_job_at(jobs: Seq<JobV>, i: int) -> Option<JobV> {
    if 0 <= i < jobs.len() {
        Some(jobs[i])
    } else {
        None
    }
}

/// The state's internal consistency: the selection is clamped to the
/// snapshot (`0` and empty when there are no jobs), the cached
/// selected job is the one at the selection, and the clock
/// bookkeeping is non-negative.
pub open spec fn wf(a: AppV) -> bool {
    &&& (if a.jobs.len() == 0 {
        a.selected_index == 0 && a.selected_job is None
    } else {
        0 <= a.selected_index < a.jobs.len() && a.selected_job == Some(a.jobs[a.selected_index])
    })
    &&& 0 <= a.last_refresh_ms
    &&& 0 <= a.interval_ms
}

/// Whether the snapshot has gone stale at the given time.
pub open spec fn spec_should_refresh(a: AppV, now_ms: int) -> bool {
    now_ms - a.last_refresh_ms >= a.interval_ms
}

/// Moving the selection up by one, stopping at the first job.
pub open spec fn spec_select_previous(a: AppV) -> AppV {
    if a.selected_index > 0 {
        let i = a.selected_index - 1;
        AppV { selected_index: i, selected_job: spec_job_at(a.jobs, i), ..a }
    } else {
        a
    }
}

/// Moving the selection down by one, stopping at the last job.
pub open spec fn spec_select_next(a: AppV) -> AppV {
    if a.jobs.len() > 0 && a.selected_index < a.jobs.len() - 1 {
        let i = a.selected_index + 1;
        AppV { selected_index: i, selected_job: spec_job_at(a.jobs, i), ..a }
    } else {
        a
    }
}

/// A refresh being issued: the loading flag rises and a previous
/// error message is cleared.
pub open spec fn spec_begin_refresh(a: AppV) -> AppV {
    AppV { loading: true, error: None, ..a }
}

/// A refresh that came back with a fresh listing: the snapshot is
/// swapped atomically and stamped, the selection is clamped to the
/// new length, and the staleness clock restarts.
pub open spec fn spec_refresh_success(a: AppV, jobs: Seq<JobV>, now_ms: int) -> AppV {
    let i = if jobs.len() == 0 {
        0
    } else if a.selected_index > jobs.len() - 1 {
        jobs.len() - 1
    } else {
        a.selected_index
    };
    AppV {
        jobs: jobs,
        last_updated_ms: now_ms,
        selected_index: i,
        selected_job: spec_job_at(jobs, i),
        last_refresh_ms: now_ms,
        loading: false,
        error: None,
        ..a
    }
}

/// A refresh that failed: the previous snapshot and its stamp stay
/// untouched and the failure becomes the visible error message.
pub open spec fn spec_refresh_failure(a: AppV, message: Seq<char>) -> AppV {
    AppV { loading: false, error: Some(message), ..a }
}

impl App {
    /// A fresh application state: empty snapshot, browsing mode, no
    /// filters, stamped with the given time.
    pub fn new(now_ms: i64) -> (r: Self)
        requires
            now_ms >= 0,
        ensures
            r@ == (AppV {
                jobs: Seq::<JobV>::empty(),
                last_updated_ms: now_ms as int,
                selected_index: 0,
                selected_job: None,
                user: None,
                partition: None,
                state: AppState::Normal,
                input: Seq::<char>::empty(),
                confirm: false,
                last_refresh_ms: now_ms as int,
                interval_ms: REFRESH_INTERVAL_MS as int,
                loading: false,
                error: None,
            }),
            wf(r@),
    {
        let r = App {
            job_list: JobList::new(now_ms),
            selected_job_index: 0,
            selected_job: None,
            current_user: None,
            current_partition: None,
            state: AppState::Normal,
            input: String::new(),
            confirm_action: false,
            last_refresh_ms: now_ms,
            refresh_interval_ms: REFRESH_INTERVAL_MS,
            is_loading: false,
            error_message: None,
        };
        proof {
            assert(r@ =~~= (AppV {
                jobs: Seq::<JobV>::empty(),
                last_updated_ms: now_ms as int,
                selected_index: 0,
                selected_job: None,
                user: None,
                partition: None,
                state: AppState::Normal,
                input: Seq::<char>::empty(),
                confirm: false,
                last_refresh_ms: now_ms as int,
                interval_ms: REFRESH_INTERVAL_MS as int,
                loading: false,
                error: None,
            }));
        }
        r
    }

    /// Whether the snapshot has gone stale at the given time; the
    /// automatic trigger for a background refresh.
    pub fn should_refresh(&self, now_ms: i64) -> (r: bool)
        ensures
            r == spec_should_refresh(self@, now_ms as int),
    {
        (now_ms as i128) - (self.last_refresh_ms as i128) >= (self.refresh_interval_ms as i128)
    }

    fn update_selected_job(&mut self)
        ensures
            final(self)@ == (AppV {
                selected_job: spec_job_at(old(self)@.jobs, old(self)@.selected_index),
                ..old(self)@
            }),
    {
        if self.selected_job_index < self.job_list.jobs.len() {
            self.selected_job = Some(self.job_list.jobs[self.selected_job_index].clone());
        } else {
            self.selected_job = None;
        }
        proof {
            assert(final(self)@ =~~= (AppV {
                selected_job: spec_job_at(old(self)@.jobs, old(self)@.selected_index),
                ..old(self)@
            }));
        }
    }

    /// Moves the selection down by one, never past the last job.
    pub fn select_next_job(&mut self)
        ensures
            final(self)@ == spec_select_next(old(self)@),
    {
        if self.job_list.jobs.len() > 0 && self.selected_job_index < self.job_list.jobs.len() - 1 {
            self.selected_job_index += 1;
            self.update_selected_job();
        }
        proof {
            assert(final(self)@ =~~= spec_select_next(old(self)@));
        }
    }

    /// Moves the selection up by one, never before the first job.
    pub fn select_previous_job(&mut self)
        ensures
            final(self)@ == spec_select_previous(old(self)@),
    {
        if self.selected_job_index > 0 {
            self.selected_job_index -= 1;
            self.update_selected_job();
        }
        proof {
            assert(final(self)@ =~~= spec_select_previous(old(self)@));
        }
    }

    /// The cached selected job.
    pub fn get_selected_job(&self) -> (r: Option<&Job>)
        ensures
            r is Some <==> self@.selected_job is Some,
            r is Some ==> r.unwrap()@ == self@.selected_job.unwrap(),
    {
        self.selected_job.as_ref()
    }

    /// Marks a refresh as issued: raises the loading flag and clears
    /// a previous error message.
    pub fn begin_refresh(&mut self)
        ensures
            final(self)@ == spec_begin_refresh(old(self)@),
    {
        self.is_loading = true;
        self.error_message = None;
        proof {
            assert(final(self)@ =~~= spec_begin_refresh(old(self)@));
        }
    }

    /// Installs a fresh listing: swaps the snapshot atomically,
    /// stamps it, clamps the selection and restarts the staleness
    /// clock.
    pub fn finish_refresh_success(&mut self, jobs: Vec<Job>, now_ms: i64)
        requires
            now_ms >= 0,
        ensures
            final(self)@ == spec_refresh_success(old(self)@, jobs.deep_view(), now_ms as int),
            old(self)@.interval_ms >= 0 ==> wf(final(self)@),
    {
        let n = jobs.len();
        self.job_list.update(jobs, now_ms);
        if n == 0 {
            self.selected_job_index = 0;
        } else if self.selected_job_index > n - 1 {
            self.selected_job_index = n - 1;
        }
        self.update_selected_job();
        self.last_refresh_ms = now_ms;
        self.is_loading = false;
        self.error_message = None;
        proof {
            assert(final(self)@ =~~= spec_refresh_success(
                old(self)@,
                jobs.deep_view(),
                now_ms as int,
            ));
        }
    }

    /// Records a failed refresh: the previous snapshot and its stamp
    /// stay untouched and the message becomes visible.
    pub fn finish_refresh_failure(&mut self, message: String)
        ensures
            final(self)@ == spec_refresh_failure(old(self)@, message@),
    {
        self.error_message = Some(message);
        self.is_loading = false;
        proof {
            assert(final(self)@ =~~= spec_refresh_failure(old(self)@, message@));
        }
    }

    /// The jobs currently running, in snapshot order.
    pub fn running_jobs(&self) -> (r: Vec<Job>)
        ensures
            r.deep_view() == self@.jobs.filter(|j: JobV| crate::job::spec_is_running(j)),
    {
        self.job_list.running_jobs()
    }

    /// The jobs currently pending, in snapshot order.
    pub fn pending_jobs(&self) -> (r: Vec<Job>)
        ensures
            r.deep_view() == self@.jobs.filter(|j: JobV| crate::job::spec_is_pending(j)),
    {
        self.job_list.pending_jobs()
    }

    /// The jobs that have finished, in snapshot order.
    pub fn completed_jobs(&self) -> (r: Vec<Job>)
        ensures
            r.deep_view() == self@.jobs.filter(|j: JobV| crate::job::spec_is_completed(j)),
    {
        self.job_list.completed_jobs()
    }
}

/// Staleness never un-expires: once the interval has elapsed without
/// a refresh, more elapsed time keeps the trigger raised.
pub proof fn lemma_should_refresh_monotonic(a: AppV, t1: int, t2: int)
    requires
        t1 <= t2,
        spec_should_refresh(a, t1),
    ensures
        spec_should_refresh(a, t2),
{
}

/// Immediately after a successful refresh the trigger is down, and it
/// stays down exactly until the interval has elapsed.
pub proof fn lemma_refresh_resets_staleness(a: AppV, jobs: Seq<JobV>, now_ms: int, t: int)
    requires
        a.interval_ms > 0,
    ensures
        !spec_should_refresh(spec_refresh_success(a, jobs, now_ms), now_ms),
        spec_should_refresh(spec_refresh_success(a, jobs, now_ms), t) <==> t - now_ms
            >= a.interval_ms,
{
}

/// A failed refresh leaves the prior snapshot and its stamp untouched
/// and records the message; a subsequent successful refresh clears
/// the message and stamps the new snapshot.
pub proof fn lemma_failed_then_successful_refresh(
    a: AppV,
    message: Seq<char>,
    jobs: Seq<JobV>,
    now_ms: int,
)
    ensures
        spec_refresh_failure(a, message).jobs == a.jobs,
        spec_refresh_failure(a, message).last_updated_ms == a.last_updated_ms,
        spec_refresh_failure(a, message).error == Some(message),
        spec_refresh_success(spec_refresh_failure(a, message), jobs, now_ms).error is None,
        spec_refresh_success(spec_refresh_failure(a, message), jobs, now_ms).last_updated_ms
            == now_ms,
        spec_refresh_success(spec_refresh_failure(a, message), jobs, now_ms).jobs == jobs,
{
}

} // verus!
