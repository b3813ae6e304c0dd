use lazyslurm::job::{Job, JobList, JobState};

fn mk(id: &str, state: JobState) -> Job {
    Job::new(id.to_string(), "n".to_string(), "u".to_string(), state)
}

#[test]
fn new_job_defaults() {
    let j = mk("1", JobState::Pending);
    assert_eq!(j.job_id, "1");
    assert_eq!(j.partition, "");
    assert!(j.array_job_id.is_none());
    assert!(j.submit_time.is_none());
    assert!(j.exit_code.is_none());
}

#[test]
fn display_id_uses_array_fields_when_both_present() {
    let mut j = mk("100_7", JobState::Running);
    j.array_job_id = Some("100".to_string());
    j.array_task_id = Some(7);
    assert_eq!(j.display_id(), "100_7");
    assert!(j.is_array_job());
}

#[test]
fn display_id_falls_back_to_raw_id() {
    let j = mk("100_7", JobState::Running);
    assert_eq!(j.display_id(), "100_7");
    let j2 = mk("4242", JobState::Running);
    assert_eq!(j2.display_id(), "4242");
}

#[test]
fn state_predicates() {
    assert!(mk("1", JobState::Running).is_running());
    assert!(!mk("1", JobState::Pending).is_running());
    assert!(mk("1", JobState::Completed).is_completed());
    assert!(mk("1", JobState::Failed).is_completed());
    assert!(mk("1", JobState::Cancelled).is_completed());
    assert!(mk("1", JobState::Timeout).is_completed());
    assert!(!mk("1", JobState::Running).is_completed());
    assert!(!mk("1", JobState::NodeFail).is_completed());
}

#[test]
fn duration_uses_end_when_known() {
    let mut j = mk("1", JobState::Completed);
    j.start_time = Some(100);
    j.end_time = Some(250);
    assert_eq!(j.duration(1000), Some(150));
}

#[test]
fn duration_estimates_from_now_when_running() {
    let mut j = mk("1", JobState::Running);
    j.start_time = Some(100);
    assert_eq!(j.duration(1000), Some(900));
}

#[test]
fn duration_unknown_without_start() {
    let j = mk("1", JobState::Pending);
    assert!(j.duration(1000).is_none());
}

#[test]
fn job_list_update_replaces_snapshot_and_stamps_it() {
    let mut l = JobList::new(5);
    assert_eq!(l.last_updated_ms, 5);
    assert!(l.jobs.is_empty());
    l.update(vec![mk("1", JobState::Running)], 99);
    assert_eq!(l.last_updated_ms, 99);
    assert_eq!(l.jobs.len(), 1);
}

#[test]
fn job_list_filters_by_state() {
    let mut l = JobList::new(0);
    l.update(
        vec![
            mk("1", JobState::Running),
            mk("2", JobState::Pending),
            mk("3", JobState::Completed),
            mk("4", JobState::Running),
            mk("5", JobState::Failed),
            mk("6", JobState::Unknown("??".to_string())),
        ],
        0,
    );
    let running = l.running_jobs();
    assert_eq!(running.len(), 2);
    assert_eq!(running[0].job_id, "1");
    assert_eq!(running[1].job_id, "4");
    let pending = l.pending_jobs();
    assert_eq!(pending.len(), 1);
    assert_eq!(pending[0].job_id, "2");
    let completed = l.completed_jobs();
    assert_eq!(completed.len(), 2);
    assert_eq!(completed[0].job_id, "3");
    assert_eq!(completed[1].job_id, "5");
}

#[test]
fn job_clone_preserves_fields() {
    let mut j = mk("9", JobState::Running);
    j.working_dir = Some("/w".to_string());
    j.nodes = Some(3);
    let c = j.clone();
    assert_eq!(c.job_id, j.job_id);
    assert_eq!(c.working_dir, j.working_dir);
    assert_eq!(c.nodes, j.nodes);
    assert_eq!(c.state, j.state);
}
