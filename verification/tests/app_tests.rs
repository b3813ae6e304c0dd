use lazyslurm::app::{App, AppState};
use lazyslurm::events::{handle_key_event, handle_text_event, Key, KeyAction};
use lazyslurm::job::{Job, JobState};

fn mk(id: &str) -> Job {
    Job::new(id.to_string(), "n".to_string(), "u".to_string(), JobState::Running)
}

fn app_with_jobs(n: usize) -> App {
    let mut app = App::new(0);
    let mut jobs = Vec::new();
    for i in 0..n {
        jobs.push(mk(&format!("{}", i)));
    }
    app.finish_refresh_success(jobs, 0);
    app
}

#[test]
fn new_app_defaults() {
    let app = App::new(7);
    assert_eq!(app.state, AppState::Normal);
    assert_eq!(app.selected_job_index, 0);
    assert!(app.selected_job.is_none());
    assert!(app.current_user.is_none());
    assert!(app.current_partition.is_none());
    assert!(!app.is_loading);
    assert!(app.error_message.is_none());
    assert_eq!(app.last_refresh_ms, 7);
    assert_eq!(app.job_list.last_updated_ms, 7);
}

#[test]
fn selection_never_runs_past_the_last_job() {
    let mut app = app_with_jobs(3);
    for _ in 0..5 {
        app.select_next_job();
    }
    assert_eq!(app.selected_job_index, 2);
    assert_eq!(app.get_selected_job().unwrap().job_id, "2");
    for _ in 0..5 {
        app.select_previous_job();
    }
    assert_eq!(app.selected_job_index, 0);
    assert_eq!(app.get_selected_job().unwrap().job_id, "0");
}

#[test]
fn selection_stays_zero_on_empty_list() {
    let mut app = app_with_jobs(0);
    app.select_next_job();
    app.select_next_job();
    assert_eq!(app.selected_job_index, 0);
    assert!(app.get_selected_job().is_none());
    app.select_previous_job();
    assert_eq!(app.selected_job_index, 0);
}

#[test]
fn arrow_keys_move_selection_through_events() {
    let mut app = app_with_jobs(2);
    assert_eq!(handle_key_event(&mut app, Key::Down), KeyAction::Stay);
    assert_eq!(app.selected_job_index, 1);
    assert_eq!(handle_key_event(&mut app, Key::Down), KeyAction::Stay);
    assert_eq!(app.selected_job_index, 1);
    assert_eq!(handle_key_event(&mut app, Key::Up), KeyAction::Stay);
    assert_eq!(app.selected_job_index, 0);
}

#[test]
fn quit_keys_ask_to_terminate() {
    let mut app = app_with_jobs(1);
    assert_eq!(handle_key_event(&mut app, Key::Char('q')), KeyAction::Quit);
    assert_eq!(handle_key_event(&mut app, Key::Char('Q')), KeyAction::Quit);
    assert_eq!(handle_key_event(&mut app, Key::CtrlC), KeyAction::Quit);
}

#[test]
fn refresh_key_asks_for_refresh() {
    let mut app = app_with_jobs(1);
    assert_eq!(
        handle_key_event(&mut app, Key::Char('r')),
        KeyAction::StartRefresh
    );
}

#[test]
fn user_popup_commit_sets_filter_and_refreshes() {
    let mut app = app_with_jobs(1);
    assert_eq!(handle_key_event(&mut app, Key::Char('u')), KeyAction::Stay);
    assert_eq!(app.state, AppState::UserSearchPopup);
    for c in "alice".chars() {
        assert_eq!(handle_key_event(&mut app, Key::Char(c)), KeyAction::Stay);
    }
    assert_eq!(app.input, "alice");
    assert_eq!(
        handle_key_event(&mut app, Key::Enter),
        KeyAction::StartRefresh
    );
    assert_eq!(app.state, AppState::Normal);
    assert_eq!(app.current_user.as_deref(), Some("alice"));
    assert_eq!(app.input, "");
}

#[test]
fn partition_popup_commit_sets_filter() {
    let mut app = app_with_jobs(1);
    handle_key_event(&mut app, Key::Char('p'));
    assert_eq!(app.state, AppState::PartitionSearchPopup);
    handle_key_event(&mut app, Key::Char('g'));
    handle_key_event(&mut app, Key::Char('p'));
    handle_key_event(&mut app, Key::Char('u'));
    assert_eq!(
        handle_key_event(&mut app, Key::Enter),
        KeyAction::StartRefresh
    );
    assert_eq!(app.current_partition.as_deref(), Some("gpu"));
    assert_eq!(app.state, AppState::Normal);
}

#[test]
fn popup_escape_discards_input_without_filter_change() {
    let mut app = app_with_jobs(1);
    app.current_user = Some("keep".to_string());
    handle_key_event(&mut app, Key::Char('u'));
    handle_key_event(&mut app, Key::Char('x'));
    assert_eq!(handle_key_event(&mut app, Key::Esc), KeyAction::Stay);
    assert_eq!(app.state, AppState::Normal);
    assert_eq!(app.current_user.as_deref(), Some("keep"));
    assert_eq!(app.input, "");
}

#[test]
fn popup_empty_commit_clears_filter() {
    let mut app = app_with_jobs(1);
    app.current_user = Some("old".to_string());
    handle_key_event(&mut app, Key::Char('u'));
    assert_eq!(
        handle_key_event(&mut app, Key::Enter),
        KeyAction::StartRefresh
    );
    assert!(app.current_user.is_none());
    assert_eq!(app.state, AppState::Normal);
}

#[test]
fn popup_backspace_removes_last_character() {
    let mut app = app_with_jobs(1);
    handle_key_event(&mut app, Key::Char('u'));
    handle_key_event(&mut app, Key::Char('a'));
    handle_key_event(&mut app, Key::Char('b'));
    handle_key_event(&mut app, Key::Backspace);
    assert_eq!(app.input, "a");
    let committed = handle_text_event(&mut app, Key::Enter);
    assert_eq!(committed, Some(Some("a".to_string())));
}

#[test]
fn cancel_flow_declined_issues_no_call() {
    let mut app = app_with_jobs(2);
    assert_eq!(handle_key_event(&mut app, Key::Char('c')), KeyAction::Stay);
    assert_eq!(app.state, AppState::CancelJobPopup);
    assert!(!app.confirm_action);
    assert_eq!(handle_key_event(&mut app, Key::Char('n')), KeyAction::Stay);
    assert_eq!(app.state, AppState::Normal);
    assert!(!app.confirm_action);
}

#[test]
fn cancel_flow_escape_declines() {
    let mut app = app_with_jobs(2);
    handle_key_event(&mut app, Key::Char('c'));
    assert_eq!(handle_key_event(&mut app, Key::Esc), KeyAction::Stay);
    assert_eq!(app.state, AppState::Normal);
    assert!(!app.confirm_action);
}

#[test]
fn cancel_flow_confirmed_asks_for_one_cancel_of_selected_job() {
    let mut app = app_with_jobs(2);
    app.select_next_job();
    let selected_before = app.get_selected_job().unwrap().job_id.clone();
    assert_eq!(handle_key_event(&mut app, Key::Char('c')), KeyAction::Stay);
    assert_eq!(
        handle_key_event(&mut app, Key::Char('y')),
        KeyAction::CancelSelectedJob
    );
    assert_eq!(app.state, AppState::Normal);
    assert!(app.confirm_action);
    assert_eq!(app.get_selected_job().unwrap().job_id, selected_before);
}

#[test]
fn cancel_key_needs_a_selection() {
    let mut app = app_with_jobs(0);
    assert_eq!(handle_key_event(&mut app, Key::Char('c')), KeyAction::Stay);
    assert_eq!(app.state, AppState::Normal);
}

#[test]
fn should_refresh_follows_the_interval() {
    let mut app = App::new(1000);
    assert!(!app.should_refresh(1000));
    assert!(!app.should_refresh(2999));
    assert!(app.should_refresh(3000));
    assert!(app.should_refresh(10_000));
    app.finish_refresh_success(Vec::new(), 5000);
    assert!(!app.should_refresh(5000));
    assert!(!app.should_refresh(6999));
    assert!(app.should_refresh(7000));
}

#[test]
fn failed_refresh_keeps_snapshot_and_reports_error() {
    let mut app = App::new(0);
    app.finish_refresh_success(vec![mk("1")], 100);
    assert_eq!(app.job_list.last_updated_ms, 100);
    app.begin_refresh();
    assert!(app.is_loading);
    assert!(app.error_message.is_none());
    app.finish_refresh_failure("squeue failed".to_string());
    assert!(!app.is_loading);
    assert_eq!(app.error_message.as_deref(), Some("squeue failed"));
    assert_eq!(app.job_list.last_updated_ms, 100);
    assert_eq!(app.job_list.jobs.len(), 1);
    app.begin_refresh();
    app.finish_refresh_success(vec![mk("1"), mk("2")], 200);
    assert!(app.error_message.is_none());
    assert_eq!(app.job_list.last_updated_ms, 200);
    assert_eq!(app.job_list.jobs.len(), 2);
}

#[test]
fn refresh_clamps_selection_to_new_snapshot() {
    let mut app = app_with_jobs(3);
    app.select_next_job();
    app.select_next_job();
    assert_eq!(app.selected_job_index, 2);
    app.finish_refresh_success(vec![mk("only")], 50);
    assert_eq!(app.selected_job_index, 0);
    assert_eq!(app.get_selected_job().unwrap().job_id, "only");
    app.finish_refresh_success(Vec::new(), 60);
    assert_eq!(app.selected_job_index, 0);
    assert!(app.get_selected_job().is_none());
}

#[test]
fn counts_by_state_through_app() {
    let mut app = App::new(0);
    app.finish_refresh_success(
        vec![
            mk("1"),
            Job::new("2".to_string(), "n".to_string(), "u".to_string(), JobState::Pending),
            Job::new("3".to_string(), "n".to_string(), "u".to_string(), JobState::Completed),
        ],
        0,
    );
    assert_eq!(app.running_jobs().len(), 1);
    assert_eq!(app.pending_jobs().len(), 1);
    assert_eq!(app.completed_jobs().len(), 1);
}
