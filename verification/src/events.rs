//! The keyboard state machine: how one keypress moves the
//! application state and which action the event loop must perform.

use crate::app::{spec_select_next, spec_select_previous, wf, App, AppState, AppV};
use vstd::prelude::*;

verus! {

/// A keypress, reduced to what the state machine reads.
#[derive(Debug, Clone, Copy, PartialEq, Eq, Structural)]
pub enum Key {
    Char(char),
    Up,
    Down,
    Enter,
    Backspace,
    Esc,
    CtrlC,
}

/// What the event loop must do after a keypress is handled.
/// `CancelSelectedJob` asks for exactly one cancel call for the
/// currently selected job's id, followed by exactly one refresh;
/// `StartRefresh` for exactly one refresh; the others for nothing.
#[derive(Debug, Clone, Copy, PartialEq, Eq, Structural)]
pub enum KeyAction {
    Stay,
    Quit,
    StartRefresh,
    CancelSelectedJob,
}

/// One keypress inside a text popup: printable characters grow the
/// buffer, backspace shrinks it, Escape discards it and returns to
/// browsing, Enter commits the buffer (`Some(None)` for an empty
/// buffer, clearing the filter).
pub open spec fn spec_text_event(a: AppV, key: Key) -> (AppV, Option<Option<Seq<char>>>) {
    match key {
        Key::Enter => if a.input.len() == 0 {
            (a, Some(None))
        } else {
            (a, Some(Some(a.input)))
        },
        Key::Esc => (AppV { input: Seq::<char>::empty(), state: AppState::Normal, ..a }, None),
        Key::Char(c) => (AppV { input: a.input.push(c), ..a }, None),
        Key::Backspace => (
            AppV {
                input: if a.input.len() > 0 {
                    a.input.drop_last()
                } else {
                    a.input
                },
                ..a
            },
            None,
        ),
        _ => (a, None),
    }
}

/// One keypress while browsing.
pub open spec fn spec_normal_step(a: AppV, key: Key) -> (AppV, KeyAction) {
    match key {
        Key::CtrlC => (a, KeyAction::Quit),
        Key::Up => (spec_select_previous(a), KeyAction::Stay),
        Key::Down => (spec_select_next(a), KeyAction::Stay),
        Key::Char(c) => if c == 'q' || c == 'Q' {
            (a, KeyAction::Quit)
        } else if c == 'r' {
            (a, KeyAction::StartRefresh)
        } else if c == 'u' {
            (
                AppV { state: AppState::UserSearchPopup, input: Seq::<char>::empty(), ..a },
                KeyAction::Stay,
            )
        } else if c == 'p' {
            (
                AppV { state: AppState::PartitionSearchPopup, input: Seq::<char>::empty(), ..a },
                KeyAction::Stay,
            )
        } else if c == 'c' && a.selected_job is Some {
            (AppV { state: AppState::CancelJobPopup, confirm: false, ..a }, KeyAction::Stay)
        } else {
            (a, KeyAction::Stay)
        },
        _ => (a, KeyAction::Stay),
    }
}

/// One keypress inside the user search popup: a committed buffer
/// becomes the user filter (cleared when empty) and triggers a
/// refresh; a dismissal does not.
pub open spec fn spec_user_search_step(a: AppV, key: Key) -> (AppV, KeyAction) {
    let (a1, committed) = spec_text_event(a, key);
    match committed {
        Some(user) => (
            AppV {
                user: user,
                input: Seq::<char>::empty(),
                state: AppState::Normal,
                ..a1
            },
            KeyAction::StartRefresh,
        ),
        None => (a1, KeyAction::Stay),
    }
}

/// One keypress inside the partition search popup; as the user
/// search, for the partition filter.
pub open spec fn spec_partition_search_step(a: AppV, key: Key) -> (AppV, KeyAction) {
    let (a1, committed) = spec_text_event(a, key);
    match committed {
        Some(partition) => (
            AppV {
                partition: partition,
                input: Seq::<char>::empty(),
                state: AppState::Normal,
                ..a1
            },
            KeyAction::StartRefresh,
        ),
        None => (a1, KeyAction::Stay),
    }
}

/// One keypress inside the cancel confirmation popup: `y` confirms
/// and asks for the cancel-then-refresh action; `n` or Escape
/// declines with no scheduler call; anything else waits.
pub open spec fn spec_cancel_step(a: AppV, key: Key) -> (AppV, KeyAction) {
    match key {
        Key::Char(c) => if c == 'y' {
            (
                AppV { confirm: true, state: AppState::Normal, ..a },
                KeyAction::CancelSelectedJob,
            )
        } else if c == 'n' {
            (AppV { confirm: false, state: AppState::Normal, ..a }, KeyAction::Stay)
        } else {
            (a, KeyAction::Stay)
        },
        Key::Esc => (AppV { confirm: false, state: AppState::Normal, ..a }, KeyAction::Stay),
        _ => (a, KeyAction::Stay),
    }
}

/// One keypress, dispatched on the interaction mode.
pub open spec fn spec_key_step(a: AppV, key: Key) -> (AppV, KeyAction) {
    match a.state {
        AppState::Normal => spec_normal_step(a, key),
        AppState::UserSearchPopup => spec_user_search_step(a, key),
        AppState::PartitionSearchPopup => spec_partition_search_step(a, key),
        AppState::CancelJobPopup => spec_cancel_step(a, key),
    }
}

/// Applies one keypress to a text popup's buffer and reports a
/// committed buffer, `Some(None)` standing for an empty commit.
pub fn handle_text_event(app: &mut App, key: Key) -> (r: Option<Option<String>>)
    ensures
        final(app)@ == spec_text_event(old(app)@, key).0,
        ({
            let c = spec_text_event(old(app)@, key).1;
            &&& (r is Some <==> c is Some)
            &&& (r is Some ==> (r.unwrap() is Some <==> c.unwrap() is Some))
            &&& (r is Some && r.unwrap() is Some ==> r.unwrap().unwrap()@ == c.unwrap().unwrap())
        }),
{
    let r = match key {
        Key::Enter => {
            if app.input.as_str().is_empty() {
                Some(None)
            } else {
                Some(Some(app.input.clone()))
            }
        },
        Key::Esc => {
            app.input.clear();
            app.state = AppState::Normal;
            None
        },
        Key::Char(c) => {
            app.input.push(c);
            None
        },
        Key::Backspace => {
            app.input.pop();
            None
        },
        _ => None,
    };
    proof {
        assert(final(app)@ =~~= spec_text_event(old(app)@, key).0);
    }
    r
}

/// Leaves a popup for browsing mode with a cleared buffer.  The
/// caller performs the refresh its action asks for.
pub fn reset_popup_state_to_normal(app: &mut App)
    ensures
        final(app)@ == (AppV {
            input: Seq::<char>::empty(),
            state: AppState::Normal,
            ..old(app)@
        }),
{
    app.input.clear();
    app.state = AppState::Normal;
    proof {
        assert(final(app)@ =~~= (AppV {
            input: Seq::<char>::empty(),
            state: AppState::Normal,
            ..old(app)@
        }));
    }
}

fn event_normal_state(app: &mut App, key: Key) -> (r: KeyAction)
    ensures
        final(app)@ == spec_normal_step(old(app)@, key).0,
        r == spec_normal_step(old(app)@, key).1,
{
    let r = match key {
        Key::CtrlC => KeyAction::Quit,
        Key::Up => {
            app.select_previous_job();
            KeyAction::Stay
        },
        Key::Down => {
            app.select_next_job();
            KeyAction::Stay
        },
        Key::Char(c) => {
            if c == 'q' || c == 'Q' {
                KeyAction::Quit
            } else if c == 'r' {
                KeyAction::StartRefresh
            } else if c == 'u' {
                app.state = AppState::UserSearchPopup;
                app.input.clear();
                KeyAction::Stay
            } else if c == 'p' {
                app.state = AppState::PartitionSearchPopup;
                app.input.clear();
                KeyAction::Stay
            } else if c == 'c' && app.selected_job.is_some() {
                app.confirm_action = false;
                app.state = AppState::CancelJobPopup;
                KeyAction::Stay
            } else {
                KeyAction::Stay
            }
        },
        _ => KeyAction::Stay,
    };
    proof {
        assert(final(app)@ =~~= spec_normal_step(old(app)@, key).0);
    }
    r
}

fn event_user_search_popup(app: &mut App, key: Key) -> (r: KeyAction)
    ensures
        final(app)@ == spec_user_search_step(old(app)@, key).0,
        r == spec_user_search_step(old(app)@, key).1,
{
    let committed = handle_text_event(app, key);
    let r = match committed {
        Some(user) => {
            app.current_user = user;
            reset_popup_state_to_normal(app);
            KeyAction::StartRefresh
        },
        None => KeyAction::Stay,
    };
    proof {
        assert(final(app)@ =~~= spec_user_search_step(old(app)@, key).0);
    }
    r
}

fn event_partition_search_popup(app: &mut App, key: Key) -> (r: KeyAction)
    ensures
        final(app)@ == spec_partition_search_step(old(app)@, key).0,
        r == spec_partition_search_step(old(app)@, key).1,
{
    let committed = handle_text_event(app, key);
    let r = match committed {
        Some(partition) => {
            app.current_partition = partition;
            reset_popup_state_to_normal(app);
            KeyAction::StartRefresh
        },
        None => KeyAction::Stay,
    };
    proof {
        assert(final(app)@ =~~= spec_partition_search_step(old(app)@, key).0);
    }
    r
}

fn event_cancel_popup(app: &mut App, key: Key) -> (r: KeyAction)
    ensures
        final(app)@ == spec_cancel_step(old(app)@, key).0,
        r == spec_cancel_step(old(app)@, key).1,
{
    let r = match key {
        Key::Char(c) => {
            if c == 'y' {
                app.confirm_action = true;
                app.state = AppState::Normal;
                KeyAction::CancelSelectedJob
            } else if c == 'n' {
                app.confirm_action = false;
                app.state = AppState::Normal;
                KeyAction::Stay
            } else {
                KeyAction::Stay
            }
        },
        Key::Esc => {
            app.confirm_action = false;
            app.state = AppState::Normal;
            KeyAction::Stay
        },
        _ => KeyAction::Stay,
    };
    proof {
        assert(final(app)@ =~~= spec_cancel_step(old(app)@, key).0);
    }
    r
}

/// Applies one keypress to the application state and returns the
/// action the event loop must perform.
pub fn handle_key_event(app: &mut App, key: Key) -> (r: KeyAction)
    ensures
        final(app)@ == spec_key_step(old(app)@, key).0,
        r == spec_key_step(old(app)@, key).1,
{
    match app.state {
        AppState::Normal => event_normal_state(app, key),
        AppState::UserSearchPopup => event_user_search_popup(app, key),
        AppState::PartitionSearchPopup => event_partition_search_popup(app, key),
        AppState::CancelJobPopup => event_cancel_popup(app, key),
    }
}

/// Every keypress preserves the state's internal consistency.
pub proof fn lemma_key_step_preserves_wf(a: AppV, key: Key)
    requires
        wf(a),
    ensures
        wf(spec_key_step(a, key).0),
{
}

/// Moving down never runs past the last job, however often it is
/// pressed: the selection stays at most `N - 1` on a snapshot of
/// length `N`, and on an empty snapshot it stays `0` with no job
/// selected.
pub proof fn lemma_down_stays_in_range(a: AppV)
    requires
        wf(a),
        a.state == AppState::Normal,
    ensures
        ({
            let a2 = spec_key_step(a, Key::Down).0;
            &&& wf(a2)
            &&& a.jobs.len() > 0 ==> a2.selected_index <= a.jobs.len() - 1
            &&& a.jobs.len() == 0 ==> a2.selected_index == 0 && a2.selected_job is None
        }),
{
}

/// Declining from the cancel popup: pressing `c` with a selection
/// and then `n` returns to browsing with the confirmation down, and
/// neither keypress asks for a scheduler call.
pub proof fn lemma_cancel_flow_declined(a: AppV)
    requires
        wf(a),
        a.state == AppState::Normal,
        a.selected_job is Some,
    ensures
        ({
            let (a1, act1) = spec_key_step(a, Key::Char('c'));
            let (a2, act2) = spec_key_step(a1, Key::Char('n'));
            &&& act1 == KeyAction::Stay
            &&& a1.state == AppState::CancelJobPopup
            &&& act2 == KeyAction::Stay
            &&& a2.state == AppState::Normal
            &&& a2.confirm == false
        }),
{
}

/// Confirming from the cancel popup: pressing `c` with a selection
/// and then `y` asks for exactly one cancel of the job that was
/// selected, followed by one refresh, and the selection has not
/// moved in between.
pub proof fn lemma_cancel_flow_confirmed(a: AppV)
    requires
        wf(a),
        a.state == AppState::Normal,
        a.selected_job is Some,
    ensures
        ({
            let (a1, act1) = spec_key_step(a, Key::Char('c'));
            let (a2, act2) = spec_key_step(a1, Key::Char('y'));
            &&& act1 == KeyAction::Stay
            &&& a1.state == AppState::CancelJobPopup
            &&& act2 == KeyAction::CancelSelectedJob
            &&& a2.selected_job == a.selected_job
            &&& a2.state == AppState::Normal
            &&& a2.confirm == true
        }),
{
}

} // verus!
