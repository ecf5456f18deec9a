use etwin::job::{OpaqueTaskData, ShortStoredTask, StoredTask, StoredTaskState, TaskId, TaskStatus, UpdateTaskError};
use etwin::job_runner::{
    apply_task_step, check_admin_auth, handle_update_result, loop_action, next_task_start,
    notify_on_submit, pause, shutdown, step_update_options, stop_task_options, unpause,
    step_time, AuthContext, RunnerAction, RunnerStatus, TaskRegistry, TaskStep, UserAuthContext,
};
use etwin::pg_interval::{duration_to_pg_interval, pg_interval_to_duration, PgInterval};
use etwin::job_store::new_task;
use etwin::pg_store::{
    check_pg_update, job_status_plan, pg_updated_task, released_parent, step_interval, stored_task_from_row,
    PgUpdatedRow, RowError, StoredTaskRow,
};
use etwin::time::Duration;

fn data(json: &str) -> OpaqueTaskData {
    OpaqueTaskData::from_string(json.to_string()).unwrap()
}

fn running_task() -> StoredTask {
    StoredTask {
        short: ShortStoredTask {
            id: TaskId::from_u128(3),
            parent: None,
            status: TaskStatus::Running,
            status_message: None,
            created_at: 0,
            advanced_at: 5,
            step_count: 2,
            running_time: Duration::milliseconds(10),
        },
        state: StoredTaskState {
            kind: "Ping".to_string(),
            data_version: 1,
            options: data(r#"{"pings": 25}"#),
            state: data("3"),
        },
    }
}

#[test]
fn test_can_transition_to() {
    let all = [TaskStatus::Running, TaskStatus::Complete, TaskStatus::Failed, TaskStatus::Stopped];
    for to in all {
        assert!(TaskStatus::Running.can_transition_to(to));
        assert!(!TaskStatus::Complete.can_transition_to(to));
        assert!(!TaskStatus::Failed.can_transition_to(to));
        assert!(!TaskStatus::Stopped.can_transition_to(to));
    }
    assert_eq!(TaskStatus::Stopped.as_str(), "Stopped");
}

#[test]
fn test_runner_status() {
    assert_eq!(pause(RunnerStatus::Running), RunnerStatus::Paused);
    assert_eq!(pause(RunnerStatus::Shutdown), RunnerStatus::Shutdown);
    assert_eq!(unpause(RunnerStatus::Paused), (RunnerStatus::Running, true));
    assert_eq!(unpause(RunnerStatus::Running), (RunnerStatus::Running, false));
    assert_eq!(unpause(RunnerStatus::Shutdown), (RunnerStatus::Shutdown, false));
    assert_eq!(shutdown(RunnerStatus::Paused), RunnerStatus::Shutdown);
    assert!(notify_on_submit(RunnerStatus::Running));
    assert!(!notify_on_submit(RunnerStatus::Paused));
    assert_eq!(loop_action(RunnerStatus::Running), RunnerAction::Step);
    assert_eq!(loop_action(RunnerStatus::Paused), RunnerAction::WaitThenDecide);
    assert_eq!(loop_action(RunnerStatus::Shutdown), RunnerAction::Stop);
}

#[test]
fn test_next_task_start() {
    assert_eq!(next_task_start(100, 50, Duration::nanoseconds(30)), 130);
    assert_eq!(next_task_start(40, 50, Duration::nanoseconds(30)), 80);
    assert_eq!(next_task_start(10, 0, Duration::nanoseconds(5)), 15);
    assert_eq!(next_task_start(60, 50, Duration::zero()), 60);
}

#[test]
fn test_apply_task_step() {
    let mut t = running_task();
    let children = apply_task_step(&mut t, Ok((TaskStep::Progress, data("4"))));
    assert!(children.is_empty());
    assert_eq!(t.short.status, TaskStatus::Running);
    assert_eq!(t.state.state.get(), "4");

    let child = running_task().state;
    let children = apply_task_step(&mut t, Ok((TaskStep::WaitFor(vec![child]), data("5"))));
    assert_eq!(children.len(), 1);
    assert_eq!(t.short.status, TaskStatus::Running);

    let mut done = running_task();
    apply_task_step(&mut done, Ok((TaskStep::Complete, data("6"))));
    assert_eq!(done.short.status, TaskStatus::Complete);

    let mut failed = running_task();
    let children = apply_task_step(&mut failed, Err("Failed to execute task step".to_string()));
    assert!(children.is_empty());
    assert_eq!(failed.short.status, TaskStatus::Failed);
    assert_eq!(failed.short.status_message.as_deref(), Some("Failed to execute task step"));
    assert_eq!(failed.state.state.get(), "3");
}

#[test]
fn test_update_options() {
    let t = running_task();
    let o = step_update_options(&t, Duration::microseconds(7));
    assert_eq!(o.id, t.short.id);
    assert_eq!(o.current_step, 2);
    assert_eq!(o.status, TaskStatus::Running);
    assert_eq!(o.state.get(), "3");
    let s = stop_task_options(&t);
    assert_eq!(s.status, TaskStatus::Stopped);
    assert_eq!(s.current_step, 2);
    assert_eq!(s.step_time, Duration::zero());
}

#[test]
fn test_handle_update_result() {
    let conflict = Err(UpdateTaskError::StepConflict { task: TaskId::from_u128(1), expected: 1, actual: 2 });
    assert!(handle_update_result(conflict).is_ok());
    assert!(handle_update_result(Ok(running_task().short)).is_ok());
    assert!(matches!(
        handle_update_result(Err(UpdateTaskError::NotFound(TaskId::from_u128(1)))),
        Err(UpdateTaskError::NotFound(_))
    ));
}

#[test]
fn test_check_admin_auth() {
    assert!(check_admin_auth(&AuthContext::User(UserAuthContext { is_administrator: true })).is_ok());
    assert!(check_admin_auth(&AuthContext::User(UserAuthContext { is_administrator: false })).is_err());
    assert!(check_admin_auth(&AuthContext::Guest).is_err());
}

#[test]
fn test_task_registry() {
    let mut r: TaskRegistry<u32> = TaskRegistry::new();
    assert!(!r.contains("Ping"));
    r.register("Ping", 1);
    r.register("Spawner", 2);
    assert!(r.contains("Ping"));
    assert_eq!(r.get("Spawner"), Some(&2));
    assert_eq!(r.get("Ping"), Some(&1));
    assert_eq!(r.get("Other"), None);
}

#[test]
fn test_pg_interval() {
    let iv = PgInterval { months: 1, days: 2, microseconds: 3 };
    assert_eq!(pg_interval_to_duration(iv).unwrap(), Duration::microseconds(32 * 86_400_000_000 + 3));
    let d = Duration::microseconds(-(45 * 86_400_000_000 + 17));
    assert_eq!(
        duration_to_pg_interval(d).unwrap(),
        PgInterval { months: -1, days: -15, microseconds: -17 }
    );
    assert_eq!(pg_interval_to_duration(duration_to_pg_interval(d).unwrap()).unwrap(), d);
    let fine = Duration::nanoseconds(-(2 * 86_400_000_000_000 + 1_999));
    assert_eq!(duration_to_pg_interval(fine).unwrap(), PgInterval { months: 0, days: -2, microseconds: -1 });
    assert_eq!(
        pg_interval_to_duration(duration_to_pg_interval(fine).unwrap()).unwrap(),
        Duration::nanoseconds(-(2 * 86_400_000_000_000 + 1_000))
    );
    let widest = PgInterval { months: i32::MAX, days: i32::MAX, microseconds: i64::MAX };
    let expected = Duration::days(31 * i32::MAX as i64).checked_add(&Duration::microseconds(i64::MAX));
    assert_eq!(pg_interval_to_duration(widest).ok(), expected);
    assert!(duration_to_pg_interval(Duration::max_value()).is_err());
    let big = Duration::days(30 * i32::MAX as i64);
    assert_eq!(duration_to_pg_interval(big).unwrap().months, i32::MAX);
}

#[test]
fn test_duration() {
    assert_eq!(Duration::seconds(2).num_microseconds(), Some(2_000_000));
    assert_eq!(Duration::days(-3).num_days(), -3);
    assert_eq!(Duration::microseconds(-86_400_000_001).num_days(), -1);
    assert!(Duration::max_value().checked_add(&Duration::microseconds(1)).is_none());
    assert!(Duration::max_value().num_microseconds().is_none());
    assert_eq!(Duration::from_std_parts(1, 1500), Some(Duration::nanoseconds(1_000_001_500)));
    assert_eq!(Duration::nanoseconds(1_999).num_microseconds(), Some(1));
    assert_eq!(Duration::nanoseconds(-1_999).num_microseconds(), Some(-1));
    assert_eq!(Duration::from_std_parts(u64::MAX, 0), None);
}

#[test]
fn test_pg_row() {
    let row = StoredTaskRow {
        etwin_task_id: TaskId::from_u128(9),
        parent_task_id: None,
        ctime: 1,
        atime: 2,
        status: TaskStatus::Running,
        status_message: None,
        step_count: 4,
        running_time: PgInterval { months: 0, days: 0, microseconds: 500 },
        kind: "Ping".to_string(),
        data_version: 1,
        options: "{}".to_string(),
        state: "0".to_string(),
    };
    let t = stored_task_from_row(row).unwrap();
    assert_eq!(t.short.step_count, 4);
    assert_eq!(t.short.running_time, Duration::microseconds(500));
    let bad = StoredTaskRow {
        etwin_task_id: TaskId::from_u128(9),
        parent_task_id: None,
        ctime: 1,
        atime: 2,
        status: TaskStatus::Running,
        status_message: None,
        step_count: -1,
        running_time: PgInterval { months: 0, days: 0, microseconds: 500 },
        kind: "Ping".to_string(),
        data_version: 1,
        options: "{}".to_string(),
        state: "0".to_string(),
    };
    assert!(matches!(stored_task_from_row(bad), Err(RowError::StepCount(-1))));
}

#[test]
fn test_pg_update_checks() {
    let state = data("null");
    let o = etwin::job::UpdateTaskOptions {
        id: TaskId::from_u128(1),
        current_step: 3,
        step_time: Duration::zero(),
        status: TaskStatus::Complete,
        status_message: None,
        state: &state,
    };
    assert!(matches!(check_pg_update(None, &o), Err(UpdateTaskError::NotFound(_))));
    assert!(check_pg_update(Some((TaskStatus::Running, 3)), &o).is_ok());
    assert!(matches!(
        check_pg_update(Some((TaskStatus::Running, 2)), &o),
        Err(UpdateTaskError::StepConflict { expected: 2, actual: 3, .. })
    ));
    assert!(matches!(
        check_pg_update(Some((TaskStatus::Failed, 3)), &o),
        Err(UpdateTaskError::InvalidTransition { .. })
    ));
    assert_eq!(job_status_plan(TaskStatus::Running), (false, false));
    assert_eq!(job_status_plan(TaskStatus::Complete), (true, true));
    assert_eq!(job_status_plan(TaskStatus::Stopped), (true, false));
}

#[test]
fn test_pg_updated_task() {
    let state = data("1");
    let o = etwin::job::UpdateTaskOptions {
        id: TaskId::from_u128(5),
        current_step: 1,
        step_time: Duration::microseconds(7),
        status: TaskStatus::Complete,
        status_message: Some("done"),
        state: &state,
    };
    let row = PgUpdatedRow {
        parent_task_id: Some(TaskId::from_u128(4)),
        ctime: 10,
        step_count: 2,
        running_time: PgInterval { months: 0, days: 1, microseconds: 5 },
    };
    let t = pg_updated_task(&o, 99, &row).unwrap();
    assert_eq!(t.id, TaskId::from_u128(5));
    assert_eq!(t.parent, Some(TaskId::from_u128(4)));
    assert_eq!(t.status, TaskStatus::Complete);
    assert_eq!(t.status_message.as_deref(), Some("done"));
    assert_eq!((t.created_at, t.advanced_at, t.step_count), (10, 99, 2));
    assert_eq!(t.running_time, Duration::microseconds(86_400_000_005));

    let negative = PgUpdatedRow { step_count: -1, ..row };
    match pg_updated_task(&o, 99, &negative) {
        Err(UpdateTaskError::Other(m)) => assert_eq!(m, "out of range integral type conversion attempted"),
        _ => panic!("expected a conversion error"),
    }
    assert_eq!(released_parent(Some(TaskId::from_u128(4)), TaskStatus::Complete), Some(TaskId::from_u128(4)));
    assert_eq!(released_parent(Some(TaskId::from_u128(4)), TaskStatus::Failed), None);
    assert_eq!(released_parent(None, TaskStatus::Complete), None);
}

#[test]
fn test_step_interval() {
    let state = data("1");
    let mut o = etwin::job::UpdateTaskOptions {
        id: TaskId::from_u128(5),
        current_step: 1,
        step_time: Duration::microseconds(31 * 86_400_000_000 + 9),
        status: TaskStatus::Running,
        status_message: None,
        state: &state,
    };
    assert_eq!(step_interval(&o).unwrap(), PgInterval { months: 1, days: 1, microseconds: 9 });
    o.step_time = Duration::max_value();
    match step_interval(&o) {
        Err(UpdateTaskError::Other(m)) => {
            assert_eq!(m, "error occurred while decoding: Overflow while encoding duration")
        }
        _ => panic!("expected an overflow"),
    }
}

#[test]
fn test_new_task_and_step_time() {
    let t = new_task(TaskId::from_u128(8), None, 12);
    assert_eq!(t.status, TaskStatus::Running);
    assert_eq!((t.created_at, t.advanced_at, t.step_count), (12, 12, 0));
    assert_eq!(t.running_time, Duration::zero());
    assert_eq!(step_time(2, 1_500), Duration::nanoseconds(2_000_001_500));
    assert_eq!(step_time(0, 999), Duration::nanoseconds(999));
    assert_eq!(step_time(u64::MAX, 0), Duration::max_value());
}
