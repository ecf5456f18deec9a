use etwin::job::{
    OpaqueTaskData, ShortStoredTask, StoredTaskState, TaskId, TaskStatus, UpdateTaskError,
    UpdateTaskOptions,
};
use etwin::job_store::MemJobStore;
use etwin::time::{Duration, Instant};

const SECOND: Instant = 1_000_000_000;
const T2021: Instant = 1_609_459_200 * SECOND;

fn data(json: &str) -> OpaqueTaskData {
    OpaqueTaskData::from_string(json.to_string()).unwrap()
}

fn state(kind: &str, version: u32, options: &str, st: &str) -> StoredTaskState {
    StoredTaskState {
        kind: kind.to_string(),
        data_version: version,
        options: data(options),
        state: data(st),
    }
}

fn assert_short_eq(a: &ShortStoredTask, b: &ShortStoredTask) {
    assert_eq!(a.id, b.id);
    assert_eq!(a.parent, b.parent);
    assert_eq!(a.status, b.status);
    assert_eq!(a.status_message, b.status_message);
    assert_eq!(a.created_at, b.created_at);
    assert_eq!(a.advanced_at, b.advanced_at);
    assert_eq!(a.step_count, b.step_count);
    assert_eq!(a.running_time, b.running_time);
}

fn assert_stored_task_eq(store: &MemJobStore, task: &ShortStoredTask, st: &StoredTaskState) {
    let actual = store.get_task(task.id).unwrap();
    assert_short_eq(&actual.short, task);
    assert_eq!(actual.state.kind, st.kind);
    assert_eq!(actual.state.data_version, st.data_version);
    assert_eq!(actual.state.options.get(), st.options.get());
    assert_eq!(actual.state.state.get(), st.state.get());
}

#[test]
fn test_empty() {
    let store = MemJobStore::new();
    assert!(store.get_next_task_to_run().is_none());
    assert!(store.get_task(TaskId::from_u128(0)).is_none());
}

#[test]
fn test_create_and_update_task() {
    let mut store = MemJobStore::new();
    let mut now = T2021;
    let mut task = state("frobnicator", 42, r#"{"options": null}"#, r#"{"state": null}"#);

    let id = TaskId::from_u128(1);
    let initial = store.create_task(id, now, &task, None).unwrap();
    let expected = ShortStoredTask {
        id,
        parent: None,
        status: TaskStatus::Running,
        status_message: None,
        created_at: T2021,
        advanced_at: T2021,
        step_count: 0,
        running_time: Duration::zero(),
    };
    assert_short_eq(&initial, &expected);
    assert_stored_task_eq(&store, &expected, &task);

    now += SECOND;
    task.state = data(r#"{"more_state": 100}"#);
    let updated = store
        .update_task(
            &UpdateTaskOptions {
                id,
                current_step: 0,
                step_time: Duration::milliseconds(500),
                status: TaskStatus::Running,
                status_message: None,
                state: &task.state,
            },
            now,
        )
        .unwrap();
    let expected = ShortStoredTask {
        id,
        parent: None,
        status: TaskStatus::Running,
        status_message: None,
        created_at: T2021,
        advanced_at: T2021 + SECOND,
        step_count: 1,
        running_time: Duration::milliseconds(500),
    };
    assert_short_eq(&updated, &expected);
    assert_stored_task_eq(&store, &expected, &task);

    now += SECOND;
    task.state = data(r#"{"done": "result"}"#);
    let finished = store
        .update_task(
            &UpdateTaskOptions {
                id,
                current_step: 1,
                step_time: Duration::milliseconds(750),
                status: TaskStatus::Complete,
                status_message: Some("Completed!"),
                state: &task.state,
            },
            now,
        )
        .unwrap();
    let expected = ShortStoredTask {
        id,
        parent: None,
        status: TaskStatus::Complete,
        status_message: Some("Completed!".into()),
        created_at: T2021,
        advanced_at: T2021 + 2 * SECOND,
        step_count: 2,
        running_time: Duration::milliseconds(1250),
    };
    assert_short_eq(&finished, &expected);
    assert_stored_task_eq(&store, &finished, &task);
}

#[test]
fn test_invalid_task_updates() {
    let simple = state("simple", 0, "null", "null");
    let mut store = MemJobStore::new();
    let unknown = TaskId::from_u128(0);
    let options = |id: TaskId, status: TaskStatus, current_step: u32| UpdateTaskOptions {
        id,
        status,
        current_step,
        step_time: Duration::zero(),
        state: &simple.state,
        status_message: None,
    };

    // Invalid parent.
    assert!(store.create_task(TaskId::from_u128(7), 0, &simple, Some(unknown)).is_err());
    assert!(store.get_task(TaskId::from_u128(7)).is_none());

    let task = store.create_task(TaskId::from_u128(1), 0, &simple, None).unwrap().id;

    assert!(matches!(
        store.update_task(&options(unknown, TaskStatus::Running, 0), 1),
        Err(UpdateTaskError::NotFound(_))
    ));
    assert!(matches!(
        store.update_task(&options(task, TaskStatus::Running, 1), 1),
        Err(UpdateTaskError::StepConflict { expected: 1, actual: 0, .. })
    ));

    store.update_task(&options(task, TaskStatus::Complete, 0), 1).unwrap();

    assert!(matches!(
        store.update_task(&options(task, TaskStatus::Running, 2), 2),
        Err(UpdateTaskError::StepConflict { .. })
    ));
    assert!(matches!(
        store.update_task(&options(task, TaskStatus::Running, 1), 2),
        Err(UpdateTaskError::InvalidTransition { .. })
    ));
    assert!(matches!(
        store.update_task(&options(task, TaskStatus::Failed, 1), 2),
        Err(UpdateTaskError::InvalidTransition { .. })
    ));
    assert!(matches!(
        store.update_task(&options(task, TaskStatus::Stopped, 1), 2),
        Err(UpdateTaskError::InvalidTransition {
            old: TaskStatus::Complete,
            new: TaskStatus::Stopped,
            ..
        })
    ));
}

#[test]
fn test_task_run_order() {
    let mut simple = state("", 0, "null", "null");
    let mut store = MemJobStore::new();
    let mut now: Instant = 0;
    let mut next_id: u128 = 1;

    let mut make = |store: &mut MemJobStore, kind: &str, parent: Option<TaskId>, now: &mut Instant| {
        simple.kind = kind.to_string();
        let id = TaskId::from_u128(next_id);
        next_id += 1;
        let t = store.create_task(id, *now, &simple, parent).unwrap().id;
        *now += SECOND;
        t
    };

    let task1 = make(&mut store, "task1", None, &mut now);
    let parent = make(&mut store, "parent", None, &mut now);
    let child1 = make(&mut store, "child1", Some(parent), &mut now);
    let task2 = make(&mut store, "task2", None, &mut now);
    let task3 = make(&mut store, "task3", None, &mut now);
    let child2 = make(&mut store, "child2", Some(parent), &mut now);

    let steps = [
        (task1, TaskStatus::Complete),
        (child1, TaskStatus::Running),
        (task2, TaskStatus::Running),
        (task3, TaskStatus::Running),
        (child2, TaskStatus::Running),
        (child1, TaskStatus::Running),
        (task2, TaskStatus::Complete),
        (task3, TaskStatus::Running),
        (child2, TaskStatus::Complete),
        (child1, TaskStatus::Complete),
        (parent, TaskStatus::Running),
        (task3, TaskStatus::Running),
        (parent, TaskStatus::Complete),
        (task3, TaskStatus::Complete),
    ];
    let empty = data("null");
    for (i, (expected, status)) in steps.iter().enumerate() {
        let task = store.get_next_task_to_run().unwrap();
        assert_eq!(task.short.id, *expected, "step {}: got {}", i + 1, task.state.kind);
        store
            .update_task(
                &UpdateTaskOptions {
                    id: task.short.id,
                    status: *status,
                    status_message: None,
                    current_step: task.short.step_count,
                    step_time: Duration::zero(),
                    state: &empty,
                },
                now,
            )
            .unwrap();
        now += SECOND;
    }
    assert!(store.get_next_task_to_run().is_none());
}

#[test]
fn test_blocking_children_count() {
    let simple = state("k", 0, "null", "null");
    let mut store = MemJobStore::new();
    let p = store.create_task(TaskId::from_u128(1), 0, &simple, None).unwrap().id;
    let c = store.create_task(TaskId::from_u128(2), 1, &simple, Some(p)).unwrap().id;
    assert_eq!(store.blocking_children(p), 1);
    assert_eq!(store.blocking_children(c), 0);
    assert!(store.contains_task(c));
    assert!(!store.contains_task(TaskId::from_u128(3)));
    // The parent does not run while its child runs.
    assert_eq!(store.get_next_task_to_run().unwrap().short.id, c);
    // A failed child keeps blocking its parent.
    store
        .update_task(
            &UpdateTaskOptions {
                id: c,
                current_step: 0,
                step_time: Duration::zero(),
                status: TaskStatus::Failed,
                status_message: Some("boom"),
                state: &simple.state,
            },
            2,
        )
        .unwrap();
    assert_eq!(store.blocking_children(p), 1);
    assert!(store.get_next_task_to_run().is_none());
    assert_eq!(
        store.get_task(c).unwrap().short.status_message.as_deref(),
        Some("boom")
    );
}

#[test]
fn test_equal_times_prefer_greater_id() {
    let simple = state("k", 0, "null", "null");
    let mut store = MemJobStore::new();
    store.create_task(TaskId::from_u128(5), 0, &simple, None).unwrap();
    store.create_task(TaskId::from_u128(9), 0, &simple, None).unwrap();
    store.create_task(TaskId::from_u128(7), 0, &simple, None).unwrap();
    assert_eq!(store.get_next_task_to_run().unwrap().short.id, TaskId::from_u128(9));
}

#[test]
fn test_overflows() {
    let simple = state("k", 0, "null", "null");
    let mut store = MemJobStore::new();
    let id = store.create_task(TaskId::from_u128(1), 0, &simple, None).unwrap().id;
    store
        .update_task(
            &UpdateTaskOptions {
                id,
                current_step: 0,
                step_time: Duration::max_value(),
                status: TaskStatus::Running,
                status_message: None,
                state: &simple.state,
            },
            1,
        )
        .unwrap();
    let r = store.update_task(
        &UpdateTaskOptions {
            id,
            current_step: 1,
            step_time: Duration::microseconds(1),
            status: TaskStatus::Running,
            status_message: None,
            state: &simple.state,
        },
        2,
    );
    match r {
        Err(UpdateTaskError::Other(m)) => assert_eq!(m, "Task running time overflowed"),
        _ => panic!("expected an overflow"),
    }
}

#[test]
fn test_opaque_task_data() {
    assert!(OpaqueTaskData::from_string("{not json".to_string()).is_err());
    assert_eq!(data(r#"{"a": [1, 2]}"#).get(), r#"{"a": [1, 2]}"#);
    assert_eq!(data("  null ").get(), "null");
    assert_eq!(data("\n\t[1, 2]\r ").get(), "[1, 2]");
    assert!(OpaqueTaskData::from_string("1 2".to_string()).is_err());
}
