use etwin::job::{OpaqueTaskData, StoredTask, StoredTaskState, TaskId, TaskStatus};
use etwin::job_runner::{apply_task_step, handle_update_result, step_time, step_update_options, TaskStep};
use etwin::job_store::MemJobStore;

fn data(json: &str) -> OpaqueTaskData {
    OpaqueTaskData::from_string(json.to_string()).unwrap()
}

fn ping(pings: u64) -> StoredTaskState {
    StoredTaskState {
        kind: "Ping".to_string(),
        data_version: 1,
        options: data(&format!(r#"{{"pings": {}}}"#, pings)),
        state: data("0"),
    }
}

fn spawner(qty: u64, pings: u64) -> StoredTaskState {
    StoredTaskState {
        kind: "Spawner".to_string(),
        data_version: 1,
        options: data(&format!(r#"{{"qty": {}, "options": {{"pings": {}}}}}"#, qty, pings)),
        state: data("false"),
    }
}

/// One step of the two kinds of task: a spawner waits for its pings, then
/// completes; a ping counts up to its number of pings, then completes.
fn advance(task: &StoredTask, pings_sent: &mut u64) -> (TaskStep<StoredTaskState>, OpaqueTaskData) {
    let options: serde_json::Value = serde_json::from_str(task.state.options.get()).unwrap();
    let state: serde_json::Value = serde_json::from_str(task.state.state.get()).unwrap();
    match task.state.kind.as_str() {
        "Spawner" => {
            if state.as_bool().unwrap() {
                (TaskStep::Complete, data("true"))
            } else {
                let qty = options["qty"].as_u64().unwrap();
                let pings = options["options"]["pings"].as_u64().unwrap();
                (TaskStep::WaitFor((0..qty).map(|_| ping(pings)).collect()), data("true"))
            }
        }
        _ => {
            let done = state.as_u64().unwrap();
            if done < options["pings"].as_u64().unwrap() {
                *pings_sent += 1;
                (TaskStep::Progress, data(&(done + 1).to_string()))
            } else {
                (TaskStep::Complete, data(&done.to_string()))
            }
        }
    }
}

#[test]
fn test_spawners_and_pings_run_to_completion() {
    let mut store = MemJobStore::new();
    let mut next_id: u128 = 1;
    let mut now: i128 = 0;
    let mut roots = Vec::new();
    for _ in 0..4 {
        let t = store.create_task(TaskId::from_u128(next_id), now, &spawner(5, 3), None).unwrap();
        roots.push(t.id);
        next_id += 1;
        now += 1;
    }
    let mut pings_sent = 0;
    let mut steps = 0;
    while let Some(mut task) = store.get_next_task_to_run() {
        steps += 1;
        assert!(steps < 1_000, "the tasks do not finish");
        let outcome = advance(&task, &mut pings_sent);
        let children = apply_task_step(&mut task, Ok(outcome));
        for child in children {
            assert!(store.blocking_children(task.short.id) < u32::MAX);
            store.create_task(TaskId::from_u128(next_id), now, &child, Some(task.short.id)).unwrap();
            next_id += 1;
        }
        let update = step_update_options(&task, step_time(0, 1_000));
        now += 1;
        assert!(handle_update_result(store.update_task(&update, now)).is_ok());
    }
    assert_eq!(pings_sent, 4 * 5 * 3);
    for root in roots {
        let t = store.get_task(root).unwrap();
        assert_eq!(t.short.status, TaskStatus::Complete);
        assert_eq!(t.short.step_count, 2);
        assert_eq!(store.blocking_children(root), 0);
    }
    for id in 1..next_id {
        assert_eq!(store.get_task(TaskId::from_u128(id)).unwrap().short.status, TaskStatus::Complete);
    }
}

#[test]
fn test_failed_step_keeps_state() {
    let mut store = MemJobStore::new();
    store.create_task(TaskId::from_u128(1), 0, &ping(2), None).unwrap();
    let mut task = store.get_next_task_to_run().unwrap();
    let children = apply_task_step(&mut task, Err("Unknown task kind: Ping".to_string()));
    assert!(children.is_empty());
    let update = step_update_options(&task, step_time(0, 0));
    let short = store.update_task(&update, 5).unwrap();
    assert_eq!(short.status, TaskStatus::Failed);
    assert_eq!(short.status_message.as_deref(), Some("Unknown task kind: Ping"));
    assert_eq!(store.get_task(TaskId::from_u128(1)).unwrap().state.state.get(), "0");
    assert!(store.get_next_task_to_run().is_none());
}
