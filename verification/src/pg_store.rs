use crate::job::{
    OpaqueTaskData, ShortStoredTask, StoredTask, StoredTaskState, TaskId, TaskStatus,
    UpdateTaskError, UpdateTaskOptions, is_json, json_text, opt_str_view, opt_view, transition_allowed,
};
use crate::pg_interval::{
    IntervalOverflowError, PgInterval, duration_fits, duration_to_pg_interval, interval_fits,
    interval_nanos, interval_of, pg_interval_to_duration,
};
use crate::time::Instant;
use vstd::prelude::*;

verus! {

/// A job store backed by a PostgreSQL database.
pub struct PgJobStore<TyClock, TyDatabase, TyUuidGenerator> {
    clock: TyClock,
    database: TyDatabase,
    uuid_generator: TyUuidGenerator,
}

impl<TyClock, TyDatabase, TyUuidGenerator> PgJobStore<TyClock, TyDatabase, TyUuidGenerator> {
    pub closed spec fn spec_clock(&self) -> TyClock {
        self.clock
    }

    pub closed spec fn spec_database(&self) -> TyDatabase {
        self.database
    }

    pub closed spec fn spec_uuid_generator(&self) -> TyUuidGenerator {
        self.uuid_generator
    }

    pub fn new(clock: TyClock, database: TyDatabase, uuid_generator: TyUuidGenerator) -> (r: Self)
        ensures
            r.spec_clock() == clock,
            r.spec_database() == database,
            r.spec_uuid_generator() == uuid_generator,
    {
        Self { clock, database, uuid_generator }
    }

    pub fn clock(&self) -> (r: &TyClock)
        ensures
            *r == self.spec_clock(),
    {
        &self.clock
    }

    pub fn database(&self) -> (r: &TyDatabase)
        ensures
            *r == self.spec_database(),
    {
        &self.database
    }

    pub fn uuid_generator(&self) -> (r: &TyUuidGenerator)
        ensures
            *r == self.spec_uuid_generator(),
    {
        &self.uuid_generator
    }
}

/// The message of a failed conversion between integer types.
pub open spec fn int_conversion_message() -> Seq<char> {
    "out of range integral type conversion attempted"@
}

/// A row of the tasks table.
pub struct StoredTaskRow {
    pub etwin_task_id: TaskId,
    pub parent_task_id: Option<TaskId>,
    pub ctime: Instant,
    pub atime: Instant,
    pub status: TaskStatus,
    pub status_message: Option<String>,
    pub step_count: i64,
    pub running_time: PgInterval,
    pub kind: String,
    pub data_version: i64,
    pub options: String,
    pub state: String,
}

/// Why a row of the tasks table does not make a task.
#[derive(Debug)]
pub enum RowError {
    /// The step count does not fit a `u32`.
    StepCount(i64),
    /// The running time does not fit a duration.
    RunningTime(IntervalOverflowError),
    /// The data version does not fit a `u32`.
    DataVersion(i64),
    /// The options or the state are not valid JSON.
    Json(serde_json::Error),
}

/// Reads a task from a row of the tasks table.
pub fn stored_task_from_row(row: StoredTaskRow) -> (r: Result<StoredTask, RowError>)
    ensures
        ({
            let step_ok = 0 <= row.step_count <= u32::MAX;
            let version_ok = 0 <= row.data_version <= u32::MAX;
            if !step_ok {
                r matches Err(RowError::StepCount(n)) && n == row.step_count
            } else if !interval_fits(row.running_time) {
                r matches Err(RowError::RunningTime(_))
            } else if !version_ok {
                r matches Err(RowError::DataVersion(n)) && n == row.data_version
            } else if !is_json(row.options@) || !is_json(row.state@) {
                r matches Err(RowError::Json(_))
            } else {
                r matches Ok(t) && {
                    &&& t.short.id == row.etwin_task_id
                    &&& t.short.parent == row.parent_task_id
                    &&& t.short.created_at == row.ctime
                    &&& t.short.advanced_at == row.atime
                    &&& t.short.status == row.status
                    &&& opt_view(t.short.status_message) == opt_view(row.status_message)
                    &&& t.short.step_count == row.step_count
                    &&& t.short.running_time@ == interval_nanos(row.running_time)
                    &&& t.state.kind@ == row.kind@
                    &&& t.state.data_version == row.data_version
                    &&& t.state.options@ == json_text(row.options@)
                    &&& t.state.state@ == json_text(row.state@)
                }
            }
        }),
{
    if row.step_count < 0 || row.step_count > u32::MAX as i64 {
        return Err(RowError::StepCount(row.step_count));
    }
    let running_time = match pg_interval_to_duration(row.running_time) {
        Ok(d) => d,
        Err(e) => {
            return Err(RowError::RunningTime(e));
        },
    };
    if row.data_version < 0 || row.data_version > u32::MAX as i64 {
        return Err(RowError::DataVersion(row.data_version));
    }
    let options = match OpaqueTaskData::from_string(row.options) {
        Ok(d) => d,
        Err(e) => {
            return Err(RowError::Json(e));
        },
    };
    let state = match OpaqueTaskData::from_string(row.state) {
        Ok(d) => d,
        Err(e) => {
            return Err(RowError::Json(e));
        },
    };
    Ok(
        StoredTask {
            short: ShortStoredTask {
                id: row.etwin_task_id,
                parent: row.parent_task_id,
                created_at: row.ctime,
                advanced_at: row.atime,
                status: row.status,
                status_message: row.status_message,
                step_count: row.step_count as u32,
                running_time,
            },
            state: StoredTaskState {
                kind: row.kind,
                data_version: row.data_version as u32,
                options,
                state,
            },
        },
    )
}

/// Checks a step of a task against the row that the database held before it:
/// its step count and its status. `None` means that no task has the id.
pub fn check_pg_update(old: Option<(TaskStatus, i64)>, options: &UpdateTaskOptions) -> (r: Result<
    (),
    UpdateTaskError,
>)
    ensures
        match old {
            None => r matches Err(UpdateTaskError::NotFound(id)) && id == options.id,
            Some((old_status, old_steps)) => if old_steps != options.current_step {
                if 0 <= old_steps <= u32::MAX {
                    r matches Err(UpdateTaskError::StepConflict { task, expected, actual }) && task
                        == options.id && expected == old_steps && actual == options.current_step
                } else {
                    r matches Err(UpdateTaskError::Other(m)) && m@ == int_conversion_message()
                }
            } else if !transition_allowed(old_status, options.status) {
                r matches Err(UpdateTaskError::InvalidTransition { task, old, new }) && task
                    == options.id && old == old_status && new == options.status
            } else {
                r is Ok
            },
        },
{
    match old {
        None => Err(UpdateTaskError::NotFound(options.id)),
        Some((old_status, old_steps)) => {
            if old_steps != options.current_step as i64 {
                if old_steps < 0 || old_steps > u32::MAX as i64 {
                    return Err(
                        UpdateTaskError::Other(
                            "out of range integral type conversion attempted".to_owned(),
                        ),
                    );
                }
                return Err(
                    UpdateTaskError::StepConflict {
                        task: options.id,
                        expected: old_steps as u32,
                        actual: options.current_step,
                    },
                );
            }
            if !old_status.can_transition_to(options.status) {
                return Err(
                    UpdateTaskError::InvalidTransition {
                        task: options.id,
                        old: old_status,
                        new: options.status,
                    },
                );
            }
            Ok(())
        },
    }
}

/// The message of a running time that the database holds but that does not
/// fit a duration.
pub open spec fn interval_decode_message() -> Seq<char> {
    "error occurred while decoding: Source duration value is out of range for the target type"@
}

/// The message of a step time too long for the database.
pub open spec fn interval_encode_message() -> Seq<char> {
    "error occurred while decoding: Overflow while encoding duration"@
}

/// The interval that adds the time of a step to the running time of a task in
/// the database.
pub fn step_interval(options: &UpdateTaskOptions) -> (r: Result<PgInterval, UpdateTaskError>)
    ensures
        match r {
            Ok(iv) => duration_fits(options.step_time@) && iv == interval_of(options.step_time@),
            Err(e) => !duration_fits(options.step_time@) && (e matches UpdateTaskError::Other(m)
                && m@ == interval_encode_message()),
        },
{
    match duration_to_pg_interval(options.step_time) {
        Ok(iv) => Ok(iv),
        Err(_) => Err(
            UpdateTaskError::Other("error occurred while decoding: Overflow while encoding duration".to_owned()),
        ),
    }
}

/// The parent of a task that stops waiting for it when the task takes
/// `status`: the parent, if any, of a task that completes.
pub fn released_parent(parent: Option<TaskId>, status: TaskStatus) -> (r: Option<TaskId>)
    ensures
        r == if status == TaskStatus::Complete {
            parent
        } else {
            None
        },
{
    if status == TaskStatus::Complete {
        parent
    } else {
        None
    }
}

/// What the database answers about a task that it has just advanced.
pub struct PgUpdatedRow {
    pub parent_task_id: Option<TaskId>,
    pub ctime: Instant,
    pub step_count: i64,
    pub running_time: PgInterval,
}

/// The bookkeeping of a task that the database has advanced at `now` as
/// `options` asked, read from what the database answered.
pub fn pg_updated_task(options: &UpdateTaskOptions, now: Instant, row: &PgUpdatedRow) -> (r: Result<
    ShortStoredTask,
    UpdateTaskError,
>)
    ensures
        if !(0 <= row.step_count <= u32::MAX) {
            r matches Err(UpdateTaskError::Other(m)) && m@ == int_conversion_message()
        } else if !interval_fits(row.running_time) {
            r matches Err(UpdateTaskError::Other(m)) && m@ == interval_decode_message()
        } else {
            r matches Ok(t) && {
                &&& t.id == options.id
                &&& t.parent == row.parent_task_id
                &&& t.status == options.status
                &&& opt_view(t.status_message) == opt_str_view(options.status_message)
                &&& t.created_at == row.ctime
                &&& t.advanced_at == now
                &&& t.step_count == row.step_count
                &&& t.running_time@ == interval_nanos(row.running_time)
            }
        },
{
    if row.step_count < 0 || row.step_count > u32::MAX as i64 {
        return Err(UpdateTaskError::Other("out of range integral type conversion attempted".to_owned()));
    }
    let running_time = match pg_interval_to_duration(row.running_time) {
        Ok(d) => d,
        Err(_) => {
            return Err(
                UpdateTaskError::Other(
                    "error occurred while decoding: Source duration value is out of range for the target type".to_owned(),
                ),
            );
        },
    };
    let status_message = match options.status_message {
        Some(m) => Some(m.to_owned()),
        None => None,
    };
    Ok(
        ShortStoredTask {
            id: options.id,
            parent: row.parent_task_id,
            status: options.status,
            status_message,
            created_at: row.ctime,
            advanced_at: now,
            step_count: row.step_count as u32,
            running_time,
        },
    )
}

/// What changing the status of every running task of a job involves: whether
/// anything changes at all (running tasks may keep running, which changes
/// nothing), and whether their parents stop waiting for them (when they complete).
pub fn job_status_plan(status: TaskStatus) -> (r: (bool, bool))
    ensures
        r == (status != TaskStatus::Running, status == TaskStatus::Complete),
{
    (status != TaskStatus::Running, status == TaskStatus::Complete)
}

} // verus!
