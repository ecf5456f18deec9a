use crate::job::{
    OpaqueTaskData,
    ShortStoredTask, StoredTask, StoredTaskState, StoredTaskStateView, StoredTaskView, TaskId,
    TaskStatus, UpdateTaskError, UpdateTaskOptions,
};
use crate::text::str_equals;
use crate::time::{Duration, Instant, MAX_DURATION_NANOS};
use vstd::prelude::*;

verus! {

/// The state of a task runner.
#[derive(Copy, Clone, Debug, PartialEq, Eq, Hash, Structural)]
pub enum RunnerStatus {
    Running,
    Paused,
    Shutdown,
}

/// What the runner loop does once it is woken up.
#[derive(Copy, Clone, Debug, PartialEq, Eq, Hash, Structural)]
pub enum RunnerAction {
    /// Run the next task step.
    Step,
    /// Wait for a notification, then read the status again and decide anew.
    WaitThenDecide,
    /// Leave the loop.
    Stop,
}

/// Pausing stops a running runner; a paused or shut down one is left as it is.
pub fn pause(status: RunnerStatus) -> (r: RunnerStatus)
    ensures
        r == if status == RunnerStatus::Running {
            RunnerStatus::Paused
        } else {
            status
        },
{
    match status {
        RunnerStatus::Running => RunnerStatus::Paused,
        _ => status,
    }
}

/// Unpausing restarts a paused runner, which must then be woken up (the second
/// result); a running or shut down one is left as it is.
pub fn unpause(status: RunnerStatus) -> (r: (RunnerStatus, bool))
    ensures
        r == if status == RunnerStatus::Paused {
            (RunnerStatus::Running, true)
        } else {
            (status, false)
        },
{
    match status {
        RunnerStatus::Paused => (RunnerStatus::Running, true),
        _ => (status, false),
    }
}

/// Shutting down is final.
pub fn shutdown(status: RunnerStatus) -> (r: RunnerStatus)
    ensures
        r == RunnerStatus::Shutdown,
{
    RunnerStatus::Shutdown
}

/// A submitted task wakes the runner up only when it is running.
pub fn notify_on_submit(status: RunnerStatus) -> (r: bool)
    ensures
        r == (status == RunnerStatus::Running),
{
    status == RunnerStatus::Running
}

/// What the runner loop does in each status.
pub fn loop_action(status: RunnerStatus) -> (r: RunnerAction)
    ensures
        r == loop_action_result(status),
{
    match status {
        RunnerStatus::Running => RunnerAction::Step,
        RunnerStatus::Paused => RunnerAction::WaitThenDecide,
        RunnerStatus::Shutdown => RunnerAction::Stop,
    }
}

/// Pausing then unpausing a running runner leaves it running, and wakes it up.
pub proof fn law_pause_unpause()
    ensures
        ({
            let (s, notify) = unpause_result(pause_result(RunnerStatus::Running));
            s == RunnerStatus::Running && notify
        }),
{
}

/// Once shut down, a runner neither pauses nor unpauses, and its loop stops.
pub proof fn law_shutdown_is_final()
    ensures
        pause_result(RunnerStatus::Shutdown) == RunnerStatus::Shutdown,
        unpause_result(RunnerStatus::Shutdown) == (RunnerStatus::Shutdown, false),
{
}

/// The status after a pause.
pub open spec fn pause_result(status: RunnerStatus) -> RunnerStatus {
    if status == RunnerStatus::Running {
        RunnerStatus::Paused
    } else {
        status
    }
}

/// The status after an unpause, and whether the runner is woken up.
pub open spec fn unpause_result(status: RunnerStatus) -> (RunnerStatus, bool) {
    if status == RunnerStatus::Paused {
        (RunnerStatus::Running, true)
    } else {
        (status, false)
    }
}

/// The earliest start of the step after the one that starts now: a step
/// starts at `now`, or at `previous` (the earliest start allowed) when `now` is
/// earlier, and the next one waits the minimal delay between two steps.
pub fn next_task_start(now: Instant, previous: Instant, rate_limit: Duration) -> (r: Instant)
    requires
        i128::MIN <= (if now >= previous { now } else { previous }) + rate_limit@ <= i128::MAX,
    ensures
        r == (if now >= previous { now } else { previous }) + rate_limit@,
        r >= now + rate_limit@,
        r >= previous + rate_limit@,
{
    let start = if now >= previous {
        now
    } else {
        previous
    };
    start + rate_limit.total_nanoseconds()
}

/// Only a running runner starts a step: a paused one waits and reads its
/// status again, and a shut down one leaves its loop.
pub proof fn law_only_running_steps(status: RunnerStatus)
    ensures
        (loop_action_result(status) == RunnerAction::Step) <==> status == RunnerStatus::Running,
        loop_action_result(RunnerStatus::Shutdown) == RunnerAction::Stop,
{
}

/// What the runner loop does in `status`.
pub open spec fn loop_action_result(status: RunnerStatus) -> RunnerAction {
    match status {
        RunnerStatus::Running => RunnerAction::Step,
        RunnerStatus::Paused => RunnerAction::WaitThenDecide,
        RunnerStatus::Shutdown => RunnerAction::Stop,
    }
}

} // verus!

verus! {

/// What one step of a task reports: it made progress, it completed, or it waits
/// for child tasks to complete first.
pub enum TaskStep<O> {
    Progress,
    Complete,
    WaitFor(Vec<O>),
}

/// Records in `task` the outcome of one of its steps, and returns the states of
/// the child tasks to create.
///
/// The outcome is either the step's report (with the states of its children)
/// and the task's new state, or the message of the error that stopped the step;
/// the task then fails, keeping its previous state.
pub fn apply_task_step(
    task: &mut StoredTask,
    outcome: Result<(TaskStep<StoredTaskState>, OpaqueTaskData), String>,
) -> (r: Vec<StoredTaskState>)
    requires
        old(task).short.status == TaskStatus::Running,
    ensures
        final(task).short.id == old(task).short.id,
        final(task).short.parent == old(task).short.parent,
        final(task).short.created_at == old(task).short.created_at,
        final(task).short.advanced_at == old(task).short.advanced_at,
        final(task).short.step_count == old(task).short.step_count,
        final(task).short.running_time == old(task).short.running_time,
        final(task).state.kind@ == old(task).state.kind@,
        final(task).state.data_version == old(task).state.data_version,
        final(task).state.options@ == old(task).state.options@,
        match outcome {
            Ok((step, state)) => {
                &&& final(task).state.state@ == state@
                &&& final(task).short.status == if step is Complete {
                    TaskStatus::Complete
                } else {
                    TaskStatus::Running
                }
                &&& final(task).short.status_message is None
                &&& r@ == match step {
                    TaskStep::WaitFor(children) => children@,
                    _ => Seq::<StoredTaskState>::empty(),
                }
            },
            Err(message) => {
                &&& final(task).state.state@ == old(task).state.state@
                &&& final(task).short.status == TaskStatus::Failed
                &&& final(task).short.status_message matches Some(m) && m@ == message@
                &&& r@ == Seq::<StoredTaskState>::empty()
            },
        },
{
    let (status, message, children) = match outcome {
        Ok((step, state)) => {
            let res = match step {
                TaskStep::Progress => (TaskStatus::Running, None, Vec::new()),
                TaskStep::Complete => (TaskStatus::Complete, None, Vec::new()),
                TaskStep::WaitFor(children) => (TaskStatus::Running, None, children),
            };
            task.state.state = state;
            res
        },
        Err(message) => (TaskStatus::Failed, Some(message), Vec::new()),
    };
    task.short.status = status;
    task.short.status_message = message;
    children
}

/// The time that a step took, measured as `secs` seconds and `nanos`
/// nanoseconds: that span, or the largest span when it is longer.
pub fn step_time(secs: u64, nanos: u32) -> (r: Duration)
    requires
        nanos < 1_000_000_000,
    ensures
        r@ == if secs * 1_000_000_000 + nanos <= MAX_DURATION_NANOS {
            secs * 1_000_000_000 + nanos
        } else {
            MAX_DURATION_NANOS as int
        },
{
    match Duration::from_std_parts(secs, nanos) {
        Some(d) => d,
        None => Duration::max_value(),
    }
}

/// The request that saves the outcome of a step of `task` that took `step_time`.
pub fn step_update_options(task: &StoredTask, step_time: Duration) -> (r: UpdateTaskOptions<'_>)
    ensures
        r.id == task.short.id,
        r.current_step == task.short.step_count,
        r.step_time == step_time,
        r.status == task.short.status,
        r.status_message matches Some(m) ==> task.short.status_message matches Some(n) && m@
            == n@,
        r.status_message is None ==> task.short.status_message is None,
        r.state@ == task.state.state@,
{
    UpdateTaskOptions {
        id: task.short.id,
        current_step: task.short.step_count,
        step_time,
        status: task.short.status,
        status_message: match &task.short.status_message {
            Some(m) => Some(m.as_str()),
            None => None,
        },
        state: &task.state.state,
    }
}

/// The request that stops the task `stored`, keeping its state.
pub fn stop_task_options(stored: &StoredTask) -> (r: UpdateTaskOptions<'_>)
    ensures
        r.id == stored.short.id,
        r.current_step == stored.short.step_count,
        r.step_time@ == 0,
        r.status == TaskStatus::Stopped,
        r.status_message is None,
        r.state@ == stored.state.state@,
{
    UpdateTaskOptions {
        id: stored.short.id,
        current_step: stored.short.step_count,
        step_time: Duration::zero(),
        status: TaskStatus::Stopped,
        status_message: None,
        state: &stored.state.state,
    }
}

/// How a runner treats the answer to saving a step: a step conflict means that
/// the task was saved by someone else, which is no failure; every other error is.
pub fn handle_update_result(r: Result<ShortStoredTask, UpdateTaskError>) -> (out: Result<
    (),
    UpdateTaskError,
>)
    ensures
        match r {
            Ok(_) => out is Ok,
            Err(UpdateTaskError::StepConflict { .. }) => out is Ok,
            Err(e) => out == Err::<(), UpdateTaskError>(e),
        },
{
    match r {
        Ok(_) => Ok(()),
        Err(UpdateTaskError::StepConflict { .. }) => Ok(()),
        Err(e) => Err(e),
    }
}

/// Who makes a request to the job service, as far as its access rule reads it.
pub enum AuthContext {
    Guest,
    User(UserAuthContext),
}

/// A user making a request.
pub struct UserAuthContext {
    pub is_administrator: bool,
}

/// The requester is not allowed to use the job service.
#[derive(Copy, Clone, Debug, PartialEq, Eq, Hash, Structural)]
pub struct NotEnoughAuthorization;

/// Only administrators may use the job service.
pub fn check_admin_auth(acx: &AuthContext) -> (r: Result<(), NotEnoughAuthorization>)
    ensures
        r is Ok <==> (acx matches AuthContext::User(u) && u.is_administrator),
{
    match acx {
        AuthContext::User(UserAuthContext { is_administrator: true }) => Ok(()),
        _ => Err(NotEnoughAuthorization),
    }
}

/// The entries of `s`, by name (a later entry replaces an earlier one).
pub open spec fn kind_map<K>(s: Seq<(Seq<char>, K)>) -> Map<Seq<char>, K>
    decreases s.len(),
{
    if s.len() == 0 {
        Map::empty()
    } else {
        kind_map(s.drop_last()).insert(s.last().0, s.last().1)
    }
}

proof fn lemma_kind_map<K>(s: Seq<(Seq<char>, K)>, name: Seq<char>)
    ensures
        kind_map(s).contains_key(name) <==> exists|i: int| 0 <= i < s.len() && s[i].0 == name,
        kind_map(s).contains_key(name) ==> exists|i: int|
            0 <= i < s.len() && s[i].0 == name && kind_map(s)[name] == s[i].1 && forall|j: int|
                i < j < s.len() ==> s[j].0 != name,
    decreases s.len(),
{
    if s.len() > 0 {
        let p = s.drop_last();
        lemma_kind_map(p, name);
        if name == s.last().0 {
            assert(s[s.len() - 1].0 == name);
        } else {
            if exists|i: int| 0 <= i < s.len() && s[i].0 == name {
                let i = choose|i: int| 0 <= i < s.len() && s[i].0 == name;
                assert(p[i] == s[i]);
            }
            if kind_map(s).contains_key(name) {
                let i = choose|i: int|
                    0 <= i < p.len() && p[i].0 == name && kind_map(p)[name] == p[i].1 && forall|
                        j: int,
                    | i < j < p.len() ==> p[j].0 != name;
                assert(s[i] == p[i]);
                assert forall|j: int| i < j < s.len() implies s[j].0 != name by {
                    if j < p.len() {
                        assert(s[j] == p[j]);
                    }
                }
            }
        }
    }
}

/// The task kinds known to a runner, by name.
pub struct TaskRegistry<K> {
    kinds: Vec<(String, K)>,
}

impl<K> View for TaskRegistry<K> {
    type V = Map<Seq<char>, K>;

    closed spec fn view(&self) -> Map<Seq<char>, K> {
        kind_map(self.kinds@.map_values(|e: (String, K)| (e.0@, e.1)))
    }
}

impl<K> TaskRegistry<K> {
    pub fn new() -> (r: Self)
        ensures
            r@ == Map::<Seq<char>, K>::empty(),
    {
        let r = TaskRegistry { kinds: Vec::new() };
        assert(r.kinds@.map_values(|e: (String, K)| (e.0@, e.1)) =~= Seq::<(Seq<char>, K)>::empty());
        r
    }

    /// Whether a kind is registered under `name`.
    pub fn contains(&self, name: &str) -> (r: bool)
        ensures
            r == self@.contains_key(name@),
    {
        self.find(name).is_some()
    }

    fn find(&self, name: &str) -> (r: Option<usize>)
        ensures
            match r {
                Some(i) => i < self.kinds.len() && self@.contains_key(name@) && self.kinds@[i as int].1
                    == self@[name@],
                None => !self@.contains_key(name@),
            },
    {
        let ghost s = self.kinds@.map_values(|e: (String, K)| (e.0@, e.1));
        proof {
            lemma_kind_map(s, name@);
        }
        let n = self.kinds.len();
        let mut i = n;
        while i > 0
            invariant
                i <= n,
                n == self.kinds.len(),
                s == self.kinds@.map_values(|e: (String, K)| (e.0@, e.1)),
                forall|j: int| i <= j < n ==> s[j].0 != name@,
            decreases i,
        {
            if str_equals(self.kinds[i - 1].0.as_str(), name) {
                proof {
                    lemma_kind_map(s, name@);
                    let k = i - 1;
                    if kind_map(s).contains_key(name@) {
                        let i2 = choose|i2: int|
                            0 <= i2 < s.len() && s[i2].0 == name@ && kind_map(s)[name@] == s[i2].1
                                && forall|j: int| i2 < j < s.len() ==> s[j].0 != name@;
                        if i2 < k {
                            assert(s[k].0 == name@);
                        }
                    }
                    assert(s[k as int].0 == name@);
                }
                return Some(i - 1);
            }
            i = i - 1;
        }
        proof {
            if kind_map(s).contains_key(name@) {
                let i2 = choose|i2: int| 0 <= i2 < s.len() && s[i2].0 == name@;
                assert(s[i2].0 == name@);
            }
        }
        None
    }

    /// Registers `kind` under `name`, which no other kind may use.
    pub fn register(&mut self, name: &str, kind: K)
        requires
            !old(self)@.contains_key(name@),
        ensures
            final(self)@ == old(self)@.insert(name@, kind),
    {
        let ghost s = self.kinds@.map_values(|e: (String, K)| (e.0@, e.1));
        self.kinds.push((name.to_owned(), kind));
        proof {
            let s2 = self.kinds@.map_values(|e: (String, K)| (e.0@, e.1));
            assert(s2.drop_last() =~= s);
        }
    }

    /// The kind registered under `name`, if any.
    pub fn get(&self, name: &str) -> (r: Option<&K>)
        ensures
            match r {
                Some(k) => self@.contains_key(name@) && *k == self@[name@],
                None => !self@.contains_key(name@),
            },
    {
        match self.find(name) {
            Some(i) => Some(&self.kinds[i].1),
            None => None,
        }
    }
}


/// A registry knows a name exactly when some registration used it, and then
/// holds the kind of the latest registration under that name.
pub proof fn law_registry_latest<K>(s: Seq<(Seq<char>, K)>, name: Seq<char>)
    ensures
        kind_map(s).contains_key(name) <==> exists|i: int| 0 <= i < s.len() && s[i].0 == name,
        kind_map(s).contains_key(name) ==> exists|i: int|
            0 <= i < s.len() && s[i].0 == name && kind_map(s)[name] == s[i].1 && forall|j: int|
                i < j < s.len() ==> s[j].0 != name,
{
    lemma_kind_map(s, name);
}

} // verus!
