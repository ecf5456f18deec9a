use crate::time::{Duration, Instant};
use vstd::prelude::*;

verus! {

/// Identifier of a stored task (a UUID, held as its 128-bit value).
#[derive(Copy, Clone, Debug, PartialEq, Eq, Hash, Structural)]
pub struct TaskId {
    pub uuid: u128,
}

impl TaskId {
    pub fn from_u128(uuid: u128) -> (r: TaskId)
        ensures
            r.uuid == uuid,
    {
        TaskId { uuid }
    }

    pub fn as_u128(&self) -> (r: u128)
        ensures
            r == self.uuid,
    {
        self.uuid
    }
}

/// Lifecycle states of a stored task.
#[derive(Copy, Clone, Debug, PartialEq, Eq, Hash, Structural)]
pub enum TaskStatus {
    Running,
    Complete,
    Failed,
    Stopped,
}

/// Only a running task may change status: it may keep running or move to any
/// other status, while the other statuses are final.
pub open spec fn transition_allowed(from: TaskStatus, to: TaskStatus) -> bool {
    from is Running
}

impl TaskStatus {
    pub fn can_transition_to(self, other: Self) -> (r: bool)
        ensures
            r == transition_allowed(self, other),
    {
        match self {
            TaskStatus::Running => match other {
                TaskStatus::Running | TaskStatus::Complete | TaskStatus::Failed
                | TaskStatus::Stopped => true,
            },
            TaskStatus::Complete | TaskStatus::Failed | TaskStatus::Stopped => false,
        }
    }

    /// The name of this status.
    pub fn as_str(&self) -> (r: &'static str)
        ensures
            r@ == status_name(*self),
    {
        match self {
            TaskStatus::Running => "Running",
            TaskStatus::Complete => "Complete",
            TaskStatus::Failed => "Failed",
            TaskStatus::Stopped => "Stopped",
        }
    }
}

/// The name under which each status is stored.
pub open spec fn status_name(s: TaskStatus) -> Seq<char> {
    match s {
        TaskStatus::Running => "Running"@,
        TaskStatus::Complete => "Complete"@,
        TaskStatus::Failed => "Failed"@,
        TaskStatus::Stopped => "Stopped"@,
    }
}

/// Clones an optional string.
pub fn clone_opt_string(s: &Option<String>) -> (r: Option<String>)
    ensures
        opt_view(r) == opt_view(*s),
{
    match s {
        Some(m) => Some(m.clone()),
        None => None,
    }
}

/// The characters of an optional string slice.
pub open spec fn opt_str_view(s: Option<&str>) -> Option<Seq<char>> {
    match s {
        Some(m) => Some(m@),
        None => None,
    }
}

/// The characters of an optional string.
pub open spec fn opt_view(s: Option<String>) -> Option<Seq<char>> {
    match s {
        Some(m) => Some(m@),
        None => None,
    }
}

/// Whether `json` is one JSON value, with whitespace around it at most.
pub uninterp spec fn is_json(json: Seq<char>) -> bool;

/// Whether `c` is whitespace to JSON: a space, a tab, a line feed or a carriage return.
pub open spec fn is_json_whitespace(c: char) -> bool {
    c == ' ' || c == '\t' || c == '\n' || c == '\r'
}

/// `s` without its leading JSON whitespace.
pub open spec fn trim_json_start(s: Seq<char>) -> Seq<char>
    decreases s.len(),
{
    if s.len() > 0 && is_json_whitespace(s[0]) {
        trim_json_start(s.drop_first())
    } else {
        s
    }
}

/// `s` without its trailing JSON whitespace.
pub open spec fn trim_json_end(s: Seq<char>) -> Seq<char>
    decreases s.len(),
{
    if s.len() > 0 && is_json_whitespace(s.last()) {
        trim_json_end(s.drop_last())
    } else {
        s
    }
}

/// The text of the JSON value that `json` holds: `json` without the
/// whitespace around it.
pub open spec fn json_text(json: Seq<char>) -> Seq<char> {
    trim_json_end(trim_json_start(json))
}

#[verifier::external_type_specification]
#[verifier::external_body]
pub struct ExJsonError(serde_json::Error);

/// Checks `json` with `serde_json::value::RawValue::from_string`, which fails
/// when `json` is not one JSON value, and returns the text that it keeps
/// (`serde_json::value::RawValue::get`). As its source shows, that is the text
/// of the value, the whitespace around it left out; whether a text is valid
/// JSON is not stated.
#[verifier::external_body]
fn raw_value_from_string(json: String) -> (r: Result<String, serde_json::Error>)
    ensures
        match r {
            Ok(t) => is_json(json@) && t@ == json_text(json@),
            Err(_) => !is_json(json@),
        },
{
    match serde_json::value::RawValue::from_string(json) {
        Ok(v) => Ok(v.get().to_owned()),
        Err(e) => Err(e),
    }
}

/// A piece of JSON text, kept as it is.
#[derive(Debug)]
pub struct OpaqueTaskData {
    json: String,
}

impl View for OpaqueTaskData {
    type V = Seq<char>;

    closed spec fn view(&self) -> Seq<char> {
        self.json@
    }
}

impl OpaqueTaskData {
    /// The JSON text of `json`, or the error that parsing it gives.
    pub fn from_string(json: String) -> (r: Result<OpaqueTaskData, serde_json::Error>)
        ensures
            match r {
                Ok(d) => is_json(json@) && d@ == json_text(json@),
                Err(_) => !is_json(json@),
            },
    {
        match raw_value_from_string(json) {
            Ok(text) => Ok(OpaqueTaskData { json: text }),
            Err(e) => Err(e),
        }
    }

    /// The JSON text.
    pub fn get(&self) -> (r: &str)
        ensures
            r@ == self@,
    {
        self.json.as_str()
    }
}

impl Clone for OpaqueTaskData {
    fn clone(&self) -> (r: Self)
        ensures
            r@ == self@,
    {
        OpaqueTaskData { json: self.json.clone() }
    }
}

/// The bookkeeping part of a stored task.
#[derive(Debug)]
pub struct ShortStoredTask {
    pub id: TaskId,
    pub parent: Option<TaskId>,
    pub status: TaskStatus,
    pub status_message: Option<String>,
    pub created_at: Instant,
    pub advanced_at: Instant,
    pub step_count: u32,
    pub running_time: Duration,
}

/// The mathematical content of a [`ShortStoredTask`].
pub struct ShortStoredTaskView {
    pub id: TaskId,
    pub parent: Option<TaskId>,
    pub status: TaskStatus,
    pub status_message: Option<Seq<char>>,
    pub created_at: Instant,
    pub advanced_at: Instant,
    pub step_count: u32,
    /// The total running time, in nanoseconds.
    pub running_time: int,
}

impl View for ShortStoredTask {
    type V = ShortStoredTaskView;

    open spec fn view(&self) -> ShortStoredTaskView {
        ShortStoredTaskView {
            id: self.id,
            parent: self.parent,
            status: self.status,
            status_message: opt_view(self.status_message),
            created_at: self.created_at,
            advanced_at: self.advanced_at,
            step_count: self.step_count,
            running_time: self.running_time@,
        }
    }
}

impl Clone for ShortStoredTask {
    fn clone(&self) -> (r: Self)
        ensures
            r@ == self@,
    {
        ShortStoredTask {
            id: self.id,
            parent: self.parent,
            status: self.status,
            status_message: clone_opt_string(&self.status_message),
            created_at: self.created_at,
            advanced_at: self.advanced_at,
            step_count: self.step_count,
            running_time: self.running_time,
        }
    }
}

/// The serialized state of a task: its kind, the version of its data format,
/// and its options and state as JSON.
#[derive(Debug)]
pub struct StoredTaskState {
    pub kind: String,
    pub data_version: u32,
    pub options: OpaqueTaskData,
    pub state: OpaqueTaskData,
}

/// The mathematical content of a [`StoredTaskState`].
pub struct StoredTaskStateView {
    pub kind: Seq<char>,
    pub data_version: u32,
    pub options: Seq<char>,
    pub state: Seq<char>,
}

impl View for StoredTaskState {
    type V = StoredTaskStateView;

    open spec fn view(&self) -> StoredTaskStateView {
        StoredTaskStateView {
            kind: self.kind@,
            data_version: self.data_version,
            options: self.options@,
            state: self.state@,
        }
    }
}

impl Clone for StoredTaskState {
    fn clone(&self) -> (r: Self)
        ensures
            r@ == self@,
    {
        StoredTaskState {
            kind: self.kind.clone(),
            data_version: self.data_version,
            options: self.options.clone(),
            state: self.state.clone(),
        }
    }
}

/// A stored task: its bookkeeping and its serialized state.
#[derive(Debug)]
pub struct StoredTask {
    pub short: ShortStoredTask,
    pub state: StoredTaskState,
}

/// The mathematical content of a [`StoredTask`].
pub struct StoredTaskView {
    pub short: ShortStoredTaskView,
    pub state: StoredTaskStateView,
}

impl View for StoredTask {
    type V = StoredTaskView;

    open spec fn view(&self) -> StoredTaskView {
        StoredTaskView { short: self.short@, state: self.state@ }
    }
}

impl Clone for StoredTask {
    fn clone(&self) -> (r: Self)
        ensures
            r@ == self@,
    {
        StoredTask { short: self.short.clone(), state: self.state.clone() }
    }
}

/// Why a task could not be updated.
#[derive(Debug)]
pub enum UpdateTaskError {
    /// No task has this id.
    NotFound(TaskId),
    /// The step number given does not match the stored one.
    StepConflict { task: TaskId, expected: u32, actual: u32 },
    /// The task cannot move from `old` to `new`.
    InvalidTransition { task: TaskId, old: TaskStatus, new: TaskStatus },
    /// Any other failure, described by its message.
    Other(String),
}

/// A request to advance a task by one step.
#[derive(Debug)]
pub struct UpdateTaskOptions<'a> {
    pub id: TaskId,
    pub current_step: u32,
    pub step_time: Duration,
    pub status: TaskStatus,
    pub status_message: Option<&'a str>,
    pub state: &'a OpaqueTaskData,
}


proof fn lemma_trim_json_start(s: Seq<char>) -> (a: int)
    ensures
        0 <= a <= s.len(),
        trim_json_start(s) == s.subrange(a, s.len() as int),
        forall|i: int| 0 <= i < a ==> is_json_whitespace(#[trigger] s[i]),
        a < s.len() ==> !is_json_whitespace(s[a]),
    decreases s.len(),
{
    if s.len() > 0 && is_json_whitespace(s[0]) {
        let b = lemma_trim_json_start(s.drop_first());
        assert(s.drop_first().subrange(b, s.len() - 1) =~= s.subrange(b + 1, s.len() as int));
        assert forall|i: int| 0 <= i < b + 1 implies is_json_whitespace(#[trigger] s[i]) by {
            if i > 0 {
                assert(s[i] == s.drop_first()[i - 1]);
            }
        }
        b + 1
    } else {
        assert(s.subrange(0, s.len() as int) =~= s);
        0
    }
}

proof fn lemma_trim_json_end(s: Seq<char>) -> (b: int)
    ensures
        0 <= b <= s.len(),
        trim_json_end(s) == s.subrange(0, b),
        forall|i: int| b <= i < s.len() ==> is_json_whitespace(#[trigger] s[i]),
        b > 0 ==> !is_json_whitespace(s[b - 1]),
    decreases s.len(),
{
    if s.len() > 0 && is_json_whitespace(s.last()) {
        let b = lemma_trim_json_end(s.drop_last());
        assert(s.drop_last().subrange(0, b) =~= s.subrange(0, b));
        assert forall|i: int| b <= i < s.len() implies is_json_whitespace(#[trigger] s[i]) by {
            if i < s.len() - 1 {
                assert(s[i] == s.drop_last()[i]);
            }
        }
        b
    } else {
        assert(s.subrange(0, s.len() as int) =~= s);
        s.len() as int
    }
}

/// The text kept of a JSON value is the input without the whitespace around
/// it: a contiguous part of the input, with only whitespace cut before and
/// after it, and neither starting nor ending with whitespace.
pub proof fn law_json_text_trims(json: Seq<char>)
    ensures
        exists|a: int, b: int|
            #![trigger json.subrange(a, b)]
            {
                &&& 0 <= a <= b <= json.len()
                &&& json_text(json) == json.subrange(a, b)
                &&& forall|i: int| 0 <= i < a ==> is_json_whitespace(#[trigger] json[i])
                &&& forall|i: int| b <= i < json.len() ==> is_json_whitespace(#[trigger] json[i])
            },
        json_text(json).len() > 0 ==> !is_json_whitespace(json_text(json)[0]) && !is_json_whitespace(
            json_text(json).last(),
        ),
{
    let a = lemma_trim_json_start(json);
    let t = trim_json_start(json);
    let b = lemma_trim_json_end(t);
    assert(t.subrange(0, b) =~= json.subrange(a, a + b));
    assert forall|i: int| a + b <= i < json.len() implies is_json_whitespace(#[trigger] json[i]) by {
        assert(json[i] == t[i - a]);
    }
    if b > 0 {
        assert(json_text(json)[0] == t[0]);
        if t.len() > 0 {
            assert(t[0] == json[a]);
        }
        assert(json_text(json).last() == t[b - 1]);
    }
    assert(json_text(json) == json.subrange(a, a + b));
}

} // verus!
