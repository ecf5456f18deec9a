use crate::job::{
    ShortStoredTask, ShortStoredTaskView, StoredTask, StoredTaskState, StoredTaskStateView,
    StoredTaskView, TaskId, TaskStatus, UpdateTaskError, UpdateTaskOptions, transition_allowed,
    opt_str_view,
};
use crate::time::{Duration, Instant, MAX_DURATION_NANOS};
use vstd::prelude::*;

verus! {

/// The ids of the tasks in `s` are pairwise distinct.
pub open spec fn ids_unique(s: Seq<StoredTaskView>) -> bool {
    forall|i: int, j: int|
        #![trigger s[i], s[j]]
        0 <= i < j < s.len() ==> s[i].short.id != s[j].short.id
}

/// The tasks of `s`, by id (a later task replaces an earlier one with its id).
pub open spec fn task_map(s: Seq<StoredTaskView>) -> Map<TaskId, StoredTaskView>
    decreases s.len(),
{
    if s.len() == 0 {
        Map::empty()
    } else {
        task_map(s.drop_last()).insert(s.last().short.id, s.last())
    }
}

/// Whether `t` is a child of `p` that has not completed.
pub open spec fn blocks(t: StoredTaskView, p: TaskId) -> bool {
    t.short.parent == Some(p) && t.short.status != TaskStatus::Complete
}

/// The number of children of `p` in `s` that have not completed.
pub open spec fn pending_children(s: Seq<StoredTaskView>, p: TaskId) -> nat
    decreases s.len(),
{
    if s.len() == 0 {
        0
    } else {
        pending_children(s.drop_last(), p) + if blocks(s.last(), p) {
            1nat
        } else {
            0nat
        }
    }
}

/// Every child of `id` in `m` has completed.
pub open spec fn children_complete(m: Map<TaskId, StoredTaskView>, id: TaskId) -> bool {
    forall|c: TaskId|
        #[trigger] m.contains_key(c) && m[c].short.parent == Some(id) ==> m[c].short.status
            == TaskStatus::Complete
}

/// The task `id` of `m` may run now: it is running and all its children have completed.
pub open spec fn runnable(m: Map<TaskId, StoredTaskView>, id: TaskId) -> bool {
    &&& m.contains_key(id)
    &&& m[id].short.status == TaskStatus::Running
    &&& children_complete(m, id)
}

/// `a` comes before `b` in the run order: it was updated less recently, or at the
/// same instant with a greater id.
pub open spec fn runs_before(a: ShortStoredTaskView, b: ShortStoredTaskView) -> bool {
    ||| a.advanced_at < b.advanced_at
    ||| a.advanced_at == b.advanced_at && a.id.uuid > b.id.uuid
}

proof fn lemma_task_map(s: Seq<StoredTaskView>)
    requires
        ids_unique(s),
    ensures
        forall|i: int|
            0 <= i < s.len() ==> #[trigger] task_map(s).contains_key(s[i].short.id) && task_map(
                s,
            )[s[i].short.id] == s[i],
        forall|id: TaskId|
            #[trigger] task_map(s).contains_key(id) ==> exists|i: int|
                0 <= i < s.len() && s[i].short.id == id,
    decreases s.len(),
{
    if s.len() > 0 {
        let p = s.drop_last();
        assert(ids_unique(p)) by {
            assert forall|i: int, j: int| #![trigger p[i], p[j]] 0 <= i < j < p.len() implies p[i].short.id
                != p[j].short.id by {
                assert(p[i] == s[i] && p[j] == s[j]);
            }
        }
        lemma_task_map(p);
        assert forall|i: int| 0 <= i < s.len() implies #[trigger] task_map(s).contains_key(
            s[i].short.id,
        ) && task_map(s)[s[i].short.id] == s[i] by {
            if i < s.len() - 1 {
                assert(p[i] == s[i]);
                assert(task_map(p).contains_key(p[i].short.id));
                assert(s[i].short.id != s[s.len() - 1].short.id);
            }
        }
        assert forall|id: TaskId| #[trigger] task_map(s).contains_key(id) implies exists|i: int|
            0 <= i < s.len() && s[i].short.id == id by {
            if id != s.last().short.id {
                assert(task_map(p).contains_key(id));
                let i = choose|i: int| 0 <= i < p.len() && p[i].short.id == id;
                assert(s[i] == p[i]);
            } else {
                assert(s[s.len() - 1].short.id == id);
            }
        }
    }
}

proof fn lemma_task_map_update(s: Seq<StoredTaskView>, i: int, x: StoredTaskView)
    requires
        ids_unique(s),
        0 <= i < s.len(),
        x.short.id == s[i].short.id,
    ensures
        ids_unique(s.update(i, x)),
        task_map(s.update(i, x)) == task_map(s).insert(x.short.id, x),
{
    let s2 = s.update(i, x);
    assert(ids_unique(s2)) by {
        assert forall|a: int, b: int| #![trigger s2[a], s2[b]] 0 <= a < b < s2.len() implies s2[a].short.id
            != s2[b].short.id by {
            assert(s[a].short.id != s[b].short.id);
        }
    }
    lemma_task_map(s);
    lemma_task_map(s2);
    let m1 = task_map(s2);
    let m2 = task_map(s).insert(x.short.id, x);
    assert forall|id: TaskId| m1.contains_key(id) <==> m2.contains_key(id) by {
        if m1.contains_key(id) {
            let k = choose|k: int| 0 <= k < s2.len() && s2[k].short.id == id;
            assert(s[k].short.id == id);
        }
        if m2.contains_key(id) && id != x.short.id {
            let k = choose|k: int| 0 <= k < s.len() && s[k].short.id == id;
            assert(s2[k].short.id == id);
        }
        if id == x.short.id {
            assert(s2[i].short.id == id);
        }
    }
    assert forall|id: TaskId| #[trigger] m1.contains_key(id) implies m1[id] == m2[id] by {
        let k = choose|k: int| 0 <= k < s2.len() && s2[k].short.id == id;
        if k == i {
        } else {
            assert(s[k] == s2[k]);
            assert(s[k].short.id != s[i].short.id);
        }
    }
    assert(m1 =~= m2);
}

proof fn lemma_pending_update(s: Seq<StoredTaskView>, i: int, x: StoredTaskView, p: TaskId)
    requires
        0 <= i < s.len(),
    ensures
        pending_children(s.update(i, x), p) + (if blocks(s[i], p) {
            1int
        } else {
            0int
        }) == pending_children(s, p) + (if blocks(x, p) {
            1int
        } else {
            0int
        }),
    decreases s.len(),
{
    let s2 = s.update(i, x);
    if i == s.len() - 1 {
        assert(s2.drop_last() =~= s.drop_last());
    } else {
        assert(s2.drop_last() =~= s.drop_last().update(i, x));
        lemma_pending_update(s.drop_last(), i, x, p);
    }
}

proof fn lemma_pending_zero(s: Seq<StoredTaskView>, p: TaskId)
    ensures
        pending_children(s, p) == 0 <==> forall|i: int|
            0 <= i < s.len() ==> !blocks(#[trigger] s[i], p),
    decreases s.len(),
{
    if s.len() > 0 {
        let q = s.drop_last();
        lemma_pending_zero(q, p);
        if pending_children(s, p) == 0 {
            assert forall|i: int| 0 <= i < s.len() implies !blocks(#[trigger] s[i], p) by {
                if i < s.len() - 1 {
                    assert(q[i] == s[i]);
                }
            }
        } else {
            if !blocks(s.last(), p) {
                let i = choose|i: int| 0 <= i < q.len() && blocks(#[trigger] q[i], p);
                assert(s[i] == q[i]);
            }
        }
    }
}

proof fn lemma_children_complete(s: Seq<StoredTaskView>, p: TaskId)
    requires
        ids_unique(s),
    ensures
        children_complete(task_map(s), p) <==> pending_children(s, p) == 0,
{
    lemma_task_map(s);
    lemma_pending_zero(s, p);
    let m = task_map(s);
    if children_complete(m, p) {
        assert forall|i: int| 0 <= i < s.len() implies !blocks(#[trigger] s[i], p) by {
            assert(m.contains_key(s[i].short.id));
        }
    }
    if pending_children(s, p) == 0 {
        assert forall|c: TaskId| #[trigger] m.contains_key(c) && m[c].short.parent == Some(
            p,
        ) implies m[c].short.status == TaskStatus::Complete by {
            let i = choose|i: int| 0 <= i < s.len() && s[i].short.id == c;
            assert(m[c] == s[i]);
            assert(!blocks(s[i], p));
        }
    }
}

} // verus!

verus! {

/// A task cannot be created under a parent that does not exist.
#[derive(Debug)]
pub struct UnknownParentError {
    pub parent: TaskId,
}

struct StoreState {
    // All the stored tasks, in creation order.
    tasks: Vec<StoredTask>,
    // For each task, the number of its children that have not completed.
    blocking_children: Vec<u32>,
}

impl StoreState {
    spec fn seq(&self) -> Seq<StoredTaskView> {
        self.tasks@.map_values(|t: StoredTask| t@)
    }

    spec fn wf(&self) -> bool {
        let s = self.seq();
        &&& self.blocking_children.len() == self.tasks.len()
        &&& ids_unique(s)
        &&& forall|i: int|
            0 <= i < s.len() ==> #[trigger] self.blocking_children@[i] == pending_children(
                s,
                s[i].short.id,
            )
        &&& forall|i: int|
            0 <= i < s.len() ==> ((#[trigger] s[i]).short.parent matches Some(p)
                ==> task_map(s).contains_key(p))
    }

    fn new() -> (r: Self)
        ensures
            r.wf(),
            r.seq() == Seq::<StoredTaskView>::empty(),
    {
        let r = Self { tasks: Vec::new(), blocking_children: Vec::new() };
        assert(r.seq() =~= Seq::<StoredTaskView>::empty());
        r
    }

    fn find_index(&self, id: TaskId) -> (r: Option<usize>)
        ensures
            match r {
                Some(i) => i < self.tasks.len() && self.seq()[i as int].short.id == id,
                None => forall|j: int| 0 <= j < self.tasks.len() ==> self.seq()[j].short.id != id,
            },
    {
        let n = self.tasks.len();
        let mut i: usize = 0;
        while i < n
            invariant
                n == self.tasks.len(),
                i <= n,
                forall|j: int| 0 <= j < i ==> self.seq()[j].short.id != id,
            decreases n - i,
        {
            if self.tasks[i].short.id == id {
                return Some(i);
            }
            i = i + 1;
        }
        None
    }

    fn add_task(&mut self, task: StoredTask) -> (r: Result<(), UnknownParentError>)
        requires
            old(self).wf(),
            !task_map(old(self).seq()).contains_key(task.short.id),
            task.short.status == TaskStatus::Running,
            task.short.parent matches Some(p) ==> pending_children(old(self).seq(), p) < u32::MAX,
        ensures
            final(self).wf(),
            match task.short.parent {
                Some(p) if !task_map(old(self).seq()).contains_key(p) => r matches Err(e)
                    && e.parent == p && final(self).seq() == old(self).seq(),
                _ => r is Ok && final(self).seq() == old(self).seq().push(task@),
            },
    {
        let ghost s = self.seq();
        let ghost b = self.blocking_children@;
        let ghost x = task@;
        let ghost mut parent_index: int = -1;
        proof {
            self.lemma_find(x.short.id);
        }
        if let Some(parent) = task.short.parent {
            proof {
                self.lemma_find(parent);
            }
            match self.find_index(parent) {
                None => {
                    return Err(UnknownParentError { parent });
                },
                Some(pi) => {
                    let c = self.blocking_children[pi];
                    proof {
                        parent_index = pi as int;
                        assert(c == pending_children(s, parent));
                    }
                    self.blocking_children.set(pi, c + 1);
                },
            }
        }
        self.tasks.push(task);
        self.blocking_children.push(0);
        proof {
            let s2 = self.seq();
            assert(s2 =~= s.push(x));
            assert(s2.drop_last() =~= s);
            assert(ids_unique(s2)) by {
                assert forall|i: int, j: int| #![trigger s2[i], s2[j]] 0 <= i < j < s2.len() implies s2[i].short.id
                    != s2[j].short.id by {
                    if j == s.len() {
                        assert(s2[i] == s[i]);
                    } else {
                        assert(s2[i] == s[i] && s2[j] == s[j]);
                    }
                }
            }
            assert forall|j: int| 0 <= j < s.len() implies !blocks(#[trigger] s[j], x.short.id) by {
                if s[j].short.parent == Some(x.short.id) {
                    assert(task_map(s).contains_key(x.short.id));
                }
            }
            lemma_pending_zero(s, x.short.id);
            lemma_task_map(s);
            assert forall|i: int| 0 <= i < s2.len() implies #[trigger] self.blocking_children@[i]
                == pending_children(s2, s2[i].short.id) by {
                if i < s.len() {
                    assert(s2[i] == s[i]);
                    assert(b[i] == pending_children(s, s[i].short.id));
                    if i == parent_index {
                        assert(blocks(x, s[i].short.id));
                    } else {
                        if x.short.parent == Some(s[i].short.id) {
                            assert(s[parent_index].short.id == s[i].short.id);
                        }
                    }
                } else {
                    if x.short.parent == Some(x.short.id) {
                        assert(task_map(s).contains_key(x.short.id));
                    }
                }
            }
            assert forall|i: int| 0 <= i < s2.len() implies ((#[trigger] s2[i]).short.parent matches Some(
                p,
            ) ==> task_map(s2).contains_key(p)) by {
                if i < s.len() {
                    assert(s2[i] == s[i]);
                }
            }
        }
        Ok(())
    }

    fn resolve_blocking_child(&mut self, parent: TaskId)
        requires
            old(self).blocking_children.len() == old(self).tasks.len(),
            ids_unique(old(self).seq()),
            task_map(old(self).seq()).contains_key(parent),
            forall|i: int|
                0 <= i < old(self).seq().len() ==> ((#[trigger] old(self).seq()[i]).short.parent matches Some(p)
                    ==> task_map(old(self).seq()).contains_key(p)),
            forall|i: int|
                0 <= i < old(self).seq().len() ==> #[trigger] old(self).blocking_children@[i]
                    == pending_children(old(self).seq(), old(self).seq()[i].short.id) + if old(
                    self,
                ).seq()[i].short.id == parent {
                    1int
                } else {
                    0int
                },
        ensures
            final(self).wf(),
            final(self).seq() == old(self).seq(),
    {
        proof {
            self.lemma_find(parent);
        }
        let pi = match self.find_index(parent) {
            Some(pi) => pi,
            None => {
                proof {
                    assert(false);
                }
                return ;
            },
        };
        let children = self.blocking_children[pi];
        self.blocking_children.set(pi, children - 1);
        proof {
            let s = self.seq();
            assert forall|i: int| 0 <= i < s.len() implies #[trigger] self.blocking_children@[i]
                == pending_children(s, s[i].short.id) by {
                if i != pi {
                    assert(s[i].short.id != s[pi as int].short.id);
                }
            }
        }
    }

    spec fn eligible(&self, i: int) -> bool {
        &&& self.seq()[i].short.status == TaskStatus::Running
        &&& self.blocking_children@[i] == 0
    }

    proof fn lemma_eligible(&self)
        requires
            self.wf(),
        ensures
            forall|i: int|
                0 <= i < self.tasks.len() ==> (#[trigger] self.eligible(i) <==> runnable(
                    task_map(self.seq()),
                    self.seq()[i].short.id,
                )),
            forall|id: TaskId|
                #[trigger] runnable(task_map(self.seq()), id) ==> exists|i: int|
                    0 <= i < self.tasks.len() && self.seq()[i].short.id == id && self.eligible(i),
    {
        let s = self.seq();
        lemma_task_map(s);
        assert forall|i: int| 0 <= i < self.tasks.len() implies (#[trigger] self.eligible(i)
            <==> runnable(task_map(s), s[i].short.id)) by {
            lemma_children_complete(s, s[i].short.id);
            assert(task_map(s).contains_key(s[i].short.id));
        }
        assert forall|id: TaskId| #[trigger] runnable(task_map(s), id) implies exists|i: int|
            0 <= i < self.tasks.len() && s[i].short.id == id && self.eligible(i) by {
            let i = choose|i: int| 0 <= i < s.len() && s[i].short.id == id;
            assert(self.eligible(i) <==> runnable(task_map(s), s[i].short.id));
        }
    }

    /// The index of the next task to run, if any: the least recently updated
    /// eligible task, the one with the greatest id among equals.
    fn peek_valid_task(&self) -> (r: Option<usize>)
        requires
            self.wf(),
        ensures
            match r {
                None => forall|j: int| 0 <= j < self.tasks.len() ==> !self.eligible(j),
                Some(b) => {
                    &&& b < self.tasks.len()
                    &&& self.eligible(b as int)
                    &&& forall|j: int|
                        0 <= j < self.tasks.len() && self.eligible(j) && j != b ==> runs_before(
                            self.seq()[b as int].short,
                            #[trigger] self.seq()[j].short,
                        )
                },
            },
    {
        let n = self.tasks.len();
        let mut best: Option<usize> = None;
        let mut i: usize = 0;
        while i < n
            invariant
                n == self.tasks.len(),
                self.wf(),
                i <= n,
                match best {
                    None => forall|j: int| 0 <= j < i ==> !self.eligible(j),
                    Some(b) => {
                        &&& b < i
                        &&& self.eligible(b as int)
                        &&& forall|j: int|
                            0 <= j < i && self.eligible(j) && j != b ==> runs_before(
                                self.seq()[b as int].short,
                                #[trigger] self.seq()[j].short,
                            )
                    },
                },
            decreases n - i,
        {
            let t = &self.tasks[i].short;
            if t.status == TaskStatus::Running && self.blocking_children[i] == 0 {
                match best {
                    None => {
                        best = Some(i);
                    },
                    Some(b) => {
                        let bt = &self.tasks[b].short;
                        if t.advanced_at < bt.advanced_at || (t.advanced_at == bt.advanced_at
                            && t.id.uuid > bt.id.uuid) {
                            proof {
                                assert forall|j: int|
                                    0 <= j < i + 1 && self.eligible(j) && j != i implies runs_before(
                                    self.seq()[i as int].short,
                                    #[trigger] self.seq()[j].short,
                                ) by {
                                    if j != b {
                                        assert(runs_before(self.seq()[b as int].short, self.seq()[j].short));
                                    }
                                }
                            }
                            best = Some(i);
                        } else {
                            proof {
                                assert(self.seq()[b as int].short.id != self.seq()[i as int].short.id);
                            }
                        }
                    },
                }
            }
            i = i + 1;
        }
        best
    }

    proof fn lemma_find(&self, id: TaskId)
        requires
            ids_unique(self.seq()),
        ensures
            task_map(self.seq()).contains_key(id) <==> exists|j: int|
                0 <= j < self.tasks.len() && self.seq()[j].short.id == id,
    {
        lemma_task_map(self.seq());
        if exists|j: int| 0 <= j < self.tasks.len() && self.seq()[j].short.id == id {
            let j = choose|j: int| 0 <= j < self.tasks.len() && self.seq()[j].short.id == id;
            assert(task_map(self.seq()).contains_key(self.seq()[j].short.id));
        }
    }
}

} // verus!

verus! {

/// A job store that keeps its tasks in memory.
pub struct MemJobStore {
    state: StoreState,
}

/// The bookkeeping of a task created at `now`: running, at step zero, with no
/// running time and no message.
pub open spec fn created_task(id: TaskId, parent: Option<TaskId>, now: Instant) -> ShortStoredTaskView {
    ShortStoredTaskView {
        id,
        parent,
        status: TaskStatus::Running,
        status_message: None,
        created_at: now,
        advanced_at: now,
        step_count: 0,
        running_time: 0,
    }
}

/// The bookkeeping of a task `id` created at `now`, under `parent` if any:
/// running, with no step taken yet.
pub fn new_task(id: TaskId, parent: Option<TaskId>, now: Instant) -> (r: ShortStoredTask)
    ensures
        r@ == created_task(id, parent, now),
{
    ShortStoredTask {
        id,
        parent,
        status: TaskStatus::Running,
        status_message: None,
        created_at: now,
        advanced_at: now,
        step_count: 0,
        running_time: Duration::zero(),
    }
}

/// The bookkeeping of `t` once advanced by one step at `now`.
pub open spec fn stepped(
    t: ShortStoredTaskView,
    status: TaskStatus,
    status_message: Option<Seq<char>>,
    step_time: int,
    now: Instant,
) -> ShortStoredTaskView {
    ShortStoredTaskView {
        id: t.id,
        parent: t.parent,
        status,
        status_message,
        created_at: t.created_at,
        advanced_at: now,
        step_count: (t.step_count + 1) as u32,
        running_time: t.running_time + step_time,
    }
}

impl View for MemJobStore {
    type V = Map<TaskId, StoredTaskView>;

    /// The stored tasks, by id.
    closed spec fn view(&self) -> Map<TaskId, StoredTaskView> {
        task_map(self.state.seq())
    }
}

impl MemJobStore {
    /// The store is well formed.
    pub closed spec fn wf(&self) -> bool {
        self.state.wf()
    }

    /// The number of children of `p` that have not completed.
    pub closed spec fn blocking_count(&self, p: TaskId) -> nat {
        pending_children(self.state.seq(), p)
    }

    pub fn new() -> (r: Self)
        ensures
            r.wf(),
            r@ == Map::<TaskId, StoredTaskView>::empty(),
    {
        MemJobStore { state: StoreState::new() }
    }

    /// Whether a task has this id.
    pub fn contains_task(&self, id: TaskId) -> (r: bool)
        requires
            self.wf(),
        ensures
            r == self@.contains_key(id),
    {
        proof {
            self.state.lemma_find(id);
        }
        self.state.find_index(id).is_some()
    }

    /// The number of children of `id` that have not completed.
    pub fn blocking_children(&self, id: TaskId) -> (r: u32)
        requires
            self.wf(),
        ensures
            r == self.blocking_count(id),
    {
        proof {
            self.state.lemma_find(id);
        }
        match self.state.find_index(id) {
            Some(i) => self.state.blocking_children[i],
            None => {
                proof {
                    let s = self.state.seq();
                    assert forall|j: int| 0 <= j < s.len() implies !blocks(#[trigger] s[j], id) by {
                        if s[j].short.parent == Some(id) {
                            assert(task_map(s).contains_key(id));
                        }
                    }
                    lemma_pending_zero(s, id);
                }
                0
            },
        }
    }

    /// Creates a running task `id` at `now`, as a child of `parent` if given;
    /// a parent task does not run until all its children have completed.
    pub fn create_task(
        &mut self,
        id: TaskId,
        now: Instant,
        task_state: &StoredTaskState,
        parent: Option<TaskId>,
    ) -> (r: Result<ShortStoredTask, UnknownParentError>)
        requires
            old(self).wf(),
            !old(self)@.contains_key(id),
            parent matches Some(p) ==> old(self).blocking_count(p) < u32::MAX,
        ensures
            final(self).wf(),
            match parent {
                Some(p) if !old(self)@.contains_key(p) => {
                    &&& r matches Err(e) && e.parent == p
                    &&& final(self)@ == old(self)@
                    &&& forall|q: TaskId| #[trigger] final(self).blocking_count(q) == old(self).blocking_count(q)
                },
                _ => {
                    &&& r matches Ok(t) && t@ == created_task(id, parent, now)
                    &&& final(self)@ == old(self)@.insert(
                        id,
                        StoredTaskView { short: created_task(id, parent, now), state: task_state@ },
                    )
                    &&& forall|q: TaskId| #[trigger] final(self).blocking_count(q) == old(self).blocking_count(q)
                        + if parent == Some(q) {
                        1nat
                    } else {
                        0nat
                    }
                },
            },
    {
        let ghost s = self.state.seq();
        let short_task = new_task(id, parent, now);
        let task = StoredTask { short: short_task.clone(), state: task_state.clone() };
        let ghost x = task@;
        match self.state.add_task(task) {
            Err(e) => Err(e),
            Ok(()) => {
                proof {
                    assert(self.state.seq().drop_last() =~= s);
                }
                Ok(short_task)
            },
        }
    }

    /// The task `id`, or `None` when there is none.
    pub fn get_task(&self, id: TaskId) -> (r: Option<StoredTask>)
        requires
            self.wf(),
        ensures
            match r {
                Some(t) => self@.contains_key(id) && t@ == self@[id] && t@.short.id == id,
                None => !self@.contains_key(id),
            },
    {
        proof {
            self.state.lemma_find(id);
            lemma_task_map(self.state.seq());
        }
        match self.state.find_index(id) {
            Some(i) => Some(self.state.tasks[i].clone()),
            None => None,
        }
    }

    /// The least recently updated task that is running and whose children (if
    /// any) have all completed; among equally recent ones, the one with the
    /// greatest id. `None` when no task is such.
    pub fn get_next_task_to_run(&self) -> (r: Option<StoredTask>)
        requires
            self.wf(),
        ensures
            match r {
                None => forall|id: TaskId| !runnable(self@, id),
                Some(t) => {
                    &&& runnable(self@, t@.short.id)
                    &&& t@ == self@[t@.short.id]
                    &&& forall|id: TaskId|
                        #[trigger] runnable(self@, id) && id != t@.short.id ==> runs_before(
                            t@.short,
                            self@[id].short,
                        )
                },
            },
    {
        proof {
            self.state.lemma_eligible();
            lemma_task_map(self.state.seq());
        }
        match self.state.peek_valid_task() {
            None => {
                proof {
                    assert forall|id: TaskId| !runnable(self@, id) by {
                        if runnable(self@, id) {
                            let i = choose|i: int|
                                0 <= i < self.state.tasks.len() && self.state.seq()[i].short.id == id
                                    && self.state.eligible(i);
                        }
                    }
                }
                None
            },
            Some(b) => {
                let t = self.state.tasks[b].clone();
                proof {
                    let s = self.state.seq();
                    assert(self.state.eligible(b as int));
                    assert(task_map(s)[s[b as int].short.id] == s[b as int]);
                    assert forall|id: TaskId| #[trigger] runnable(self@, id) && id != t@.short.id implies runs_before(
                        t@.short,
                        self@[id].short,
                    ) by {
                        let i = choose|i: int|
                            0 <= i < self.state.tasks.len() && s[i].short.id == id && self.state.eligible(i);
                        assert(task_map(s)[s[i].short.id] == s[i]);
                        assert(runs_before(s[b as int].short, s[i].short));
                    }
                }
                Some(t)
            },
        }
    }

    /// Advances the task `options.id` by one step at `now`: it takes the status,
    /// message and state given, its step count grows by one and its running time
    /// by the step's time. A task that completes no longer holds its parent back.
    pub fn update_task(&mut self, options: &UpdateTaskOptions, now: Instant) -> (r: Result<
        ShortStoredTask,
        UpdateTaskError,
    >)
        requires
            old(self).wf(),
        ensures
            final(self).wf(),
            ({
                let m = old(self)@;
                let id = options.id;
                if !m.contains_key(id) {
                    r matches Err(UpdateTaskError::NotFound(i)) && i == id && final(self)@ == m
                } else {
                    let t = m[id].short;
                    if t.step_count != options.current_step {
                        &&& r matches Err(UpdateTaskError::StepConflict { task, expected, actual })
                            && task == id && expected == options.current_step && actual == t.step_count
                        &&& final(self)@ == m
                    } else if !transition_allowed(t.status, options.status) {
                        &&& r matches Err(UpdateTaskError::InvalidTransition { task, old, new })
                            && task == id && old == t.status && new == options.status
                        &&& final(self)@ == m
                    } else if t.step_count == u32::MAX {
                        &&& r matches Err(UpdateTaskError::Other(msg)) && msg@
                            == "Task step count overflowed"@
                        &&& final(self)@ == m
                    } else if !(-MAX_DURATION_NANOS <= t.running_time + options.step_time@
                        <= MAX_DURATION_NANOS) {
                        &&& r matches Err(UpdateTaskError::Other(msg)) && msg@
                            == "Task running time overflowed"@
                        &&& final(self)@ == m
                    } else {
                        let u = stepped(
                            t,
                            options.status,
                            opt_str_view(options.status_message),
                            options.step_time@,
                            now,
                        );
                        &&& r matches Ok(v) && v@ == u
                        &&& final(self)@ == m.insert(
                            id,
                            StoredTaskView {
                                short: u,
                                state: StoredTaskStateView {
                                    kind: m[id].state.kind,
                                    data_version: m[id].state.data_version,
                                    options: m[id].state.options,
                                    state: options.state@,
                                },
                            },
                        )
                    }
                }
            }),
            r matches Ok(v) ==> {
                let t = old(self)@[options.id];
                &&& old(self)@.contains_key(options.id)
                &&& v@.id == options.id
                &&& v@.parent == t.short.parent
                &&& v@.status == options.status
                &&& v@.status_message == opt_str_view(options.status_message)
                &&& v@.created_at == t.short.created_at
                &&& v@.advanced_at == now
                &&& v@.step_count == t.short.step_count + 1
                &&& v@.running_time == t.short.running_time + options.step_time@
                &&& final(self)@.contains_key(options.id)
                &&& final(self)@[options.id].short == v@
                &&& final(self)@[options.id].state.state == options.state@
            },
            forall|q: TaskId|
                #[trigger] final(self).blocking_count(q) == old(self).blocking_count(q) - if r is Ok
                    && options.status == TaskStatus::Complete && old(self)@[options.id].short.parent
                    == Some(q) {
                    1int
                } else {
                    0int
                },
    {
        let ghost s = self.state.seq();
        proof {
            self.state.lemma_find(options.id);
            lemma_task_map(s);
        }
        let idx = match self.state.find_index(options.id) {
            None => {
                return Err(UpdateTaskError::NotFound(options.id));
            },
            Some(i) => i,
        };
        proof {
            assert(task_map(s)[s[idx as int].short.id] == s[idx as int]);
        }
        let stored = &self.state.tasks[idx];
        let task = &stored.short;
        if task.step_count != options.current_step {
            return Err(
                UpdateTaskError::StepConflict {
                    task: task.id,
                    actual: task.step_count,
                    expected: options.current_step,
                },
            );
        }
        if !task.status.can_transition_to(options.status) {
            return Err(
                UpdateTaskError::InvalidTransition {
                    task: task.id,
                    old: task.status,
                    new: options.status,
                },
            );
        }
        if task.step_count == u32::MAX {
            return Err(UpdateTaskError::Other("Task step count overflowed".to_owned()));
        }
        let next_step = task.step_count + 1;
        let running_time = match task.running_time.checked_add(&options.step_time) {
            Some(d) => d,
            None => {
                return Err(UpdateTaskError::Other("Task running time overflowed".to_owned()));
            },
        };
        let status_message = match options.status_message {
            Some(m) => Some(m.to_owned()),
            None => None,
        };
        let short = ShortStoredTask {
            id: task.id,
            parent: task.parent,
            status: options.status,
            status_message,
            created_at: task.created_at,
            advanced_at: now,
            step_count: next_step,
            running_time,
        };
        let state = StoredTaskState {
            kind: stored.state.kind.clone(),
            data_version: stored.state.data_version,
            options: stored.state.options.clone(),
            state: options.state.clone(),
        };
        let result = short.clone();
        let parent = short.parent;
        let updated = StoredTask { short, state };
        let ghost x = updated@;
        proof {
            let t = s[idx as int].short;
            assert(x.short == stepped(
                t,
                options.status,
                opt_str_view(options.status_message),
                options.step_time@,
                now,
            ));
            assert(x.state == StoredTaskStateView {
                kind: s[idx as int].state.kind,
                data_version: s[idx as int].state.data_version,
                options: s[idx as int].state.options,
                state: options.state@,
            });
        }
        self.state.tasks.set(idx, updated);
        proof {
            let s2 = self.state.seq();
            assert(s2 =~= s.update(idx as int, x));
            lemma_task_map_update(s, idx as int, x);
            assert forall|q: TaskId| #![trigger pending_children(s2, q)] pending_children(s2, q) + (if blocks(
                s[idx as int],
                q,
            ) {
                1int
            } else {
                0int
            }) == pending_children(s, q) + (if blocks(x, q) {
                1int
            } else {
                0int
            }) by {
                lemma_pending_update(s, idx as int, x, q);
            }
            assert forall|i: int| 0 <= i < s2.len() implies ((#[trigger] s2[i]).short.parent matches Some(
                p,
            ) ==> task_map(s2).contains_key(p)) by {
                if i != idx {
                    assert(s2[i] == s[i]);
                }
            }
        }
        if options.status == TaskStatus::Complete {
            if let Some(p) = parent {
                proof {
                    let s2 = self.state.seq();
                    assert forall|i: int| 0 <= i < s2.len() implies #[trigger] self.state.blocking_children@[i]
                        == pending_children(s2, s2[i].short.id) + if s2[i].short.id == p {
                        1int
                    } else {
                        0int
                    } by {
                        assert(s2[i].short.id == s[i].short.id);
                        assert(pending_children(s2, s[i].short.id) + (if blocks(s[idx as int], s[i].short.id) {
                            1int
                        } else {
                            0int
                        }) == pending_children(s, s[i].short.id) + (if blocks(x, s[i].short.id) {
                            1int
                        } else {
                            0int
                        }));
                    }
                }
                self.state.resolve_blocking_child(p);
            }
        } else {
            proof {
                let s2 = self.state.seq();
                assert forall|i: int| 0 <= i < s2.len() implies #[trigger] self.state.blocking_children@[i]
                    == pending_children(s2, s2[i].short.id) by {
                    assert(s2[i].short.id == s[i].short.id);
                    assert(pending_children(s2, s[i].short.id) + (if blocks(s[idx as int], s[i].short.id) {
                        1int
                    } else {
                        0int
                    }) == pending_children(s, s[i].short.id) + (if blocks(x, s[i].short.id) {
                        1int
                    } else {
                        0int
                    }));
                }
            }
        }
        Ok(result)
    }
}

} // verus!

verus! {

/// A store counts, for each task, exactly its children that have not completed:
/// the count is zero when, and only when, all its children have completed.
pub proof fn law_blocking_count(store: MemJobStore, p: TaskId)
    requires
        store.wf(),
    ensures
        store.blocking_count(p) == 0 <==> children_complete(store@, p),
{
    lemma_children_complete(store.state.seq(), p);
}

/// Each task of a store is stored under its own id.
pub proof fn law_tasks_under_own_id(store: MemJobStore, id: TaskId)
    requires
        store.wf(),
    ensures
        store@.contains_key(id) ==> store@[id].short.id == id,
{
    lemma_task_map(store.state.seq());
    if store@.contains_key(id) {
        let s = store.state.seq();
        let i = choose|i: int| 0 <= i < s.len() && s[i].short.id == id;
        assert(task_map(s).contains_key(s[i].short.id));
    }
}

/// A step advances a task by exactly one: it takes the status and the message
/// that the step asks for, whatever the status, is stamped with the time of the
/// step, counts one more step, and adds the time of the step to the running
/// time; its id, its parent and its creation time stay.
pub proof fn law_step_fields(
    t: ShortStoredTaskView,
    status: TaskStatus,
    status_message: Option<Seq<char>>,
    step_time: int,
    now: Instant,
)
    requires
        t.step_count < u32::MAX,
    ensures
        ({
            let u = stepped(t, status, status_message, step_time, now);
            &&& u.id == t.id
            &&& u.parent == t.parent
            &&& u.created_at == t.created_at
            &&& u.status == status
            &&& u.status_message == status_message
            &&& u.advanced_at == now
            &&& u.step_count == t.step_count + 1
            &&& u.running_time == t.running_time + step_time
        }),
{
}

/// A task that has a child which has not completed does not run.
pub proof fn law_child_blocks_parent(m: Map<TaskId, StoredTaskView>, child: TaskId, p: TaskId)
    requires
        m.contains_key(child),
        m[child].short.parent == Some(p),
        m[child].short.status != TaskStatus::Complete,
    ensures
        !runnable(m, p),
{
    assert(m.contains_key(child));
}

/// Once its last uncompleted child completes, a running task may run again.
pub proof fn law_last_child_completes(
    m: Map<TaskId, StoredTaskView>,
    child: TaskId,
    done: StoredTaskView,
    p: TaskId,
)
    requires
        m.contains_key(p),
        m[p].short.status == TaskStatus::Running,
        p != child,
        done.short.status == TaskStatus::Complete,
        forall|c: TaskId|
            #[trigger] m.contains_key(c) && c != child && m[c].short.parent == Some(p)
                ==> m[c].short.status == TaskStatus::Complete,
    ensures
        runnable(m.insert(child, done), p),
{
    let m2 = m.insert(child, done);
    assert forall|c: TaskId| #[trigger] m2.contains_key(c) && m2[c].short.parent == Some(p) implies m2[c].short.status
        == TaskStatus::Complete by {
        if c != child {
            assert(m.contains_key(c));
        }
    }
}

/// Reading a task back after it was written gives what was written.
pub proof fn law_read_after_write(m: Map<TaskId, StoredTaskView>, id: TaskId, t: StoredTaskView, other: TaskId)
    ensures
        m.insert(id, t).contains_key(id),
        m.insert(id, t)[id] == t,
        other != id ==> (m.insert(id, t).contains_key(other) == m.contains_key(other)),
        other != id && m.contains_key(other) ==> m.insert(id, t)[other] == m[other],
{
}

/// Only a running task can be advanced: a task that completed, failed or was
/// stopped keeps its status forever.
pub proof fn law_final_status_is_final(from: TaskStatus, to: TaskStatus)
    requires
        !(from is Running),
    ensures
        !transition_allowed(from, to),
{
}


/// A running task may move to any status, including staying running.
pub proof fn law_running_moves_anywhere(to: TaskStatus)
    ensures
        transition_allowed(TaskStatus::Running, to),
{
}

/// A new task is running, has taken no step and has no message; it was
/// created and last advanced at the same instant, and has run for no time.
pub proof fn law_new_task_fields(id: TaskId, parent: Option<TaskId>, now: Instant)
    ensures
        ({
            let t = created_task(id, parent, now);
            &&& t.id == id
            &&& t.parent == parent
            &&& t.status == TaskStatus::Running
            &&& t.status_message is None
            &&& t.created_at == now
            &&& t.advanced_at == now
            &&& t.step_count == 0
            &&& t.running_time == 0
        }),
{
}

/// The run order puts the least recently advanced task first, and breaks ties
/// by the greater id: it is a strict order, total on tasks with distinct ids.
pub proof fn law_run_order(a: ShortStoredTaskView, b: ShortStoredTaskView)
    ensures
        a.advanced_at < b.advanced_at ==> runs_before(a, b),
        runs_before(a, b) ==> a.advanced_at <= b.advanced_at,
        !runs_before(a, a),
        runs_before(a, b) ==> !runs_before(b, a),
        a.id.uuid != b.id.uuid ==> runs_before(a, b) || runs_before(b, a),
        a.advanced_at == b.advanced_at && a.id.uuid > b.id.uuid ==> runs_before(a, b),
{
}

} // verus!
