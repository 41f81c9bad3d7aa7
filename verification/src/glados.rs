//! The decisions of the task supervisor: which tasks are active, when new tasks are refused,
//! which task a completion notice removes, and when the supervisor stops.
//!
//! The supervisor runs as a loop: it asks `should_stop`, waits for the next message, turns it
//! into a `GladosEvent` and hands it to `Glados::step`, then carries out the `GladosAction`
//! it gets back (answering the task, joining it, cancelling or aborting the active tasks).

use vstd::prelude::*;

verus! {

/// A fresh random identifier for a task: a version-4 UUID, as a number (the version nibble is
/// 4 and the variant bits are `10`).
pub fn new_task_id() -> (id: u128)
    ensures
        (id >> 76u128) & 0xfu128 == 4,
        (id >> 62u128) & 0x3u128 == 2,
{
    crate::hermes::random_v4_id()
}

/// A task under supervision: its identifier and the handle the runtime gave for it.
pub struct ActiveTask<H> {
    pub id: u128,
    pub handle: H,
}

/// Why a task was not added.
#[derive(Debug, Clone, Copy, PartialEq, Eq)]
pub enum AddTaskError {
    /// A graceful shutdown has begun; no new tasks are accepted.
    ShutdownInProgress,
}

/// Errors that end the supervisor loop.
#[derive(Debug, Clone, PartialEq, Eq)]
pub enum GladosInternalError {
    /// A completion notice named a task that is not active.
    TaskNotFound,
    AlreadyExists,
    /// Sending on the supervisor channel failed; the text describes the failure.
    SendError(String),
    /// Answering a task's start request failed; the text describes the failure.
    OneShotSendError(String),
    /// Joining a finished task failed; the text describes the failure.
    JoinError(String),
    /// Every sender of the supervisor channel is gone.
    ChannelClosed,
}

/// How a task runs.
#[derive(Debug, Clone, Copy, PartialEq, Eq)]
pub enum TaskKind {
    Async,
    _Blocking,
    OSThread,
}

/// What the supervisor loop received.
pub enum GladosEvent<H> {
    /// A task asks to be added.
    AddTask { id: u128, handle: H },
    /// The task with this id has finished.
    RemoveTask(u128),
    GracefulShutdown,
    ForcedShutdown,
    /// The channel closed: no more messages will come.
    ChannelClosed,
}

/// What the supervisor loop must do after a step.
pub enum GladosAction<H> {
    /// Answer the task's start request with this result.
    RespondAdd(Result<u128, AddTaskError>),
    /// Wait for this finished task.
    Join(ActiveTask<H>),
    /// Cancel every active task; the loop goes on.
    CancelAll,
    /// Abort every active task, then leave the loop without error.
    AbortAllAndStop,
    /// Leave the loop with this error.
    Fail(GladosInternalError),
}

/// The supervisor state as a mathematical value.
pub ghost struct GladosView<H> {
    pub tasks: Seq<ActiveTask<H>>,
    pub graceful_shutdown: bool,
    pub channel_capacity: usize,
}

/// The position of the first task with identifier `id`, if any.
pub open spec fn first_index_of<H>(tasks: Seq<ActiveTask<H>>, id: u128) -> Option<int> {
    if exists|i: int| 0 <= i < tasks.len() && tasks[i].id == id {
        Some(
            choose|i: int|
                0 <= i < tasks.len() && tasks[i].id == id && forall|j: int|
                    0 <= j < i ==> tasks[j].id != id,
        )
    } else {
        None
    }
}

/// `tasks` without its element at `i`, the last element taking its place.
pub open spec fn swap_removed<A>(s: Seq<A>, i: int) -> Seq<A> {
    s.update(i, s.last()).drop_last()
}

/// The identifiers of `tasks`, in order.
pub open spec fn task_ids<H>(tasks: Seq<ActiveTask<H>>) -> Seq<u128> {
    tasks.map_values(|t: ActiveTask<H>| t.id)
}

impl<H> GladosView<H> {
    /// The loop stops once a graceful shutdown has begun and no task is left.
    pub open spec fn should_stop(self) -> bool {
        self.graceful_shutdown && self.tasks.len() == 0
    }

    /// The state after the event and the action it calls for.
    pub open spec fn step(self, event: GladosEvent<H>) -> (GladosView<H>, GladosAction<H>) {
        match event {
            GladosEvent::AddTask { id, handle } => {
                if self.graceful_shutdown {
                    (self, GladosAction::RespondAdd(Err(AddTaskError::ShutdownInProgress)))
                } else {
                    (
                        GladosView {
                            tasks: self.tasks.push(ActiveTask { id, handle }),
                            ..self
                        },
                        GladosAction::RespondAdd(Ok(id)),
                    )
                }
            },
            GladosEvent::RemoveTask(id) => match first_index_of(self.tasks, id) {
                Some(i) => (
                    GladosView { tasks: swap_removed(self.tasks, i), ..self },
                    GladosAction::Join(self.tasks[i]),
                ),
                None => (self, GladosAction::Fail(GladosInternalError::TaskNotFound)),
            },
            GladosEvent::GracefulShutdown => (
                GladosView { graceful_shutdown: true, ..self },
                GladosAction::CancelAll,
            ),
            GladosEvent::ForcedShutdown => (self, GladosAction::AbortAllAndStop),
            GladosEvent::ChannelClosed => (
                self,
                GladosAction::Fail(GladosInternalError::ChannelClosed),
            ),
        }
    }
}

/// The task supervisor.
pub struct Glados<H> {
    active_tasks: Vec<ActiveTask<H>>,
    channel_capacity: usize,
    graceful_shutdown: bool,
}

impl<H> View for Glados<H> {
    type V = GladosView<H>;

    closed spec fn view(&self) -> GladosView<H> {
        GladosView {
            tasks: self.active_tasks@,
            graceful_shutdown: self.graceful_shutdown,
            channel_capacity: self.channel_capacity,
        }
    }
}

impl<H> Glados<H> {
    /// A supervisor with no tasks, whose channel will hold `channel_capacity` messages.
    pub fn new(channel_capacity: usize) -> (g: Self)
        ensures
            g@.tasks == Seq::<ActiveTask<H>>::empty(),
            !g@.graceful_shutdown,
            g@.channel_capacity == channel_capacity,
    {
        Glados { active_tasks: Vec::new(), channel_capacity, graceful_shutdown: false }
    }

    pub fn channel_capacity(&self) -> (c: usize)
        ensures
            c == self@.channel_capacity,
    {
        self.channel_capacity
    }

    /// The active tasks, oldest first except where removals moved the last one forward.
    pub fn active_tasks(&self) -> (t: &Vec<ActiveTask<H>>)
        ensures
            t@ == self@.tasks,
    {
        &self.active_tasks
    }

    /// Mutable access to the handles of the active tasks (for cancelling or aborting them).
    pub fn active_tasks_mut(&mut self) -> (t: &mut Vec<ActiveTask<H>>)
        ensures
            t@ == old(self)@.tasks,
            final(self)@ == (GladosView { tasks: final(t)@, ..old(self)@ }),
    {
        &mut self.active_tasks
    }

    pub fn is_shutting_down(&self) -> (b: bool)
        ensures
            b == self@.graceful_shutdown,
    {
        self.graceful_shutdown
    }

    /// Whether the loop must stop before waiting for another message.
    pub fn should_stop(&self) -> (b: bool)
        ensures
            b == self@.should_stop(),
    {
        self.graceful_shutdown && self.active_tasks.len() == 0
    }

    fn find_task(&self, id: u128) -> (r: Option<usize>)
        ensures
            match r {
                Some(i) => i < self@.tasks.len() && first_index_of(self@.tasks, id) == Some(i as int),
                None => first_index_of(self@.tasks, id) is None,
            },
    {
        let mut i: usize = 0;
        while i < self.active_tasks.len()
            invariant
                i <= self.active_tasks@.len(),
                forall|j: int| 0 <= j < i ==> self.active_tasks@[j].id != id,
            decreases self.active_tasks@.len() - i,
        {
            if self.active_tasks[i].id == id {
                proof {
                    let tasks = self@.tasks;
                    assert(0 <= i < tasks.len() && tasks[i as int].id == id);
                    let k = choose|k: int|
                        0 <= k < tasks.len() && tasks[k].id == id && forall|j: int|
                            0 <= j < k ==> tasks[j].id != id;
                    assert(k == i) by {
                        if k < i {
                            assert(tasks[k].id != id);
                        }
                        if k > i {
                            assert(tasks[i as int].id != id);
                        }
                    }
                }
                return Some(i);
            }
            i = i + 1;
        }
        None
    }

    /// Applies one event to the supervisor state and returns the action it calls for.
    pub fn step(&mut self, event: GladosEvent<H>) -> (action: GladosAction<H>)
        ensures
            (final(self)@, action) == old(self)@.step(event),
    {
        match event {
            GladosEvent::AddTask { id, handle } => {
                if self.graceful_shutdown {
                    GladosAction::RespondAdd(Err(AddTaskError::ShutdownInProgress))
                } else {
                    self.active_tasks.push(ActiveTask { id, handle });
                    GladosAction::RespondAdd(Ok(id))
                }
            },
            GladosEvent::RemoveTask(id) => {
                match self.find_task(id) {
                    Some(i) => {
                        let task = self.active_tasks.swap_remove(i);
                        proof {
                            assert(self.active_tasks@ =~= swap_removed(old(self)@.tasks, i as int));
                        }
                        GladosAction::Join(task)
                    },
                    None => GladosAction::Fail(GladosInternalError::TaskNotFound),
                }
            },
            GladosEvent::GracefulShutdown => {
                self.graceful_shutdown = true;
                GladosAction::CancelAll
            },
            GladosEvent::ForcedShutdown => GladosAction::AbortAllAndStop,
            GladosEvent::ChannelClosed => GladosAction::Fail(GladosInternalError::ChannelClosed),
        }
    }
}

proof fn lemma_first_index_of<H>(tasks: Seq<ActiveTask<H>>, id: u128)
    ensures
        match first_index_of(tasks, id) {
            Some(i) => 0 <= i < tasks.len() && tasks[i].id == id && forall|j: int|
                0 <= j < i ==> tasks[j].id != id,
            None => forall|j: int| 0 <= j < tasks.len() ==> tasks[j].id != id,
        },
{
    if exists|i: int| 0 <= i < tasks.len() && tasks[i].id == id {
        let w = choose|i: int| 0 <= i < tasks.len() && tasks[i].id == id;
        lemma_least_index(tasks, id, w);
    }
}

proof fn lemma_least_index<H>(tasks: Seq<ActiveTask<H>>, id: u128, w: int)
    requires
        0 <= w < tasks.len(),
        tasks[w].id == id,
    ensures
        exists|i: int|
            0 <= i < tasks.len() && tasks[i].id == id && forall|j: int|
                0 <= j < i ==> tasks[j].id != id,
    decreases w,
{
    if exists|j: int| 0 <= j < w && tasks[j].id == id {
        let j = choose|j: int| 0 <= j < w && tasks[j].id == id;
        lemma_least_index(tasks, id, j);
    } else {
        assert(forall|j: int| 0 <= j < w ==> tasks[j].id != id);
    }
}

/// Once a graceful shutdown has begun it is never undone, and from then on no task is added.
pub proof fn law_shutdown_is_permanent<H>(v: GladosView<H>, event: GladosEvent<H>)
    requires
        v.graceful_shutdown,
    ensures
        v.step(event).0.graceful_shutdown,
        v.step(event).0.tasks.len() <= v.tasks.len(),
        event is AddTask ==> v.step(event).1 == GladosAction::<H>::RespondAdd(
            Err(AddTaskError::ShutdownInProgress),
        ),
{
    if let GladosEvent::RemoveTask(id) = event {
        lemma_first_index_of(v.tasks, id);
    }
}

/// Adding a task and then receiving its completion notice joins that very task and leaves the
/// active tasks as they were, provided no active task had its id.
pub proof fn law_remove_undoes_add<H>(v: GladosView<H>, id: u128, handle: H)
    requires
        !v.graceful_shutdown,
        !task_ids(v.tasks).contains(id),
    ensures
        v.step(GladosEvent::AddTask { id, handle }).1 == GladosAction::<H>::RespondAdd(Ok(id)),
        v.step(GladosEvent::AddTask { id, handle }).0.step(GladosEvent::RemoveTask(id)) == (
            v,
            GladosAction::Join(ActiveTask { id, handle }),
        ),
{
    let w = v.step(GladosEvent::AddTask { id, handle }).0;
    let n = v.tasks.len() as int;
    assert forall|j: int| 0 <= j < n implies v.tasks[j].id != id by {
        if v.tasks[j].id == id {
            assert(task_ids(v.tasks)[j] == id);
        }
    }
    assert(w.tasks[n].id == id);
    assert(first_index_of(w.tasks, id) == Some(n));
    assert(swap_removed(w.tasks, n) =~= v.tasks);
}

/// A completion notice for an id no active task has ends the loop with `TaskNotFound` and
/// changes nothing.
pub proof fn law_remove_unknown_fails<H>(v: GladosView<H>, id: u128)
    requires
        !task_ids(v.tasks).contains(id),
    ensures
        v.step(GladosEvent::RemoveTask(id)) == (
            v,
            GladosAction::<H>::Fail(GladosInternalError::TaskNotFound),
        ),
{
    if exists|i: int| 0 <= i < v.tasks.len() && v.tasks[i].id == id {
        let i = choose|i: int| 0 <= i < v.tasks.len() && v.tasks[i].id == id;
        assert(task_ids(v.tasks)[i] == id);
    }
    lemma_first_index_of(v.tasks, id);
}

/// A completion notice removes exactly one task with that id: one task fewer, and every other
/// active task is still active.
pub proof fn law_remove_keeps_others<H>(v: GladosView<H>, id: u128)
    requires
        task_ids(v.tasks).contains(id),
    ensures
        v.step(GladosEvent::RemoveTask(id)).1 is Join,
        v.step(GladosEvent::RemoveTask(id)).1->Join_0.id == id,
        v.step(GladosEvent::RemoveTask(id)).0.tasks.len() == v.tasks.len() - 1,
        forall|j: int|
            0 <= j < v.tasks.len() && j != first_index_of(v.tasks, id)->Some_0
                ==> v.step(GladosEvent::RemoveTask(id)).0.tasks.contains(#[trigger] v.tasks[j]),
{
    let k = choose|k: int| 0 <= k < task_ids(v.tasks).len() && task_ids(v.tasks)[k] == id;
    assert(v.tasks[k].id == id);
    lemma_first_index_of(v.tasks, id);
    let i = first_index_of(v.tasks, id)->Some_0;
    let t = swap_removed(v.tasks, i);
    let n = v.tasks.len() as int;
    assert forall|j: int| 0 <= j < n && j != i implies t.contains(#[trigger] v.tasks[j]) by {
        if j == n - 1 {
            assert(t[i] == v.tasks[j]);
        } else {
            assert(t[j] == v.tasks[j]);
        }
    }
}

/// The loop stops exactly when a graceful shutdown has begun and every task has finished.
pub proof fn law_stop_condition<H>(v: GladosView<H>)
    ensures
        v.should_stop() <==> (v.graceful_shutdown && v.tasks.len() == 0),
{
}

} // verus!
