//! Task records and their state machine.
//!
//! A task is one unit of work: a target plugin name and an opaque JSON
//! payload. Its record moves through exactly the sequence
//! `New -> InProgress -> Done`; no other transition is legal. The step
//! relation and the lemmas below pin that down: a record's state never
//! regresses and never skips `InProgress`, and the input it was submitted
//! with is carried unchanged into every later state.

use vstd::prelude::*;

verus! {

/// What a task is submitted with: the target plugin's name and the opaque
/// JSON payload handed to it. Immutable once submitted.
pub struct TaskInput {
    pub module: String,
    pub data: serde_json::Value,
}

/// What a finished task produced: either a JSON value or an error message.
/// A plugin-reported failure and a marshalling failure both surface here
/// as the error string.
pub type TaskResult = Result<serde_json::Value, String>;

/// A finished task: the input it ran with and the result it produced.
pub struct TaskOutput {
    pub input: TaskInput,
    pub result: TaskResult,
}

/// The state of one task record.
pub enum TaskState {
    /// Accepted, not yet started.
    New(TaskInput),
    /// Dispatched to a plugin, execution underway.
    InProgress(TaskInput),
    /// Execution finished, result recorded.
    Done(TaskOutput),
}

impl Clone for TaskInput {
    fn clone(&self) -> (r: Self)
        ensures
            r == *self,
    {
        TaskInput { module: self.module.clone(), data: crate::jsonio::clone_value(&self.data) }
    }
}

impl Clone for TaskOutput {
    fn clone(&self) -> (r: Self)
        ensures
            r == *self,
    {
        let result = match &self.result {
            Ok(v) => Ok(crate::jsonio::clone_value(v)),
            Err(e) => Err(e.clone()),
        };
        TaskOutput { input: self.input.clone(), result }
    }
}

impl Clone for TaskState {
    fn clone(&self) -> (r: Self)
        ensures
            r == *self,
    {
        match self {
            TaskState::New(i) => TaskState::New(i.clone()),
            TaskState::InProgress(i) => TaskState::InProgress(i.clone()),
            TaskState::Done(o) => TaskState::Done(o.clone()),
        }
    }
}

/// The input a record in any state was submitted with.
pub open spec fn input_of(s: TaskState) -> TaskInput {
    match s {
        TaskState::New(i) => i,
        TaskState::InProgress(i) => i,
        TaskState::Done(o) => o.input,
    }
}

/// How far along the `New -> InProgress -> Done` sequence a record is.
pub open spec fn rank_of(s: TaskState) -> int {
    match s {
        TaskState::New(_) => 0,
        TaskState::InProgress(_) => 1,
        TaskState::Done(_) => 2,
    }
}

/// The one-step transition relation of a record: creation, dispatch, or
/// completion. `pre` is the record before the step (`None` for a key not
/// yet used), `post` the record after it.
pub open spec fn task_step_ok(pre: Option<TaskState>, post: TaskState) -> bool {
    match pre {
        None => post is New,
        Some(p) => match p {
            TaskState::New(i) => post == TaskState::InProgress(i),
            TaskState::InProgress(i) => post matches TaskState::Done(o) && o.input == i,
            TaskState::Done(_) => false,
        },
    }
}

/// A record's state never regresses and never skips a state: every legal
/// step advances the rank by exactly one and keeps the submitted input,
/// so the states observed for one identifier over time form a prefix of
/// `New, InProgress, Done`.
pub proof fn lemma_task_steps_form_prefix(pre: TaskState, post: TaskState)
    requires
        task_step_ok(Some(pre), post),
    ensures
        rank_of(post) == rank_of(pre) + 1,
        input_of(post) == input_of(pre),
{
}

/// From `New`, a record reaches `Done` only through `InProgress`: the
/// first step dispatches, the second completes, and the submitted input
/// survives both.
pub proof fn lemma_new_reaches_done_through_in_progress(a: TaskState, b: TaskState, c: TaskState)
    requires
        a is New,
        task_step_ok(Some(a), b),
        task_step_ok(Some(b), c),
    ensures
        b is InProgress,
        c is Done,
        input_of(c) == input_of(a),
{
}

/// A record that is done never changes again: no step leaves `Done`.
pub proof fn lemma_done_is_final(pre: TaskState, post: TaskState)
    requires
        pre is Done,
    ensures
        !task_step_ok(Some(pre), post),
{
}

} // verus!
