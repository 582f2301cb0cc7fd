//! The task engine.
//!
//! The engine owns the task store and the plugin registry and drives every
//! record through `New -> InProgress -> Done`. Execution of one task is a
//! pair of calls: `execute_begin` marks the record in progress, resolves
//! the target plugin and hands the host the encoded payload; once the host
//! has performed the foreign call and decoded the response, `execute_finish`
//! (or `execute_finish_unknown`, when the plugin was not registered)
//! records the outcome. Between the two calls the engine counts the
//! execution as an in-flight reader of the registry.
//!
//! Reloading the registry demands that no execution is in flight
//! (`readers == 0`): this is the shared/exclusive gate of the design. The
//! host's lock makes a reload wait for that condition; the contracts here
//! make it impossible to interleave a reload with an execution that has
//! begun and not finished. A steady stream of executions may therefore
//! delay a reload indefinitely; that is an accepted trade-off, not a
//! defect, as no fairness mechanism is promised.

use vstd::prelude::*;
use vstd::pervasive::unreached;
use vstd::string::StringExecFns;
use crate::marshal;
use crate::registry::Registry;
use crate::store::MemoryDb;
use crate::task::input_of;
use crate::task::task_step_ok;
use crate::task::TaskInput;
use crate::task::TaskOutput;
use crate::task::TaskResult;
use crate::task::TaskState;

verus! {

pub struct Engine {
    store: MemoryDb<TaskState>,
    registry: Registry,
    readers: u64,
}

/// The engine's abstract state: the task records, the next fresh
/// identifier, the registered plugin names, and the number of in-flight
/// executions holding the registry.
#[verifier::ext_equal]
pub struct EngineModel {
    pub tasks: Map<u64, TaskState>,
    pub next_id: u64,
    pub plugins: Seq<Seq<char>>,
    pub readers: u64,
}

impl View for Engine {
    type V = EngineModel;

    closed spec fn view(&self) -> EngineModel {
        EngineModel {
            tasks: self.store.map(),
            next_id: self.store.next(),
            plugins: self.registry.names_seq(),
            readers: self.readers,
        }
    }
}

impl Engine {
    /// The engine's internal invariant: the store's bookkeeping holds,
    /// the registry carries no duplicate name, and every stored
    /// identifier was generated, i.e. lies below the counter.
    pub closed spec fn wf(&self) -> bool {
        &&& self.store.wf()
        &&& self.registry.wf()
        &&& forall|k: u64|
            #[trigger] self.store.map().contains_key(k) ==> k < self.store.next()
    }
}

/// Every stored identifier lies below the fresh-identifier counter, so
/// the next generated identifier is never an existing key.
pub open spec fn model_inv(m: EngineModel) -> bool {
    forall|k: u64| #[trigger] m.tasks.contains_key(k) ==> k < m.next_id
}

/// What `submit` does: store the input as a `New` record under the next
/// fresh identifier and advance the counter.
pub open spec fn submit_step(m: EngineModel, input: TaskInput) -> EngineModel {
    EngineModel {
        tasks: m.tasks.insert(m.next_id, TaskState::New(input)),
        next_id: (m.next_id + 1) as u64,
        ..m
    }
}

/// What `execute_begin` does: move the record from `New` to `InProgress`,
/// take a shared hold on the registry, and decide the dispatch: a call
/// exactly when the record's module is registered, handing out the
/// module's name and the payload's JSON text encoded as a wire buffer.
pub open spec fn begin_rel(m: EngineModel, m2: EngineModel, id: u64, d: Dispatch) -> bool {
    let input = input_of(m.tasks[id]);
    &&& m2.tasks == m.tasks.insert(id, TaskState::InProgress(input))
    &&& m2.next_id == m.next_id
    &&& m2.plugins == m.plugins
    &&& m2.readers == m.readers + 1
    &&& (d is Call <==> m.plugins.contains(input.module@))
    &&& (d matches Dispatch::Call { module, wire } ==> module@ == input.module@
        && wire@ == marshal::strip_nulls(crate::jsonio::json_text_of(input.data)).push('\0'))
}

/// What `execute_finish` does: move the record from `InProgress` to
/// `Done` carrying the given result, and release the shared hold.
pub open spec fn finish_rel(m: EngineModel, m2: EngineModel, id: u64, result: TaskResult) -> bool {
    let input = input_of(m.tasks[id]);
    &&& m2.tasks == m.tasks.insert(
        id,
        TaskState::Done(TaskOutput { input, result }),
    )
    &&& m2.next_id == m.next_id
    &&& m2.plugins == m.plugins
    &&& m2.readers == m.readers - 1
}

/// What `execute_finish_unknown` does: complete the record as `Done` with
/// the error naming the unregistered module, touching no other record,
/// and release the shared hold.
pub open spec fn finish_unknown_rel(m: EngineModel, m2: EngineModel, id: u64) -> bool {
    let input = input_of(m.tasks[id]);
    &&& m2.tasks.dom() == m.tasks.dom()
    &&& m2.tasks[id] matches TaskState::Done(o) && o.input == input && (o.result matches Err(e)
        && e@ == unknown_msg(input.module@))
    &&& agrees_except(m.tasks, m2.tasks, id)
    &&& m2.next_id == m.next_id
    &&& m2.plugins == m.plugins
    &&& m2.readers == m.readers - 1
}

/// What `reload_plugins` does: replace the registered name set with
/// exactly the given names, leaving every task record, the identifier
/// counter and the reader count untouched.
pub open spec fn reload_rel(m: EngineModel, m2: EngineModel, names: Seq<Seq<char>>) -> bool {
    &&& m2.tasks == m.tasks
    &&& m2.next_id == m.next_id
    &&& m2.readers == m.readers
    &&& forall|n: Seq<char>| #[trigger] m2.plugins.contains(n) <==> names.contains(n)
}

/// A reload may proceed only while no execution is in flight.
pub open spec fn reload_enabled(m: EngineModel) -> bool {
    m.readers == 0
}

/// The two maps agree on every key other than `id`.
pub open spec fn agrees_except(a: Map<u64, TaskState>, b: Map<u64, TaskState>, id: u64) -> bool {
    forall|k: u64|
        k != id && #[trigger] a.contains_key(k) ==> b.contains_key(k) && b[k] == a[k]
}

/// The error recorded for a task whose target plugin is not registered,
/// naming that plugin.
pub open spec fn unknown_msg(m: Seq<char>) -> Seq<char> {
    "Unknown plugin '"@ + m + "'"@
}

/// What `execute_begin` hands the host: either the name of the registered
/// target plugin together with the payload encoded for the boundary, or
/// the finding that no plugin of the record's module name is registered.
pub enum Dispatch {
    Call { module: String, wire: Vec<char> },
    Unknown,
}

impl Engine {
    /// A fresh engine with the given plugin names registered and no tasks.
    pub fn new(plugin_names: Vec<String>) -> (r: Engine)
        ensures
            r.wf(),
            r@.tasks == Map::<u64, TaskState>::empty(),
            r@.next_id == 0,
            r@.readers == 0,
            forall|n: Seq<char>|
                #[trigger] r@.plugins.contains(n) <==> plugin_names@.map_values(
                    |s: String| s@,
                ).contains(n),
    {
        let mut registry = Registry::new();
        registry.install(plugin_names);
        let r = Engine { store: MemoryDb::new(), registry, readers: 0 };
        proof {
            assert forall|n: Seq<char>|
                #[trigger] r@.plugins.contains(n) <==> plugin_names@.map_values(
                    |s: String| s@,
                ).contains(n) by {
                assert(r.registry.has_name(n) <==> plugin_names@.map_values(
                    |s: String| s@,
                ).contains(n));
            }
        }
        r
    }

    /// Accept a task: store it as `New` under a fresh identifier and
    /// return that identifier at once; execution happens later, driven by
    /// the host's scheduler. The identifier is strictly greater than
    /// every identifier returned before and was never a key of the store.
    pub fn submit(&mut self, input: TaskInput) -> (id: u64)
        requires
            old(self).wf(),
            old(self)@.next_id < u64::MAX,
        ensures
            final(self).wf(),
            id == old(self)@.next_id,
            !old(self)@.tasks.contains_key(id),
            final(self)@ == submit_step(old(self)@, input),
    {
        let id = self.store.generate_id();
        let _prev = self.store.insert(id, TaskState::New(input));
        proof {
            assert(self@ =~= submit_step(old(self)@, input));
        }
        id
    }

    /// Start executing the task: require it `New`, mark it `InProgress`,
    /// take a shared hold on the registry, and resolve its module name.
    pub fn execute_begin(&mut self, id: u64) -> (d: Dispatch)
        requires
            old(self).wf(),
            old(self)@.tasks.contains_key(id),
            old(self)@.tasks[id] is New,
            old(self)@.readers < u64::MAX,
        ensures
            final(self).wf(),
            begin_rel(old(self)@, final(self)@, id, d),
    {
        let rec = self.store.delete(id);
        match rec {
            Some(TaskState::New(input)) => {
                let registered = self.registry.lookup(&input.module);
                let d = if registered {
                    let wire = marshal::json_to_c_str(&input.data);
                    Dispatch::Call { module: input.module.clone(), wire }
                } else {
                    Dispatch::Unknown
                };
                let _prev = self.store.insert(id, TaskState::InProgress(input));
                self.readers = self.readers + 1;
                proof {
                    assert(self@.tasks =~= old(self)@.tasks.insert(
                        id,
                        TaskState::InProgress(input_of(old(self)@.tasks[id])),
                    ));
                }
                d
            },
            _ => unreached(),
        }
    }

    /// Record the outcome of the foreign call for a task `InProgress` and
    /// release the shared hold on the registry.
    pub fn execute_finish(&mut self, id: u64, result: TaskResult)
        requires
            old(self).wf(),
            old(self)@.tasks.contains_key(id),
            old(self)@.tasks[id] is InProgress,
            old(self)@.readers >= 1,
        ensures
            final(self).wf(),
            finish_rel(old(self)@, final(self)@, id, result),
    {
        let rec = self.store.delete(id);
        match rec {
            Some(TaskState::InProgress(input)) => {
                let _prev = self.store.insert(id, TaskState::Done(TaskOutput { input, result }));
                self.readers = self.readers - 1;
                proof {
                    assert(self@.tasks =~= old(self)@.tasks.insert(
                        id,
                        TaskState::Done(
                            TaskOutput { input: input_of(old(self)@.tasks[id]), result },
                        ),
                    ));
                }
            },
            _ => unreached(),
        }
    }

    /// Complete a task `InProgress` whose module is not registered: a
    /// normal, reported condition, never fatal. The record becomes `Done`
    /// with the error naming the unknown plugin, and the shared hold is
    /// released.
    pub fn execute_finish_unknown(&mut self, id: u64)
        requires
            old(self).wf(),
            old(self)@.tasks.contains_key(id),
            old(self)@.tasks[id] is InProgress,
            old(self)@.readers >= 1,
        ensures
            final(self).wf(),
            finish_unknown_rel(old(self)@, final(self)@, id),
    {
        let rec = self.store.delete(id);
        match rec {
            Some(TaskState::InProgress(input)) => {
                let msg = unknown_plugin_error(&input.module);
                let _prev = self.store.insert(
                    id,
                    TaskState::Done(TaskOutput { input, result: Err(msg) }),
                );
                self.readers = self.readers - 1;
                proof {
                    assert(self@.tasks.dom() =~= old(self)@.tasks.dom());
                }
            },
            _ => unreached(),
        }
    }

    /// Install the given plugin names as the entire new registry. Requires
    /// that no execution is in flight: the host's gate makes a reload wait
    /// until every in-flight execution has finished, so no plugin module
    /// is ever replaced under an active call.
    pub fn reload_plugins(&mut self, names: Vec<String>)
        requires
            old(self).wf(),
            reload_enabled(old(self)@),
        ensures
            final(self).wf(),
            reload_rel(old(self)@, final(self)@, names@.map_values(|s: String| s@)),
    {
        self.registry.install(names);
        proof {
            assert forall|n: Seq<char>|
                #[trigger] self@.plugins.contains(n) <==> names@.map_values(
                    |s: String| s@,
                ).contains(n) by {
                assert(self.registry.has_name(n) <==> names@.map_values(
                    |s: String| s@,
                ).contains(n));
            }
        }
    }

    /// The record stored under `id`, if any.
    pub fn get_task(&self, id: u64) -> (r: Option<&TaskState>)
        ensures
            r matches Some(v) ==> self@.tasks.contains_key(id) && *v == self@.tasks[id],
            r is None ==> !self@.tasks.contains_key(id),
    {
        self.store.get(id)
    }

    /// A point-in-time copy of every record, each exactly once.
    pub fn list_tasks(&self) -> (r: Vec<(u64, TaskState)>)
        requires
            self.wf(),
        ensures
            forall|i: int|
                0 <= i < r@.len() ==> self@.tasks.contains_key(#[trigger] r@[i].0)
                    && r@[i].1 == self@.tasks[r@[i].0],
            forall|k: u64|
                #[trigger] self@.tasks.contains_key(k) ==> exists|i: int|
                    0 <= i < r@.len() && r@[i].0 == k,
            forall|i: int, j: int| 0 <= i < j < r@.len() ==> r@[i].0 != r@[j].0,
    {
        let keys = self.store.keys_snapshot();
        let mut out: Vec<(u64, TaskState)> = Vec::new();
        let mut i: usize = 0;
        while i < keys.len()
            invariant
                self.wf(),
                keys@ == self.store.key_list(),
                0 <= i <= keys@.len(),
                out@.len() == i,
                forall|j: int| 0 <= j < i ==> (#[trigger] out@[j]).0 == keys@[j],
                forall|j: int|
                    0 <= j < i ==> self@.tasks.contains_key(#[trigger] out@[j].0)
                        && out@[j].1 == self@.tasks[out@[j].0],
            decreases keys@.len() - i,
        {
            let k = keys[i];
            proof {
                assert(self.store.key_list()[i as int] == k);
                assert(self.store.key_list().contains(k));
                self.store.lemma_keys_sound(k);
            }
            match self.store.get(k) {
                Some(v) => {
                    out.push((k, v.clone()));
                },
                None => {
                    unreached::<()>();
                },
            }
            i = i + 1;
        }
        proof {
            assert forall|k: u64| #[trigger] self@.tasks.contains_key(k) implies exists|j: int|
                0 <= j < out@.len() && out@[j].0 == k by {
                self.store.lemma_keys_complete(k);
                let j = choose|j: int| 0 <= j < keys@.len() && keys@[j] == k;
                assert(out@[j].0 == k);
            }
            self.store.lemma_keys_distinct();
        }
        out
    }

    /// The registered plugin names: complete, sorted in ascending order,
    /// each exactly once.
    pub fn list_plugin_names(&self) -> (r: Vec<String>)
        requires
            self.wf(),
        ensures
            r@.map_values(|s: String| s@) == self@.plugins,
            forall|i: int, j: int|
                0 <= i < j < r@.len() ==> crate::registry::lex_lt(r@[i]@, r@[j]@),
            forall|i: int, j: int| 0 <= i < j < r@.len() ==> r@[i]@ != r@[j]@,
    {
        self.registry.list()
    }

    /// How many executions currently hold the registry in shared mode.
    pub fn reader_count(&self) -> (r: u64)
        ensures
            r == self@.readers,
    {
        self.readers
    }

    /// The identifier the next submission will receive. A host checks it
    /// against the identifier space before submitting.
    pub fn next_task_id(&self) -> (r: u64)
        ensures
            r == self@.next_id,
    {
        self.store.peek_next_id()
    }
}

/// The engine's invariant, seen at the model: every stored identifier
/// lies below the counter, so identifiers are never reused.
pub proof fn lemma_wf_model(e: &Engine)
    requires
        e.wf(),
    ensures
        model_inv(e@),
{
}

/// Identifiers are unique: under the invariant, the identifier `submit`
/// returns is not a key of the store, and the invariant is preserved.
pub proof fn lemma_submit_id_fresh(m: EngineModel, input: TaskInput)
    requires
        model_inv(m),
        m.next_id < u64::MAX,
    ensures
        !m.tasks.contains_key(m.next_id),
        model_inv(submit_step(m, input)),
{
}

/// Identifiers strictly increase: a submit returns the counter and leaves
/// it strictly larger, so any later submit — after any interleaving of
/// operations, none of which lowers the counter — returns a strictly
/// greater identifier.
pub proof fn lemma_submit_ids_strictly_increase(
    m0: EngineModel,
    input: TaskInput,
    m1: EngineModel,
)
    requires
        m0.next_id < u64::MAX,
        m1.next_id >= submit_step(m0, input).next_id,
    ensures
        m1.next_id > m0.next_id,
{
}

/// Only `submit` advances the identifier counter; every other operation
/// leaves it unchanged, so the counter never decreases.
pub proof fn lemma_only_submit_advances_ids(
    m: EngineModel,
    m2: EngineModel,
    id: u64,
    d: Dispatch,
    result: TaskResult,
    names: Seq<Seq<char>>,
)
    ensures
        begin_rel(m, m2, id, d) ==> m2.next_id == m.next_id,
        finish_rel(m, m2, id, result) ==> m2.next_id == m.next_id,
        finish_unknown_rel(m, m2, id) ==> m2.next_id == m.next_id,
        reload_rel(m, m2, names) ==> m2.next_id == m.next_id,
{
}

/// Every operation changes the touched record by one legal step of the
/// task state machine — so, with the step lemmas of the task module, the
/// states observed for an identifier over time form a prefix of
/// `New, InProgress, Done`.
pub proof fn lemma_ops_are_legal_steps(
    m: EngineModel,
    m2: EngineModel,
    id: u64,
    input: TaskInput,
    d: Dispatch,
    result: TaskResult,
)
    ensures
        model_inv(m) && m.next_id < u64::MAX ==> task_step_ok(
            None,
            submit_step(m, input).tasks[m.next_id],
        ),
        m.tasks.contains_key(id) && m.tasks[id] is New && begin_rel(m, m2, id, d)
            ==> task_step_ok(Some(m.tasks[id]), m2.tasks[id]),
        m.tasks.contains_key(id) && m.tasks[id] is InProgress && finish_rel(m, m2, id, result)
            ==> task_step_ok(Some(m.tasks[id]), m2.tasks[id]),
        m.tasks.contains_key(id) && m.tasks[id] is InProgress && finish_unknown_rel(m, m2, id)
            ==> task_step_ok(Some(m.tasks[id]), m2.tasks[id]),
{
}

/// A task aimed at an unregistered plugin never sticks: beginning it
/// finds no plugin, and completing it records `Done` with the error
/// naming exactly that plugin.
pub proof fn lemma_unknown_plugin_completes(
    m0: EngineModel,
    m1: EngineModel,
    m2: EngineModel,
    id: u64,
    d: Dispatch,
)
    requires
        m0.tasks.contains_key(id),
        m0.tasks[id] is New,
        !m0.plugins.contains(input_of(m0.tasks[id]).module@),
        begin_rel(m0, m1, id, d),
        finish_unknown_rel(m1, m2, id),
    ensures
        d is Unknown,
        m2.tasks.contains_key(id),
        m2.tasks[id] matches TaskState::Done(o) && o.input == input_of(m0.tasks[id]) && (
        o.result matches Err(e) && e@ == unknown_msg(input_of(m0.tasks[id]).module@)),
{
    assert(m1.tasks[id] == TaskState::InProgress(input_of(m0.tasks[id])));
    assert(m1.tasks.contains_key(id));
    assert(m2.tasks.dom() == m1.tasks.dom());
}

/// An execution that begins and finishes leaves its record `Done`,
/// carrying the submitted input unchanged and exactly the result the
/// foreign call produced.
pub proof fn lemma_execution_completes(
    m0: EngineModel,
    m1: EngineModel,
    m2: EngineModel,
    id: u64,
    d: Dispatch,
    result: TaskResult,
)
    requires
        m0.tasks.contains_key(id),
        m0.tasks[id] is New,
        begin_rel(m0, m1, id, d),
        finish_rel(m1, m2, id, result),
    ensures
        m2.tasks.contains_key(id),
        m2.tasks[id] matches TaskState::Done(o) && o.input == input_of(m0.tasks[id])
            && o.result == result,
{
    assert(m1.tasks[id] == TaskState::InProgress(input_of(m0.tasks[id])));
}

/// Executions against different identifiers do not conflict: each phase
/// of an execution rewrites only its own record and leaves every other
/// record exactly as it was.
pub proof fn lemma_executions_isolated(
    m: EngineModel,
    m2: EngineModel,
    id: u64,
    d: Dispatch,
    result: TaskResult,
)
    ensures
        begin_rel(m, m2, id, d) ==> agrees_except(m.tasks, m2.tasks, id),
        finish_rel(m, m2, id, result) ==> agrees_except(m.tasks, m2.tasks, id),
        finish_unknown_rel(m, m2, id) ==> agrees_except(m.tasks, m2.tasks, id),
{
}

/// A reload cannot proceed while any execution is in flight: each
/// execution holds a reader count from begin to finish, and a reload is
/// enabled only at zero.
pub proof fn lemma_reload_waits_for_executions(m: EngineModel)
    requires
        m.readers > 0,
    ensures
        !reload_enabled(m),
{
}

/// Once a reload has installed a new name set, it is exactly the given
/// set, and the dispatch decision of every later execution is taken
/// against it alone.
pub proof fn lemma_reload_installs_new_set(
    m: EngineModel,
    m2: EngineModel,
    names: Seq<Seq<char>>,
    m3: EngineModel,
    id: u64,
    d: Dispatch,
)
    requires
        reload_rel(m, m2, names),
        m2.tasks.contains_key(id),
        m2.tasks[id] is New,
        begin_rel(m2, m3, id, d),
    ensures
        m2.tasks == m.tasks,
        forall|n: Seq<char>| #[trigger] m2.plugins.contains(n) <==> names.contains(n),
        d is Call <==> names.contains(input_of(m2.tasks[id]).module@),
{
}

/// Build the error message recorded for an unregistered module.
fn unknown_plugin_error(module: &String) -> (r: String)
    ensures
        r@ == unknown_msg(module@),
{
    let mut s = String::from_str("Unknown plugin '");
    s.append(module.as_str());
    s.append("'");
    s
}

} // verus!
