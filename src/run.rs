//! Workflow runs: the mutable record of one execution of a workflow.

use vstd::prelude::*;
use crate::action::ContextValue;
use crate::clock::now_millis;
use crate::entries::{entries_map, set_entry, Entry};
use crate::ids::{RunIdGenerator, WorkflowRunId};
use crate::workflow::{StateId, Workflow};

verus! {

/// Status of a workflow run.
#[derive(Clone, Copy, Debug, PartialEq, Eq, Structural)]
pub enum WorkflowRunStatus {
    /// The run is executing.
    Running,
    /// The run reached a terminal state.
    Completed,
    /// The run failed.
    Failed,
    /// The run was cancelled.
    Cancelled,
    /// The run is paused and may be resumed.
    Paused,
}

/// One execution of a workflow.
#[derive(Debug)]
pub struct WorkflowRun {
    /// Unique identifier of this run.
    pub id: WorkflowRunId,
    /// The workflow being executed.
    pub workflow: Workflow,
    /// The state the run is in.
    pub current_state: StateId,
    /// Every state visited, in order, with the time it was entered.
    pub history: Vec<(StateId, i64)>,
    /// Values passed between action invocations.
    pub context: Vec<Entry<ContextValue>>,
    /// The run's status.
    pub status: WorkflowRunStatus,
    /// When the run started.
    pub started_at: i64,
    /// When the run left the running status.
    pub completed_at: Option<i64>,
    /// Diagnostics.
    pub metadata: Vec<Entry<String>>,
}

/// Timestamps never decrease along a history.
pub open spec fn times_ordered(h: Seq<(StateId, i64)>) -> bool {
    forall|i: int, j: int| 0 <= i <= j < h.len() ==> (#[trigger] h[i]).1 <= (#[trigger] h[j]).1
}

/// Of every run that keeps its invariant: the history is never empty and
/// starts at the workflow's initial state, and the completion time is unset
/// exactly while the run is running.
pub proof fn lemma_run_record_facts(run: WorkflowRun)
    requires
        run.inv(),
    ensures
        run.history@.len() > 0,
        run.history@[0].0@ == run.workflow.initial_state@,
        run.history@.last().0@ == run.current_state@,
        run.completed_at is None <==> run.status == WorkflowRunStatus::Running,
{
}

impl WorkflowRun {
    /// The run's invariant: the history is never empty, starts at the
    /// workflow's initial state at the start time, ends at the current state,
    /// and its timestamps never decrease; the completion time is set exactly
    /// when the run is not running.
    pub open spec fn inv(&self) -> bool {
        &&& self.history@.len() > 0
        &&& self.history@[0].0@ == self.workflow.initial_state@
        &&& self.history@[0].1 == self.started_at
        &&& self.history@.last().0@ == self.current_state@
        &&& times_ordered(self.history@)
        &&& (self.completed_at is None <==> self.status == WorkflowRunStatus::Running)
    }

    /// Starts a run of `workflow` in the running status, with a fresh
    /// identifier, its history seeded with the initial state, and an empty
    /// context and metadata.
    pub fn new(workflow: Workflow, ids: &mut RunIdGenerator) -> (r: Self)
        requires
            old(ids).last < u128::MAX,
        ensures
            r.inv(),
            r.id.value() > old(ids).last,
            final(ids).last == r.id.value(),
            r.workflow == workflow,
            r.status == WorkflowRunStatus::Running,
            r.current_state@ == workflow.initial_state@,
            r.history@.len() == 1,
            r.history@[0].1 == r.started_at,
            r.completed_at is None,
            r.context@.len() == 0,
            r.metadata@.len() == 0,
    {
        let id = WorkflowRunId::new(ids);
        let now = now_millis();
        let initial = workflow.initial_state.duplicate();
        let mut history: Vec<(StateId, i64)> = Vec::new();
        history.push((initial.duplicate(), now));
        let metadata: Vec<Entry<String>> = Vec::new();
        let context: Vec<Entry<ContextValue>> = Vec::new();
        WorkflowRun {
            id,
            workflow,
            current_state: initial,
            history,
            context,
            status: WorkflowRunStatus::Running,
            started_at: now,
            completed_at: None,
            metadata,
        }
    }

    /// The time of the last history entry.
    pub fn last_entered_at(&self) -> (r: i64)
        requires
            self.inv(),
        ensures
            r == self.history@.last().1,
    {
        self.history[self.history.len() - 1].1
    }

    /// Records a transition to `state_id` at `now`, or at the time of the last
    /// entry if the clock went back: the history only grows, in order.
    pub fn transition_to_at(&mut self, state_id: StateId, now: i64)
        requires
            old(self).inv(),
            old(self).status == WorkflowRunStatus::Running,
        ensures
            final(self).inv(),
            final(self).history@.len() == old(self).history@.len() + 1,
            final(self).history@.drop_last() == old(self).history@,
            final(self).history@.last().0@ == state_id@,
            final(self).history@.last().1 == (if now >= old(self).history@.last().1 {
                now
            } else {
                old(self).history@.last().1
            }),
            final(self).current_state == state_id,
            final(self).id == old(self).id,
            final(self).workflow == old(self).workflow,
            final(self).context == old(self).context,
            final(self).status == old(self).status,
            final(self).started_at == old(self).started_at,
            final(self).completed_at == old(self).completed_at,
            final(self).metadata == old(self).metadata,
    {
        let last = self.last_entered_at();
        let at = if now >= last {
            now
        } else {
            last
        };
        let ghost before = self.history@;
        self.history.push((state_id.duplicate(), at));
        self.current_state = state_id;
        assert(self.history@.drop_last() =~= before);
        assert(self.history@[0] == before[0]);
        assert(times_ordered(self.history@)) by {
            assert forall|i: int, j: int| 0 <= i <= j < self.history@.len() implies (
            #[trigger] self.history@[i]).1 <= (#[trigger] self.history@[j]).1 by {
                if j < before.len() {
                    assert(self.history@[i] == before[i] && self.history@[j] == before[j]);
                } else if i < before.len() {
                    assert(self.history@[i] == before[i]);
                    assert(before[i].1 <= before[before.len() - 1].1);
                }
            }
        }
    }

    /// Records a transition to `state_id` at the current time: the new last
    /// history entry is the state, at a time no earlier than the previous one.
    pub fn transition_to(&mut self, state_id: StateId)
        requires
            old(self).inv(),
            old(self).status == WorkflowRunStatus::Running,
        ensures
            final(self).inv(),
            final(self).history@.len() == old(self).history@.len() + 1,
            final(self).history@.drop_last() == old(self).history@,
            final(self).history@.last().0@ == state_id@,
            final(self).history@.last().1 >= old(self).history@.last().1,
            final(self).current_state == state_id,
            final(self).status == old(self).status,
            final(self).completed_at == old(self).completed_at,
            final(self).context == old(self).context,
            final(self).workflow == old(self).workflow,
            final(self).id == old(self).id,
            final(self).metadata == old(self).metadata,
            final(self).started_at == old(self).started_at,
    {
        let now = now_millis();
        self.transition_to_at(state_id, now);
    }

    /// Leaves the running status for `status` at `now`, or at the time of the
    /// last history entry if the clock went back; that is the completion time.
    fn finish_at(&mut self, status: WorkflowRunStatus, now: i64)
        requires
            old(self).inv(),
            old(self).status == WorkflowRunStatus::Running,
            status != WorkflowRunStatus::Running,
        ensures
            final(self).inv(),
            final(self).status == status,
            final(self).completed_at == Some(
                if now >= old(self).history@.last().1 {
                    now
                } else {
                    old(self).history@.last().1
                },
            ),
            old(self).started_at <= old(self).history@.last().1,
            final(self).history == old(self).history,
            final(self).current_state == old(self).current_state,
            final(self).context == old(self).context,
            final(self).workflow == old(self).workflow,
            final(self).id == old(self).id,
            final(self).metadata == old(self).metadata,
            final(self).started_at == old(self).started_at,
    {
        let last = self.last_entered_at();
        assert(self.history@[0].1 <= self.history@[self.history@.len() - 1].1);
        let at = if now >= last {
            now
        } else {
            last
        };
        self.status = status;
        self.completed_at = Some(at);
    }

    /// Marks the run as completed.
    pub fn complete(&mut self)
        requires
            old(self).inv(),
            old(self).status == WorkflowRunStatus::Running,
        ensures
            final(self).inv(),
            final(self).status == WorkflowRunStatus::Completed,
            final(self).completed_at matches Some(t) && t >= old(self).history@.last().1 && t
                >= old(self).started_at,
            final(self).history == old(self).history,
            final(self).current_state == old(self).current_state,
            final(self).context == old(self).context,
            final(self).workflow == old(self).workflow,
            final(self).id == old(self).id,
            final(self).metadata == old(self).metadata,
            final(self).started_at == old(self).started_at,
    {
        let now = now_millis();
        self.finish_at(WorkflowRunStatus::Completed, now);
    }

    /// Marks the run as failed.
    pub fn fail(&mut self)
        requires
            old(self).inv(),
            old(self).status == WorkflowRunStatus::Running,
        ensures
            final(self).inv(),
            final(self).status == WorkflowRunStatus::Failed,
            final(self).completed_at matches Some(t) && t >= old(self).history@.last().1 && t
                >= old(self).started_at,
            final(self).history == old(self).history,
            final(self).current_state == old(self).current_state,
            final(self).context == old(self).context,
            final(self).workflow == old(self).workflow,
            final(self).id == old(self).id,
            final(self).metadata == old(self).metadata,
            final(self).started_at == old(self).started_at,
    {
        let now = now_millis();
        self.finish_at(WorkflowRunStatus::Failed, now);
    }

    /// Marks the run as cancelled.
    pub fn cancel(&mut self)
        requires
            old(self).inv(),
            old(self).status == WorkflowRunStatus::Running,
        ensures
            final(self).inv(),
            final(self).status == WorkflowRunStatus::Cancelled,
            final(self).completed_at matches Some(t) && t >= old(self).history@.last().1 && t
                >= old(self).started_at,
            final(self).history == old(self).history,
            final(self).current_state == old(self).current_state,
            final(self).context == old(self).context,
            final(self).workflow == old(self).workflow,
            final(self).id == old(self).id,
            final(self).metadata == old(self).metadata,
            final(self).started_at == old(self).started_at,
    {
        let now = now_millis();
        self.finish_at(WorkflowRunStatus::Cancelled, now);
    }

    /// Pauses the run.
    pub fn pause(&mut self)
        requires
            old(self).inv(),
            old(self).status == WorkflowRunStatus::Running,
        ensures
            final(self).inv(),
            final(self).status == WorkflowRunStatus::Paused,
            final(self).completed_at matches Some(t) && t >= old(self).history@.last().1 && t
                >= old(self).started_at,
            final(self).history == old(self).history,
            final(self).current_state == old(self).current_state,
            final(self).context == old(self).context,
            final(self).workflow == old(self).workflow,
            final(self).id == old(self).id,
            final(self).metadata == old(self).metadata,
            final(self).started_at == old(self).started_at,
    {
        let now = now_millis();
        self.finish_at(WorkflowRunStatus::Paused, now);
    }

    /// Resumes a paused run; it is running again, so its completion time is
    /// cleared.
    pub fn resume(&mut self)
        requires
            old(self).inv(),
            old(self).status == WorkflowRunStatus::Paused,
        ensures
            final(self).inv(),
            final(self).status == WorkflowRunStatus::Running,
            final(self).completed_at is None,
            final(self).history == old(self).history,
            final(self).current_state == old(self).current_state,
            final(self).context == old(self).context,
            final(self).workflow == old(self).workflow,
            final(self).id == old(self).id,
            final(self).metadata == old(self).metadata,
            final(self).started_at == old(self).started_at,
    {
        self.status = WorkflowRunStatus::Running;
        self.completed_at = None;
    }

    /// Sets a context variable.
    pub fn set_context(&mut self, key: String, value: ContextValue)
        requires
            old(self).inv(),
        ensures
            final(self).inv(),
            entries_map(final(self).context@) == entries_map(old(self).context@).insert(key@, value),
            final(self).history == old(self).history,
            final(self).current_state == old(self).current_state,
            final(self).status == old(self).status,
            final(self).completed_at == old(self).completed_at,
            final(self).workflow == old(self).workflow,
            final(self).metadata == old(self).metadata,
            final(self).id == old(self).id,
            final(self).started_at == old(self).started_at,
    {
        set_entry(&mut self.context, key, value);
    }

    /// Sets a metadata entry.
    pub fn set_metadata(&mut self, key: String, value: String)
        requires
            old(self).inv(),
        ensures
            final(self).inv(),
            entries_map(final(self).metadata@) == entries_map(old(self).metadata@).insert(key@, value),
            final(self).history == old(self).history,
            final(self).current_state == old(self).current_state,
            final(self).status == old(self).status,
            final(self).completed_at == old(self).completed_at,
            final(self).workflow == old(self).workflow,
            final(self).context == old(self).context,
            final(self).id == old(self).id,
            final(self).started_at == old(self).started_at,
    {
        set_entry(&mut self.metadata, key, value);
    }
}

} // verus!
