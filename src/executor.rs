//! The executor: drives a run through its workflow, one action per state,
//! until a terminal state, a fatal failure, an abort, or a state with no
//! applicable transition.

use vstd::prelude::*;
use crate::abort::{abort_message, abort_message_text};
use crate::action::{ActionResult, ContextValue};
use crate::clock::now_millis;
use crate::entries::{entries_map, set_entry, Entry};
use crate::run::{WorkflowRun, WorkflowRunStatus};
use crate::text::concat3;
use crate::workflow::{transition_applies, Workflow};

verus! {

/// Metadata key of the last classified message of a run.
pub const LAST_MESSAGE_KEY: &'static str = "last_message";

/// Metadata key of the reason a fatal failure gave.
pub const FAILURE_REASON_KEY: &'static str = "failure_reason";

/// Turns a state's declared action into an effect and reports its outcome.
pub trait ActionDispatch {
    /// Performs `action` given the run's context.
    fn dispatch(&mut self, action: &str, context: &Vec<Entry<ContextValue>>) -> ActionResult;
}

/// Tells whether the abort signal has been raised, and with what reason.
pub trait AbortProbe {
    /// The reason, when the signal is raised.
    fn poll(&mut self) -> Option<String>;
}

/// `updates` applied over `base` in order: later entries win.
pub open spec fn context_after(
    base: Map<Seq<char>, ContextValue>,
    updates: Seq<Entry<ContextValue>>,
) -> Map<Seq<char>, ContextValue> {
    base.union_prefer_right(entries_map(updates))
}

/// The history grew from `before` by nothing or by entries at its end.
pub open spec fn extends(after: Seq<(crate::workflow::StateId, i64)>, before: Seq<(crate::workflow::StateId, i64)>) -> bool {
    before.len() <= after.len() && after.subrange(0, before.len() as int) == before
}

/// Whether `id` names a declared terminal state of `w`.
pub open spec fn terminal_in(w: Workflow, id: Seq<char>) -> bool {
    exists|i: int| 0 <= i < w.states@.len() && w.states@[i].id@ == id && w.states@[i].is_terminal
}

/// Applies context updates in order.
fn apply_updates(run: &mut WorkflowRun, updates: Vec<Entry<ContextValue>>)
    requires
        old(run).inv(),
    ensures
        final(run).inv(),
        entries_map(final(run).context@) == context_after(entries_map(old(run).context@), updates@),
        final(run).history == old(run).history,
        final(run).current_state == old(run).current_state,
        final(run).status == old(run).status,
        final(run).completed_at == old(run).completed_at,
        final(run).workflow == old(run).workflow,
        final(run).id == old(run).id,
        final(run).metadata == old(run).metadata,
{
    let ghost base = entries_map(run.context@);
    let ghost all = updates@;
    let total = updates.len();
    let mut rest = updates;
    let mut taken: usize = 0;
    while taken < total
        invariant
            run.inv(),
            total == all.len(),
            taken <= total,
            rest@ == all.subrange(taken as int, total as int),
            entries_map(run.context@) == context_after(base, all.subrange(0, taken as int)),
            run.history == old(run).history,
            run.current_state == old(run).current_state,
            run.status == old(run).status,
            run.completed_at == old(run).completed_at,
            run.workflow == old(run).workflow,
            run.id == old(run).id,
            run.metadata == old(run).metadata,
        decreases total - taken,
    {
        let e = rest.remove(0);
        assert(e == all[taken as int]);
        let ghost prefix = all.subrange(0, taken as int);
        let ghost next = all.subrange(0, taken + 1);
        assert(next.drop_last() =~= prefix);
        assert(context_after(base, next) =~= context_after(base, prefix).insert(e.key@, e.value));
        let Entry { key, value } = e;
        run.set_context(key, value);
        taken += 1;
        assert(rest@ =~= all.subrange(taken as int, total as int));
    }
    assert(all.subrange(0, total as int) =~= all);
}

/// Checks the abort signal before a step: when it is raised, the run is
/// cancelled with the reason recorded, and the step does not happen.
pub fn observe_abort(run: &mut WorkflowRun, reason: Option<String>) -> (stopped: bool)
    requires
        old(run).inv(),
        old(run).status == WorkflowRunStatus::Running,
    ensures
        final(run).inv(),
        stopped == reason is Some,
        !stopped ==> *final(run) == *old(run),
        stopped ==> final(run).status == WorkflowRunStatus::Cancelled,
        stopped ==> last_message_is(*final(run), abort_message_text(reason->Some_0@)),
        final(run).history == old(run).history,
        final(run).workflow == old(run).workflow,
        final(run).id == old(run).id,
{
    match reason {
        None => false,
        Some(r) => {
            run.set_metadata(String::from_str(LAST_MESSAGE_KEY), abort_message(r.as_str()));
            run.cancel();
            true
        },
    }
}

/// Records a message under the last-message key.
fn record_message(run: &mut WorkflowRun, message: String)
    requires
        old(run).inv(),
    ensures
        final(run).inv(),
        entries_map(final(run).metadata@) == entries_map(old(run).metadata@).insert(
            LAST_MESSAGE_KEY@,
            message,
        ),
        final(run).history == old(run).history,
        final(run).current_state == old(run).current_state,
        final(run).status == old(run).status,
        final(run).completed_at == old(run).completed_at,
        final(run).workflow == old(run).workflow,
        final(run).context == old(run).context,
        final(run).id == old(run).id,
{
    run.set_metadata(String::from_str(LAST_MESSAGE_KEY), message);
}

/// The run's metadata holds `m` as its last message.
pub open spec fn last_message_is(run: WorkflowRun, m: Seq<char>) -> bool {
    entries_map(run.metadata@).contains_key(LAST_MESSAGE_KEY@) && entries_map(
        run.metadata@,
    )[LAST_MESSAGE_KEY@]@ == m
}

/// The message of a run stopped by the transition limit.
pub open spec fn step_limit_text() -> Seq<char> {
    "Transition limit reached"@
}

/// The message of a run that stopped in a state with no applicable transition.
pub open spec fn no_transition_text(state: Seq<char>) -> Seq<char> {
    "No applicable transition from state '"@ + state + "'"@
}

/// Applies the outcome of the current state's action at time `now`: an abort
/// cancels the run, a fatal failure fails it; otherwise the context updates
/// are merged and the first applicable transition out of the current state is
/// taken (success decides the success/failure conditions). Reaching a terminal
/// state completes the run, and finding no applicable transition fails it.
/// Returns whether the run goes on.
pub fn apply_result(run: &mut WorkflowRun, result: ActionResult, now: i64) -> (go_on: bool)
    requires
        old(run).inv(),
        old(run).status == WorkflowRunStatus::Running,
    ensures
        final(run).inv(),
        final(run).workflow == old(run).workflow,
        final(run).id == old(run).id,
        go_on <==> final(run).status == WorkflowRunStatus::Running,
        final(run).history@ == old(run).history@ || (final(run).history@.len()
            == old(run).history@.len() + 1 && final(run).history@.drop_last()
            == old(run).history@),
        final(run).status == WorkflowRunStatus::Completed ==> terminal_in(
            final(run).workflow,
            final(run).current_state@,
        ),
        result is Abort ==> final(run).status == WorkflowRunStatus::Cancelled && final(run).history
            == old(run).history && last_message_is(
            *final(run),
            abort_message_text(result->Abort_0@),
        ),
        result is Fatal ==> final(run).status == WorkflowRunStatus::Failed && final(run).history
            == old(run).history && last_message_is(*final(run), result->Fatal_message@)
            && entries_map(final(run).metadata@).contains_key(FAILURE_REASON_KEY@) && entries_map(
            final(run).metadata@,
        )[FAILURE_REASON_KEY@]@ == result->Fatal_reason@,
        result is Recoverable && final(run).status != WorkflowRunStatus::Failed ==> last_message_is(
            *final(run),
            result->Recoverable_0@,
        ),
        result is Success ==> entries_map(final(run).context@) == context_after(
            entries_map(old(run).context@),
            result->Success_0@,
        ),
        result is Recoverable ==> final(run).context == old(run).context,
        (result is Success || result is Recoverable) ==> {
            let ok = result is Success;
            let ctx = entries_map(final(run).context@);
            let ts = old(run).workflow.transitions@;
            let from = old(run).current_state@;
            &&& (forall|k: int| 0 <= k < ts.len() ==> !transition_applies(#[trigger] ts[k], from, ctx, ok))
                ==> final(run).status == WorkflowRunStatus::Failed && final(run).history
                == old(run).history && last_message_is(*final(run), no_transition_text(from))
            &&& (exists|k: int| 0 <= k < ts.len() && transition_applies(ts[k], from, ctx, ok))
                ==> exists|k: int|
                0 <= k < ts.len() && transition_applies(ts[k], from, ctx, ok) && (forall|j: int|
                    0 <= j < k ==> !transition_applies(#[trigger] ts[j], from, ctx, ok))
                    && final(run).history@.drop_last() == old(run).history@
                    && final(run).history@.len() == old(run).history@.len() + 1
                    && final(run).current_state@ == ts[k].to@ && (if terminal_in(
                    old(run).workflow,
                    ts[k].to@,
                ) {
                    final(run).status == WorkflowRunStatus::Completed
                } else {
                    final(run).status == WorkflowRunStatus::Running
                })
        },
{
    let succeeded = match result {
        ActionResult::Abort(reason) => {
            record_message(run, abort_message(reason.as_str()));
            run.cancel();
            return false;
        },
        ActionResult::Fatal { message, reason } => {
            proof {
                reveal_strlit("last_message");
                reveal_strlit("failure_reason");
                assert(LAST_MESSAGE_KEY@[0] != FAILURE_REASON_KEY@[0]);
            }
            record_message(run, message);
            run.set_metadata(String::from_str(FAILURE_REASON_KEY), reason);
            run.fail();
            return false;
        },
        ActionResult::Success(updates) => {
            apply_updates(run, updates);
            true
        },
        ActionResult::Recoverable(message) => {
            record_message(run, message);
            false
        },
    };
    match run.workflow.next_state(&run.current_state, &run.context, succeeded) {
        None => {
            let msg = concat3(
                "No applicable transition from state '",
                run.current_state.as_str(),
                "'",
            );
            record_message(run, msg);
            run.fail();
            false
        },
        Some(next) => {
            let terminal = run.workflow.is_terminal(&next);
            run.transition_to_at(next, now);
            if terminal {
                run.complete();
                false
            } else {
                true
            }
        },
    }
}

/// Runs `run` to the end: before each step the abort signal is checked, then
/// the current state's action is dispatched (a state without an action
/// succeeds with no updates) and its outcome applied. A run whose current
/// state is terminal completes at once; one that takes `max_transitions`
/// transitions without stopping fails. Returns the final status, which is
/// never running; the history only grows, by at most one entry per step.
pub fn execute<D: ActionDispatch, A: AbortProbe>(
    run: &mut WorkflowRun,
    actions: &mut D,
    abort: &mut A,
    max_transitions: usize,
) -> (r: WorkflowRunStatus)
    requires
        old(run).inv(),
        old(run).status == WorkflowRunStatus::Running,
    ensures
        final(run).inv(),
        r == final(run).status,
        r != WorkflowRunStatus::Running,
        r == WorkflowRunStatus::Completed ==> terminal_in(final(run).workflow, final(run).current_state@),
        terminal_in(old(run).workflow, old(run).current_state@) ==> r == WorkflowRunStatus::Completed
            && final(run).history@ == old(run).history@,
        !terminal_in(old(run).workflow, old(run).current_state@) && max_transitions == 0 ==> r
            == WorkflowRunStatus::Failed && final(run).history@ == old(run).history@
            && last_message_is(*final(run), step_limit_text()),
        extends(final(run).history@, old(run).history@),
        final(run).history@.len() <= old(run).history@.len() + max_transitions,
        final(run).workflow == old(run).workflow,
        final(run).id == old(run).id,
{
    let ghost h0 = run.history@;
    assert(run.history@.subrange(0, h0.len() as int) =~= h0);
    if run.workflow.is_terminal(&run.current_state) {
        run.complete();
        return WorkflowRunStatus::Completed;
    }
    let mut steps: usize = 0;
    while steps < max_transitions
        invariant
            run.inv(),
            run.status == WorkflowRunStatus::Running,
            h0 == old(run).history@,
            !terminal_in(old(run).workflow, old(run).current_state@),
            steps == 0 ==> run.history@ == h0,
            extends(run.history@, h0),
            run.history@.len() <= h0.len() + steps,
            steps <= max_transitions,
            run.workflow == old(run).workflow,
            run.id == old(run).id,
        decreases max_transitions - steps,
    {
        let reason = abort.poll();
        if observe_abort(run, reason) {
            return WorkflowRunStatus::Cancelled;
        }
        let result = match run.workflow.action_of(&run.current_state) {
            None => ActionResult::Success(Vec::new()),
            Some(action) => actions.dispatch(action.as_str(), &run.context),
        };
        let now = now_millis();
        let ghost before = run.history@;
        let go_on = apply_result(run, result, now);
        proof {
            if run.history@ != before {
                assert(run.history@.drop_last() == before);
                assert(run.history@.subrange(0, h0.len() as int) =~= before.subrange(
                    0,
                    h0.len() as int,
                ));
            }
            assert(extends(run.history@, h0));
            assert(run.history@.len() <= h0.len() + steps + 1);
        }
        if !go_on {
            return run.status;
        }
        steps += 1;
    }
    record_message(run, String::from_str("Transition limit reached"));
    run.fail();
    WorkflowRunStatus::Failed
}

} // verus!
