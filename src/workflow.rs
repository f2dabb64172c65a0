//! Workflow definitions: named states, transitions between them with
//! conditions, one initial state and any number of terminal states.

use vstd::prelude::*;
use crate::action::ContextValue;
use crate::entries::{entries_map, get_entry, Entry};

verus! {

/// Identifier of a state within a workflow.
#[derive(Clone, Debug, PartialEq, Eq, Hash)]
pub struct StateId(pub String);

impl View for StateId {
    type V = Seq<char>;

    open spec fn view(&self) -> Seq<char> {
        self.0@
    }
}

impl StateId {
    /// The state identifier with the given text.
    pub fn new(s: &str) -> (r: Self)
        ensures
            r@ == s@,
    {
        StateId(String::from_str(s))
    }

    /// The identifier's text.
    pub fn as_str(&self) -> (r: &str)
        ensures
            r@ == self@,
    {
        self.0.as_str()
    }

    /// Another identifier with the same text.
    pub fn duplicate(&self) -> (r: Self)
        ensures
            r@ == self@,
    {
        StateId(self.0.clone())
    }

    /// Whether two identifiers have the same text.
    pub fn same_as(&self, other: &StateId) -> (r: bool)
        ensures
            r == (self@ == other@),
    {
        self.0 == other.0
    }
}

/// A state of a workflow, with the action to invoke while in it.
#[derive(Clone, Debug)]
pub struct State {
    pub id: StateId,
    pub description: String,
    pub is_terminal: bool,
    pub action: Option<String>,
}

impl State {
    /// A state without an action.
    pub fn new(id: &str, description: &str, is_terminal: bool) -> (r: Self)
        ensures
            r.id@ == id@,
            r.description@ == description@,
            r.is_terminal == is_terminal,
            r.action is None,
    {
        State {
            id: StateId::new(id),
            description: String::from_str(description),
            is_terminal,
            action: None,
        }
    }

    /// The same state, invoking the named action.
    pub fn with_action(self, action: &str) -> (r: Self)
        ensures
            r.id == self.id,
            r.description == self.description,
            r.is_terminal == self.is_terminal,
            r.action matches Some(a) && a@ == action@,
    {
        State { action: Some(String::from_str(action)), ..self }
    }
}

/// When a transition may be taken.
#[derive(Clone, Debug)]
pub enum TransitionCondition {
    /// Always.
    Always,
    /// When the state's action succeeded.
    OnSuccess,
    /// When the state's action failed recoverably.
    OnFailure,
    /// When the context holds the boolean `expected` under `key`.
    ContextFlag { key: String, expected: bool },
}

/// A transition from one state to another.
#[derive(Clone, Debug)]
pub struct Transition {
    pub from: StateId,
    pub to: StateId,
    pub condition: TransitionCondition,
}

/// Whether a condition holds, given the run's context and whether the last
/// action succeeded.
pub open spec fn condition_holds(
    c: TransitionCondition,
    ctx: Map<Seq<char>, ContextValue>,
    succeeded: bool,
) -> bool {
    match c {
        TransitionCondition::Always => true,
        TransitionCondition::OnSuccess => succeeded,
        TransitionCondition::OnFailure => !succeeded,
        TransitionCondition::ContextFlag { key, expected } => ctx.contains_key(key@) && ctx[key@]
            == ContextValue::Bool(expected),
    }
}

/// Whether a transition can be taken out of `from`.
pub open spec fn transition_applies(
    t: Transition,
    from: Seq<char>,
    ctx: Map<Seq<char>, ContextValue>,
    succeeded: bool,
) -> bool {
    t.from@ == from && condition_holds(t.condition, ctx, succeeded)
}

/// A workflow's definition.
#[derive(Clone, Debug)]
pub struct Workflow {
    pub name: String,
    pub description: String,
    pub initial_state: StateId,
    pub states: Vec<State>,
    pub transitions: Vec<Transition>,
}

/// Why a workflow definition is rejected.
#[derive(Clone, Debug, PartialEq, Eq)]
pub enum WorkflowError {
    /// The initial state is not among the declared states.
    MissingInitialState(String),
    /// Two states share this identifier.
    DuplicateState(String),
    /// A transition starts or ends at this undeclared state.
    UnknownTransitionState(String),
}

/// A state with this identifier is declared.
pub open spec fn declares(states: Seq<State>, id: Seq<char>) -> bool {
    exists|i: int| 0 <= i < states.len() && (#[trigger] states[i]).id@ == id
}

/// Two declared states share an identifier.
pub open spec fn has_duplicate(states: Seq<State>) -> bool {
    exists|i: int, j: int|
        0 <= i < j < states.len() && (#[trigger] states[i]).id@ == (#[trigger] states[j]).id@
}

/// A transition names an undeclared state.
pub open spec fn has_dangling_transition(w: Workflow) -> bool {
    exists|k: int|
        0 <= k < w.transitions@.len() && (!declares(w.states@, (#[trigger] w.transitions@[k]).from@)
            || !declares(w.states@, w.transitions@[k].to@))
}

/// The identifiers of a sequence of state identifiers, as text.
pub open spec fn state_ids(s: Seq<StateId>) -> Seq<Seq<char>> {
    s.map_values(|x: StateId| x@)
}

/// `id` can be reached from the initial state in at most `k` transitions.
pub open spec fn reaches(w: Workflow, id: Seq<char>, k: nat) -> bool
    decreases k,
{
    id == w.initial_state@ || (k > 0 && exists|t: int|
        0 <= t < w.transitions@.len() && (#[trigger] w.transitions@[t]).to@ == id && reaches(
            w,
            w.transitions@[t].from@,
            (k - 1) as nat,
        ))
}

/// What is reached in `k` transitions is reached in `k + 1`.
proof fn lemma_reaches_grows(w: Workflow, id: Seq<char>, k: nat)
    requires
        reaches(w, id, k),
    ensures
        reaches(w, id, k + 1),
    decreases k,
{
    if id != w.initial_state@ {
        let t = choose|t: int|
            0 <= t < w.transitions@.len() && (#[trigger] w.transitions@[t]).to@ == id && reaches(
                w,
                w.transitions@[t].from@,
                (k - 1) as nat,
            );
        lemma_reaches_grows(w, w.transitions@[t].from@, (k - 1) as nat);
    }
}

impl Workflow {
    /// A workflow with no states or transitions yet.
    pub fn new(name: &str, description: &str, initial_state: &str) -> (r: Self)
        ensures
            r.name@ == name@,
            r.description@ == description@,
            r.initial_state@ == initial_state@,
            r.states@.len() == 0,
            r.transitions@.len() == 0,
    {
        Workflow {
            name: String::from_str(name),
            description: String::from_str(description),
            initial_state: StateId::new(initial_state),
            states: Vec::new(),
            transitions: Vec::new(),
        }
    }

    /// The definition is usable: the initial state is declared, state
    /// identifiers are unique, and every transition joins declared states.
    pub open spec fn is_valid(&self) -> bool {
        &&& declares(self.states@, self.initial_state@)
        &&& !has_duplicate(self.states@)
        &&& !has_dangling_transition(*self)
    }

    /// Index of the first state with identifier `id`.
    fn find_state(&self, id: &StateId) -> (r: Option<usize>)
        ensures
            r is None <==> !declares(self.states@, id@),
            r matches Some(i) ==> i < self.states@.len() && self.states@[i as int].id@ == id@
                && forall|j: int| 0 <= j < i ==> self.states@[j].id@ != id@,
    {
        let mut i: usize = 0;
        while i < self.states.len()
            invariant
                i <= self.states@.len(),
                forall|j: int| 0 <= j < i ==> self.states@[j].id@ != id@,
            decreases self.states@.len() - i,
        {
            if self.states[i].id.same_as(id) {
                return Some(i);
            }
            i += 1;
        }
        None
    }

    /// Declares a state, replacing the declaration of a state with the same
    /// identifier.
    pub fn add_state(&mut self, state: State)
        ensures
            final(self).name == old(self).name,
            final(self).description == old(self).description,
            final(self).initial_state == old(self).initial_state,
            final(self).transitions == old(self).transitions,
            !declares(old(self).states@, state.id@) ==> final(self).states@ == old(self).states@.push(
                state,
            ),
            declares(old(self).states@, state.id@) ==> exists|i: int|
                0 <= i < old(self).states@.len() && old(self).states@[i].id@ == state.id@
                    && final(self).states@ == old(self).states@.update(i, state),
    {
        match self.find_state(&state.id) {
            Some(i) => {
                self.states.set(i, state);
            },
            None => {
                self.states.push(state);
            },
        }
    }

    /// Adds a transition.
    pub fn add_transition(&mut self, from: &str, to: &str, condition: TransitionCondition)
        ensures
            final(self).name == old(self).name,
            final(self).description == old(self).description,
            final(self).initial_state == old(self).initial_state,
            final(self).states == old(self).states,
            final(self).transitions@.len() == old(self).transitions@.len() + 1,
            final(self).transitions@.drop_last() == old(self).transitions@,
            final(self).transitions@.last().from@ == from@,
            final(self).transitions@.last().to@ == to@,
            final(self).transitions@.last().condition == condition,
    {
        let t = Transition { from: StateId::new(from), to: StateId::new(to), condition };
        let ghost before = self.transitions@;
        self.transitions.push(t);
        assert(self.transitions@.drop_last() =~= before);
    }

    /// The initial state.
    pub fn initial_state(&self) -> (r: &StateId)
        ensures
            r == &self.initial_state,
    {
        &self.initial_state
    }

    /// Checks the definition: the initial state must be declared, state
    /// identifiers unique, and every transition must join declared states.
    pub fn validate(&self) -> (r: Result<(), WorkflowError>)
        ensures
            r is Ok <==> self.is_valid(),
            r matches Err(WorkflowError::MissingInitialState(s)) ==> s@ == self.initial_state@
                && !declares(self.states@, self.initial_state@),
            r matches Err(WorkflowError::DuplicateState(s)) ==> exists|i: int, j: int|
                0 <= i < j < self.states@.len() && self.states@[i].id@ == s@ && self.states@[j].id@
                    == s@,
            r matches Err(WorkflowError::UnknownTransitionState(s)) ==> !declares(self.states@, s@)
                && exists|k: int|
                0 <= k < self.transitions@.len() && (self.transitions@[k].from@ == s@
                    || self.transitions@[k].to@ == s@),
    {
        if self.find_state(&self.initial_state).is_none() {
            return Err(WorkflowError::MissingInitialState(self.initial_state.0.clone()));
        }
        let n = self.states.len();
        let mut i: usize = 0;
        while i < n
            invariant
                n == self.states@.len(),
                i <= n,
                forall|a: int, b: int|
                    0 <= a < b < n && a < i ==> (#[trigger] self.states@[a]).id@ != (
                    #[trigger] self.states@[b]).id@,
            decreases n - i,
        {
            let mut j: usize = i + 1;
            while j < n
                invariant
                    n == self.states@.len(),
                    i < n,
                    i + 1 <= j <= n,
                    forall|b: int| i < b < j ==> self.states@[i as int].id@ != (
                    #[trigger] self.states@[b]).id@,
                decreases n - j,
            {
                if self.states[i].id.same_as(&self.states[j].id) {
                    return Err(WorkflowError::DuplicateState(self.states[i].id.0.clone()));
                }
                j += 1;
            }
            i += 1;
        }
        let m = self.transitions.len();
        let mut k: usize = 0;
        while k < m
            invariant
                m == self.transitions@.len(),
                k <= m,
                forall|a: int|
                    0 <= a < k ==> declares(self.states@, (#[trigger] self.transitions@[a]).from@)
                        && declares(self.states@, self.transitions@[a].to@),
            decreases m - k,
        {
            let t = &self.transitions[k];
            if self.find_state(&t.from).is_none() {
                return Err(WorkflowError::UnknownTransitionState(t.from.0.clone()));
            }
            if self.find_state(&t.to).is_none() {
                return Err(WorkflowError::UnknownTransitionState(t.to.0.clone()));
            }
            k += 1;
        }
        Ok(())
    }

    /// Which states are reached in one more transition, given which are
    /// reached in `rounds`: position for position over the declared states.
    fn reach_step(&self, cur: &Vec<bool>, Ghost(rounds): Ghost<nat>) -> (next: Vec<bool>)
        requires
            self.is_valid(),
            cur@.len() == self.states@.len(),
            forall|j: int|
                0 <= j < cur@.len() ==> (cur@[j] <==> reaches(*self, self.states@[j].id@, rounds)),
        ensures
            next@.len() == self.states@.len(),
            forall|j: int|
                0 <= j < next@.len() ==> (next@[j] <==> reaches(*self, self.states@[j].id@, rounds + 1)),
    {
        let n = self.states.len();
        let mut next: Vec<bool> = Vec::new();
        let mut j: usize = 0;
        while j < n
            invariant
                self.is_valid(),
                n == self.states@.len(),
                cur@.len() == n,
                j <= n,
                next@.len() == j,
                forall|a: int|
                    0 <= a < cur@.len() ==> (cur@[a] <==> reaches(*self, self.states@[a].id@, rounds)),
                forall|a: int|
                    0 <= a < j ==> (next@[a] <==> reaches(*self, self.states@[a].id@, rounds + 1)),
            decreases n - j,
        {
            let ghost id = self.states@[j as int].id@;
            let mut hit = cur[j];
            let m = self.transitions.len();
            let mut t: usize = 0;
            while t < m
                invariant
                    self.is_valid(),
                    n == self.states@.len(),
                    cur@.len() == n,
                    j < n,
                    id == self.states@[j as int].id@,
                    m == self.transitions@.len(),
                    t <= m,
                    forall|a: int|
                        0 <= a < cur@.len() ==> (cur@[a] <==> reaches(*self, self.states@[a].id@, rounds)),
                    hit <==> (cur@[j as int] || exists|u: int|
                        0 <= u < t && (#[trigger] self.transitions@[u]).to@ == id && reaches(
                            *self,
                            self.transitions@[u].from@,
                            rounds,
                        )),
                decreases m - t,
            {
                let tr = &self.transitions[t];
                if tr.to.same_as(&self.states[j].id) {
                    assert(declares(self.states@, self.transitions@[t as int].from@));
                    match self.find_state(&tr.from) {
                        Some(i) => {
                            if cur[i] {
                                hit = true;
                            }
                        },
                        None => {},
                    }
                }
                t += 1;
            }
            proof {
                if cur@[j as int] {
                    lemma_reaches_grows(*self, id, rounds);
                }
            }
            next.push(hit);
            j += 1;
        }
        next
    }

    /// The declared states that no sequence of transitions leads to from the
    /// initial state (a state reachable at all is reachable in fewer
    /// transitions than there are states). Such states are worth a warning,
    /// not an error: an action may still send a run there.
    pub fn unreachable_states(&self) -> (r: Vec<StateId>)
        requires
            self.is_valid(),
        ensures
            forall|x: Seq<char>|
                state_ids(r@).contains(x) <==> (declares(self.states@, x)
                    && !reaches(*self, x, self.states@.len() as nat)),
    {
        let n = self.states.len();
        let mut cur: Vec<bool> = Vec::new();
        let mut j: usize = 0;
        while j < n
            invariant
                n == self.states@.len(),
                j <= n,
                cur@.len() == j,
                forall|a: int| 0 <= a < j ==> (cur@[a] <==> reaches(*self, self.states@[a].id@, 0)),
            decreases n - j,
        {
            cur.push(self.states[j].id.same_as(&self.initial_state));
            j += 1;
        }
        let mut rounds: usize = 0;
        while rounds < n
            invariant
                self.is_valid(),
                n == self.states@.len(),
                rounds <= n,
                cur@.len() == n,
                forall|a: int|
                    0 <= a < n ==> (cur@[a] <==> reaches(*self, self.states@[a].id@, rounds as nat)),
            decreases n - rounds,
        {
            cur = self.reach_step(&cur, Ghost(rounds as nat));
            rounds += 1;
        }
        let mut out: Vec<StateId> = Vec::new();
        let mut k: usize = 0;
        while k < n
            invariant
                self.is_valid(),
                n == self.states@.len(),
                cur@.len() == n,
                k <= n,
                forall|a: int|
                    0 <= a < n ==> (cur@[a] <==> reaches(*self, self.states@[a].id@, n as nat)),
                forall|x: Seq<char>|
                    #[trigger] state_ids(out@).contains(x) <==> exists|a: int|
                        0 <= a < k && (#[trigger] self.states@[a]).id@ == x && !cur@[a],
            decreases n - k,
        {
            let ghost before = state_ids(out@);
            if !cur[k] {
                out.push(self.states[k].id.duplicate());
                assert(state_ids(out@) =~= before.push(self.states@[k as int].id@));
            }
            proof {
                let now = state_ids(out@);
                assert forall|x: Seq<char>| now.contains(x) <==> exists|a: int|
                    0 <= a < k + 1 && self.states@[a].id@ == x && !cur@[a] by {
                    if now.contains(x) {
                        let i = choose|i: int| 0 <= i < now.len() && now[i] == x;
                        if !cur@[k as int] && i == before.len() {
                            assert(self.states@[k as int].id@ == x);
                        } else {
                            assert(before[i] == x);
                            assert(before.contains(x));
                        }
                    }
                    if exists|a: int| 0 <= a < k + 1 && self.states@[a].id@ == x && !cur@[a] {
                        let a = choose|a: int| 0 <= a < k + 1 && self.states@[a].id@ == x && !cur@[a];
                        if a < k {
                            assert(before.contains(x));
                            let i = choose|i: int| 0 <= i < before.len() && before[i] == x;
                            assert(now[i] == x);
                        } else {
                            assert(now[before.len() as int] == x);
                        }
                    }
                }
            }
            k += 1;
        }
        proof {
            assert forall|x: Seq<char>| (exists|a: int| 0 <= a < n && self.states@[a].id@ == x && !cur@[a])
                <==> (declares(self.states@, x) && !reaches(*self, x, n as nat)) by {
                if declares(self.states@, x) && !reaches(*self, x, n as nat) {
                    let a = choose|a: int| 0 <= a < self.states@.len() && (#[trigger] self.states@[a]).id@ == x;
                    assert(!cur@[a]);
                }
            }
        }
        out
    }

    /// Whether `id` names a declared terminal state.
    pub fn is_terminal(&self, id: &StateId) -> (r: bool)
        ensures
            r == exists|i: int|
                0 <= i < self.states@.len() && self.states@[i].id@ == id@
                    && self.states@[i].is_terminal,
    {
        let mut i: usize = 0;
        while i < self.states.len()
            invariant
                i <= self.states@.len(),
                forall|j: int|
                    0 <= j < i ==> !(self.states@[j].id@ == id@ && self.states@[j].is_terminal),
            decreases self.states@.len() - i,
        {
            if self.states[i].is_terminal && self.states[i].id.same_as(id) {
                return true;
            }
            i += 1;
        }
        false
    }

    /// The action declared for the first state with identifier `id`, if any.
    pub fn action_of(&self, id: &StateId) -> (r: Option<String>)
        ensures
            !declares(self.states@, id@) ==> r is None,
            declares(self.states@, id@) ==> exists|i: int|
                0 <= i < self.states@.len() && self.states@[i].id@ == id@ && (forall|j: int|
                    0 <= j < i ==> self.states@[j].id@ != id@) && (match self.states@[i].action {
                    None => r is None,
                    Some(a) => r matches Some(b) && b@ == a@,
                }),
    {
        match self.find_state(id) {
            None => None,
            Some(i) => match &self.states[i].action {
                None => None,
                Some(a) => Some(a.clone()),
            },
        }
    }

    /// The target of the first transition out of `from` whose condition
    /// holds, given the run's context and whether the last action succeeded.
    pub fn next_state(&self, from: &StateId, context: &Vec<Entry<ContextValue>>, succeeded: bool) -> (r:
        Option<StateId>)
        ensures
            r is None <==> forall|k: int|
                0 <= k < self.transitions@.len() ==> !transition_applies(
                    #[trigger] self.transitions@[k],
                    from@,
                    entries_map(context@),
                    succeeded,
                ),
            r is Some ==> exists|k: int|
                0 <= k < self.transitions@.len() && transition_applies(
                    self.transitions@[k],
                    from@,
                    entries_map(context@),
                    succeeded,
                ) && r->Some_0@ == self.transitions@[k].to@ && forall|j: int|
                    0 <= j < k ==> !transition_applies(
                        #[trigger] self.transitions@[j],
                        from@,
                        entries_map(context@),
                        succeeded,
                    ),
    {
        let ghost ctx = entries_map(context@);
        let mut k: usize = 0;
        while k < self.transitions.len()
            invariant
                k <= self.transitions@.len(),
                ctx == entries_map(context@),
                forall|j: int|
                    0 <= j < k ==> !transition_applies(
                        #[trigger] self.transitions@[j],
                        from@,
                        ctx,
                        succeeded,
                    ),
            decreases self.transitions@.len() - k,
        {
            let t = &self.transitions[k];
            if t.from.same_as(from) && condition_met(&t.condition, context, succeeded) {
                return Some(t.to.duplicate());
            }
            k += 1;
        }
        None
    }
}

/// Whether a condition holds, given the run's context and whether the last
/// action succeeded.
pub fn condition_met(c: &TransitionCondition, context: &Vec<Entry<ContextValue>>, succeeded: bool) -> (r:
    bool)
    ensures
        r == condition_holds(*c, entries_map(context@), succeeded),
{
    match c {
        TransitionCondition::Always => true,
        TransitionCondition::OnSuccess => succeeded,
        TransitionCondition::OnFailure => !succeeded,
        TransitionCondition::ContextFlag { key, expected } => match get_entry(context, key.as_str()) {
            Some(ContextValue::Bool(b)) => *b == *expected,
            _ => false,
        },
    }
}

} // verus!
