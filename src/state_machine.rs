use vstd::prelude::*;

use crate::models::{
    duplicate_actions, edges_compile, is_bad_pattern_of, prompt_matches, view_actions, Action,
    DefinitionError, State,
};
use crate::models_raw::{ActionModel, EdgeModel, MachineModel, RawState, RawStateMachine};

verus! {

/// Every regex prompt of the graph compiles.
pub open spec fn patterns_compile(m: MachineModel) -> bool {
    forall|i: int| 0 <= i < m.states.len() ==> edges_compile(#[trigger] m.states[i].edges)
}

/// `p` is the pattern of some regex prompt of the graph that does not compile.
pub open spec fn is_bad_pattern(m: MachineModel, p: Seq<char>) -> bool {
    exists|i: int| 0 <= i < m.states.len() && is_bad_pattern_of(#[trigger] m.states[i].edges, p)
}

/// No two states share a name.
pub open spec fn names_unique(m: MachineModel) -> bool {
    forall|i: int, j: int|
        0 <= i < j < m.states.len() ==> #[trigger] m.states[i].name != #[trigger] m.states[j].name
}

/// Two different states are called `n`.
pub open spec fn is_duplicate_name(m: MachineModel, n: Seq<char>) -> bool {
    exists|i: int, j: int|
        0 <= i < j < m.states.len() && #[trigger] m.states[i].name == n && #[trigger] m.states[j].name
            == n
}

/// Some state is called `n`.
pub open spec fn contains_state(m: MachineModel, n: Seq<char>) -> bool {
    exists|i: int| 0 <= i < m.states.len() && #[trigger] m.states[i].name == n
}

/// `n` is the target of edge `k` of state `i`.
pub open spec fn is_target(m: MachineModel, i: int, k: int, n: Seq<char>) -> bool {
    0 <= i < m.states.len() && 0 <= k < m.states[i].edges.len() && m.states[i].edges[k].next
        == Some(n)
}

/// `n` is used as a state: initial, accepting, or the target of an edge.
pub open spec fn is_referenced(m: MachineModel, n: Seq<char>) -> bool {
    ||| n == m.initial_state
    ||| m.accepting_states.contains(n)
    ||| exists|i: int, k: int| is_target(m, i, k, n)
}

/// Every name used as a state is the name of a state.
pub open spec fn references_resolve(m: MachineModel) -> bool {
    &&& contains_state(m, m.initial_state)
    &&& forall|a: int|
        0 <= a < m.accepting_states.len() ==> contains_state(m, #[trigger] m.accepting_states[a])
    &&& forall|i: int, k: int, n: Seq<char>| #[trigger]
        is_target(m, i, k, n) ==> contains_state(m, n)
}

/// A graph that compiles into a state machine.
pub open spec fn valid_machine(m: MachineModel) -> bool {
    &&& patterns_compile(m)
    &&& names_unique(m)
    &&& references_resolve(m)
}

/// The position of the state called `n`.
pub open spec fn state_index(m: MachineModel, n: Seq<char>) -> int {
    choose|i: int| 0 <= i < m.states.len() && m.states[i].name == n
}

pub open spec fn edges_of(m: MachineModel, n: Seq<char>) -> Seq<EdgeModel> {
    m.states[state_index(m, n)].edges
}

/// The outcome of one input: the state to go to and the actions to run first.
#[verifier::ext_equal]
pub struct StepModel {
    pub next_state: Seq<char>,
    pub actions: Seq<ActionModel>,
}

/// The outcome of taking edge `e` out of `state`.
pub open spec fn take_edge(e: EdgeModel, state: Seq<char>) -> StepModel {
    StepModel {
        next_state: match e.next {
            Some(n) => n,
            None => state,
        },
        actions: e.actions,
    }
}

/// The first edge from position `k` on whose prompt matches `input` is taken;
/// when none matches, the machine stays in `state` and does nothing.
pub open spec fn fire(edges: Seq<EdgeModel>, k: int, state: Seq<char>, input: Seq<char>) -> StepModel
    decreases edges.len() - k,
{
    if k < 0 || k >= edges.len() {
        StepModel { next_state: state, actions: Seq::empty() }
    } else if prompt_matches(edges[k].prompt, input) {
        take_edge(edges[k], state)
    } else {
        fire(edges, k + 1, state, input)
    }
}

/// What `input` does in `state`.
pub open spec fn step(m: MachineModel, state: Seq<char>, input: Seq<char>) -> StepModel {
    fire(edges_of(m, state), 0, state, input)
}

/// The outcome of `StateMachine::apply`.
pub struct Transition {
    pub next_state: String,
    pub actions: Vec<Action>,
}

impl View for Transition {
    type V = StepModel;

    open spec fn view(&self) -> StepModel {
        StepModel { next_state: self.next_state@, actions: view_actions(self.actions@) }
    }
}

/// A validated riddle graph.
pub struct StateMachine {
    initial_state: String,
    accepting_states: Vec<String>,
    states: Vec<State>,
}

impl View for StateMachine {
    type V = MachineModel;

    closed spec fn view(&self) -> MachineModel {
        MachineModel {
            initial_state: self.initial_state@,
            accepting_states: self.accepting_states@.map_values(|s: String| s@),
            states: self.states@.map_values(|s: State| s@),
        }
    }
}

/// The position of the state called `name`, if there is one.
fn find_state(states: &Vec<State>, name: &String) -> (r: Option<usize>)
    ensures
        r matches Some(i) ==> i < states.len() && states@[i as int].name@ == name@,
        r is None ==> forall|i: int| 0 <= i < states.len() ==> #[trigger] states@[i].name@ != name@,
{
    let mut i: usize = 0;
    while i < states.len()
        invariant
            i <= states.len(),
            forall|j: int| 0 <= j < i ==> #[trigger] states@[j].name@ != name@,
        decreases states.len() - i,
    {
        if states[i].name == *name {
            return Some(i);
        }
        i = i + 1;
    }
    None
}


/// A copy of every name, in the same order.
fn copy_names(names: &Vec<String>) -> (r: Vec<String>)
    ensures
        r@.map_values(|s: String| s@) == names@.map_values(|s: String| s@),
{
    let mut out: Vec<String> = Vec::new();
    let mut i: usize = 0;
    while i < names.len()
        invariant
            i <= names.len(),
            out.len() == i,
            forall|j: int| 0 <= j < i ==> #[trigger] out@[j]@ == names@[j]@,
        decreases names.len() - i,
    {
        out.push(names[i].clone());
        i = i + 1;
    }
    assert(out@.map_values(|s: String| s@) =~= names@.map_values(|s: String| s@));
    out
}

proof fn lemma_bad_pattern_breaks(edges: Seq<EdgeModel>, p: Seq<char>)
    requires
        is_bad_pattern_of(edges, p),
    ensures
        !edges_compile(edges),
{
    let k = choose|k: int|
        0 <= k < edges.len() && #[trigger] edges[k].prompt == crate::models_raw::PromptModel::Regex(p)
            && !crate::pattern::regex_compiles(p);
    assert(!crate::models::prompt_compiles(edges[k].prompt));
}

/// In a graph with unique names, the state found under a name is the one
/// that `state_index` picks.
proof fn lemma_state_index(m: MachineModel, n: Seq<char>, i: int)
    requires
        names_unique(m),
        0 <= i < m.states.len(),
        m.states[i].name == n,
    ensures
        state_index(m, n) == i,
{
    let j = state_index(m, n);
    if j < i {
        assert(m.states[j].name != m.states[i].name);
    } else if i < j {
        assert(m.states[i].name != m.states[j].name);
    }
}

impl StateMachine {
    /// Every machine is a graph that passes the checks of `new`.
    #[verifier::type_invariant]
    spec fn inv(&self) -> bool {
        valid_machine(self@)
    }

    /// Builds a state machine from a riddle document. Regex prompts are
    /// compiled first, then state names are checked to be unique, then every
    /// name used as a state is checked to name one.
    pub fn new(doc: &RawStateMachine) -> (r: Result<StateMachine, DefinitionError>)
        ensures
            r is Ok <==> valid_machine(doc@),
            r matches Ok(m) ==> m@ == doc@,
            r matches Err(e) ==> match e {
                DefinitionError::InvalidPattern(p) => !patterns_compile(doc@) && is_bad_pattern(
                    doc@,
                    p@,
                ),
                DefinitionError::DuplicateState(n) => patterns_compile(doc@) && !names_unique(doc@)
                    && is_duplicate_name(doc@, n@),
                DefinitionError::UnknownState(n) => patterns_compile(doc@) && names_unique(doc@)
                    && is_referenced(doc@, n@) && !contains_state(doc@, n@),
            },
    {
        let ghost m = doc@;
        let mut states: Vec<State> = Vec::new();
        let mut i: usize = 0;
        while i < doc.states.len()
            invariant
                m == doc@,
                i <= doc.states.len(),
                states.len() == i,
                forall|j: int| 0 <= j < i ==> #[trigger] states@[j]@ == m.states[j],
                forall|j: int| 0 <= j < i ==> edges_compile(#[trigger] m.states[j].edges),
            decreases doc.states.len() - i,
        {
            assert(m.states[i as int] == doc.states@[i as int]@);
            match State::new(&doc.states[i]) {
                Ok(s) => states.push(s),
                Err(e) => {
                    proof {
                        if let DefinitionError::InvalidPattern(p) = &e {
                            lemma_bad_pattern_breaks(m.states[i as int].edges, p@);
                            assert(is_bad_pattern(m, p@));
                        }
                    }
                    return Err(e);
                },
            }
            i = i + 1;
        }
        assert(patterns_compile(m));
        assert(states@.map_values(|s: State| s@) =~= m.states);

        // Names are unique.
        let mut i: usize = 0;
        while i < states.len()
            invariant
                m == doc@,
                patterns_compile(m),
                i <= states.len(),
                forall|j: int| 0 <= j < states.len() ==> #[trigger] states@[j]@ == m.states[j],
                states.len() == m.states.len(),
                forall|a: int, b: int|
                    0 <= a < b < i ==> #[trigger] m.states[a].name != #[trigger] m.states[b].name,
            decreases states.len() - i,
        {
            let mut j: usize = 0;
            while j < i
                invariant
                    m == doc@,
                    patterns_compile(m),
                    j <= i < states.len(),
                    forall|jj: int| 0 <= jj < states.len() ==> #[trigger] states@[jj]@ == m.states[jj],
                    states.len() == m.states.len(),
                    forall|a: int| 0 <= a < j ==> #[trigger] m.states[a].name != m.states[i as int].name,
                decreases i - j,
            {
                assert(states@[j as int]@ == m.states[j as int]);
                assert(states@[i as int]@ == m.states[i as int]);
                if states[j].name == states[i].name {
                    assert(m.states[j as int].name == m.states[i as int].name);
                    assert(is_duplicate_name(m, m.states[i as int].name));
                    assert(!names_unique(m));
                    return Err(DefinitionError::DuplicateState(states[i].name.clone()));
                }
                j = j + 1;
            }
            i = i + 1;
        }
        assert(names_unique(m));

        // Every name used as a state names one.
        match find_state(&states, &doc.initial_state) {
            Some(idx) => {
                assert(states@[idx as int]@ == m.states[idx as int]);
                assert(m.states[idx as int].name == m.initial_state);
            },
            None => {
                assert forall|a: int| 0 <= a < m.states.len() implies m.states[a].name
                    != m.initial_state by {
                    assert(states@[a]@ == m.states[a]);
                }
                return Err(DefinitionError::UnknownState(doc.initial_state.clone()));
            },
        }
        let mut a: usize = 0;
        while a < doc.accepting_states.len()
            invariant
                m == doc@,
                patterns_compile(m),
                names_unique(m),
                contains_state(m, m.initial_state),
                a <= doc.accepting_states.len(),
                forall|j: int| 0 <= j < states.len() ==> #[trigger] states@[j]@ == m.states[j],
                states.len() == m.states.len(),
                forall|b: int| 0 <= b < a ==> contains_state(m, #[trigger] m.accepting_states[b]),
            decreases doc.accepting_states.len() - a,
        {
            assert(m.accepting_states[a as int] == doc.accepting_states@[a as int]@);
            match find_state(&states, &doc.accepting_states[a]) {
                Some(idx) => {
                    assert(states@[idx as int]@ == m.states[idx as int]);
                    assert(m.states[idx as int].name == m.accepting_states[a as int]);
                },
                None => {
                    assert forall|x: int| 0 <= x < m.states.len() implies m.states[x].name
                        != m.accepting_states[a as int] by {
                        assert(states@[x]@ == m.states[x]);
                    }
                    assert(m.accepting_states.contains(m.accepting_states[a as int]));
                    return Err(DefinitionError::UnknownState(doc.accepting_states[a].clone()));
                },
            }
            a = a + 1;
        }
        let mut i: usize = 0;
        while i < states.len()
            invariant
                m == doc@,
                patterns_compile(m),
                names_unique(m),
                contains_state(m, m.initial_state),
                forall|b: int|
                    0 <= b < m.accepting_states.len() ==> contains_state(
                        m,
                        #[trigger] m.accepting_states[b],
                    ),
                i <= states.len(),
                forall|j: int| 0 <= j < states.len() ==> #[trigger] states@[j]@ == m.states[j],
                states.len() == m.states.len(),
                forall|x: int, k: int, n: Seq<char>|
                    0 <= x < i && #[trigger] is_target(m, x, k, n) ==> contains_state(m, n),
            decreases states.len() - i,
        {
            let mut k: usize = 0;
            assert(states@[i as int]@ == m.states[i as int]);
            while k < states[i].edges.len()
                invariant
                    m == doc@,
                    patterns_compile(m),
                    names_unique(m),
                    i < states.len(),
                    k <= states@[i as int].edges.len(),
                    forall|j: int| 0 <= j < states.len() ==> #[trigger] states@[j]@ == m.states[j],
                    states.len() == m.states.len(),
                    forall|x: int, kk: int, n: Seq<char>|
                        0 <= x < i && #[trigger] is_target(m, x, kk, n) ==> contains_state(m, n),
                    forall|kk: int, n: Seq<char>|
                        0 <= kk < k && #[trigger] is_target(m, i as int, kk, n) ==> contains_state(
                            m,
                            n,
                        ),
                decreases states@[i as int].edges.len() - k,
            {
                assert(states@[i as int]@ == m.states[i as int]);
                assert(states@[i as int].edges@[k as int]@ == m.states[i as int].edges[k as int]);
                match &states[i].edges[k].next {
                    Some(n) => {
                        match find_state(&states, n) {
                            Some(idx) => {
                                assert(states@[idx as int]@ == m.states[idx as int]);
                                assert(m.states[idx as int].name == n@);
                            },
                            None => {
                                assert forall|x: int| 0 <= x < m.states.len() implies m.states[x].name
                                    != n@ by {
                                    assert(states@[x]@ == m.states[x]);
                                }
                                assert(is_target(m, i as int, k as int, n@));
                                return Err(DefinitionError::UnknownState(n.clone()));
                            },
                        }
                    },
                    None => {},
                }
                k = k + 1;
            }
            i = i + 1;
        }
        assert(references_resolve(m));
        let r = StateMachine {
            initial_state: doc.initial_state.clone(),
            accepting_states: copy_names(&doc.accepting_states),
            states,
        };
        assert(r@ =~= m);
        Ok(r)
    }

    /// The state a dialogue starts in.
    pub fn initial_state(&self) -> (r: String)
        ensures
            r@ == self@.initial_state,
    {
        self.initial_state.clone()
    }

    /// Whether some state is called `state_name`.
    pub fn has_state(&self, state_name: &str) -> (r: bool)
        ensures
            r == contains_state(self@, state_name@),
    {
        let name = state_name.to_owned();
        match find_state(&self.states, &name) {
            Some(i) => {
                assert(self@.states[i as int] == self.states@[i as int]@);
                assert(self@.states[i as int].name == state_name@);
                true
            },
            None => {
                assert forall|x: int| 0 <= x < self@.states.len() implies self@.states[x].name
                    != name@ by {
                    assert(self@.states[x] == self.states@[x]@);
                }
                false
            },
        }
    }

    /// Feeds `input` to the dialogue in `state_name`. The first edge of that
    /// state, in declaration order, whose prompt matches is taken: the result
    /// holds its actions, to be run in order, and its target (or
    /// `state_name` when it has none). When no edge matches, the result
    /// stays in `state_name` with no actions.
    pub fn apply(&self, state_name: &str, input: &str) -> (r: Transition)
        requires
            contains_state(self@, state_name@),
        ensures
            r@ == step(self@, state_name@, input@),
    {
        proof {
            use_type_invariant(self);
        }
        let name = state_name.to_owned();
        let input_text = input.to_owned();
        let i = match find_state(&self.states, &name) {
            Some(i) => i,
            None => {
                proof {
                    let x = choose|x: int|
                        0 <= x < self@.states.len() && #[trigger] self@.states[x].name == name@;
                    assert(self@.states[x] == self.states@[x]@);
                }
                return Transition { next_state: name, actions: Vec::new() };
            },
        };
        let ghost m = self@;
        assert(m.states[i as int] == self.states@[i as int]@);
        proof {
            lemma_state_index(m, name@, i as int);
        }
        let edges = &self.states[i].edges;
        let ghost es = edges_of(m, name@);
        assert(es == edges@.map_values(|e: crate::models::Edge| e@));
        let mut k: usize = 0;
        while k < edges.len()
            invariant
                k <= edges.len(),
                es == edges@.map_values(|e: crate::models::Edge| e@),
                name@ == state_name@,
                input_text@ == input@,
                es == edges_of(self@, state_name@),
                fire(es, 0, name@, input@) == fire(es, k as int, name@, input@),
            decreases edges.len() - k,
        {
            assert(es[k as int] == edges@[k as int]@);
            if edges[k].prompt.matches(&input_text) {
                let next_state = match &edges[k].next {
                    Some(n) => n.clone(),
                    None => name.clone(),
                };
                let r = Transition { next_state, actions: duplicate_actions(&edges[k].actions) };
                assert(prompt_matches(es[k as int].prompt, input@));
                assert(fire(es, k as int, name@, input@) == take_edge(es[k as int], name@));
                assert(r@ =~= take_edge(es[k as int], name@));
                return r;
            }
            k = k + 1;
        }
        let r = Transition { next_state: name, actions: Vec::new() };
        assert(r@ =~= fire(es, k as int, r.next_state@, input@));
        r
    }

    /// Whether `state_name` is one of the accepting states.
    pub fn is_accepting(&self, state_name: &str) -> (r: bool)
        ensures
            r == self@.accepting_states.contains(state_name@),
    {
        let name = state_name.to_owned();
        let mut a: usize = 0;
        while a < self.accepting_states.len()
            invariant
                a <= self.accepting_states.len(),
                self@.accepting_states == self.accepting_states@.map_values(|s: String| s@),
                name@ == state_name@,
                forall|b: int| 0 <= b < a ==> #[trigger] self@.accepting_states[b] != name@,
            decreases self.accepting_states.len() - a,
        {
            assert(self@.accepting_states[a as int] == self.accepting_states@[a as int]@);
            if self.accepting_states[a] == name {
                assert(self@.accepting_states[a as int] == state_name@);
                return true;
            }
            a = a + 1;
        }
        false
    }

    /// The machine written back as a riddle document.
    pub fn to_document(&self) -> (r: RawStateMachine)
        ensures
            r@ == self@,
    {
        let mut states: Vec<RawState> = Vec::new();
        let mut i: usize = 0;
        while i < self.states.len()
            invariant
                i <= self.states.len(),
                states.len() == i,
                forall|j: int| 0 <= j < i ==> #[trigger] states@[j]@ == self.states@[j]@,
            decreases self.states.len() - i,
        {
            states.push(self.states[i].to_raw());
            i = i + 1;
        }
        let r = RawStateMachine {
            initial_state: self.initial_state.clone(),
            accepting_states: copy_names(&self.accepting_states),
            states,
        };
        assert(r@.states =~= self@.states);
        assert(r@ =~= self@);
        r
    }
}


proof fn lemma_fire_skips(edges: Seq<EdgeModel>, j: int, k: int, state: Seq<char>, input: Seq<char>)
    requires
        0 <= j <= k,
        forall|x: int| j <= x < k && x < edges.len() ==> !prompt_matches(#[trigger] edges[x].prompt, input),
    ensures
        fire(edges, j, state, input) == fire(edges, k, state, input),
    decreases k - j,
{
    if j < k && j < edges.len() {
        lemma_fire_skips(edges, j + 1, k, state, input);
    } else if j < k {
        lemma_fire_past_end(edges, j, state, input);
        lemma_fire_past_end(edges, k, state, input);
    }
}

proof fn lemma_fire_past_end(edges: Seq<EdgeModel>, k: int, state: Seq<char>, input: Seq<char>)
    requires
        k >= edges.len(),
    ensures
        fire(edges, k, state, input) == (StepModel { next_state: state, actions: Seq::empty() }),
{
}

/// When no edge of `state` matches `input`, applying it leaves the dialogue in
/// `state` and runs no action.
pub proof fn lemma_no_match_is_noop(m: MachineModel, state: Seq<char>, input: Seq<char>)
    requires
        forall|k: int|
            0 <= k < edges_of(m, state).len() ==> !prompt_matches(
                #[trigger] edges_of(m, state)[k].prompt,
                input,
            ),
    ensures
        step(m, state, input) == (StepModel { next_state: state, actions: Seq::empty() }),
{
    let edges = edges_of(m, state);
    lemma_fire_skips(edges, 0, edges.len() as int, state, input);
    lemma_fire_past_end(edges, edges.len() as int, state, input);
}

/// Applying an input is a function of the machine, the state and the input:
/// two applications of the same input in the same state give the same next
/// state and the same actions.
pub proof fn lemma_apply_is_deterministic(
    m: MachineModel,
    state: Seq<char>,
    input: Seq<char>,
    first: StepModel,
    second: StepModel,
)
    requires
        first == step(m, state, input),
        second == step(m, state, input),
    ensures
        first.next_state == second.next_state,
        first.actions == second.actions,
{
}

/// The earliest matching edge of a state is the one taken: when edge `k`
/// matches and no edge before it does, applying the input runs edge `k`'s
/// actions and goes where edge `k` leads, whatever later edges would match.
pub proof fn lemma_first_match_wins(m: MachineModel, state: Seq<char>, input: Seq<char>, k: int)
    requires
        0 <= k < edges_of(m, state).len(),
        prompt_matches(edges_of(m, state)[k].prompt, input),
        forall|j: int| 0 <= j < k ==> !prompt_matches(#[trigger] edges_of(m, state)[j].prompt, input),
    ensures
        step(m, state, input) == take_edge(edges_of(m, state)[k], state),
{
    lemma_fire_skips(edges_of(m, state), 0, k, state, input);
}

/// With no accepting state, no state is accepting.
pub proof fn lemma_no_accepting_states(m: MachineModel, state: Seq<char>)
    requires
        m.accepting_states.len() == 0,
    ensures
        !m.accepting_states.contains(state),
{
}

/// Compiling a document and writing the compiled machine back gives the same
/// document.
pub proof fn lemma_round_trip(doc: &RawStateMachine, machine: &StateMachine, back: &RawStateMachine)
    requires
        machine@ == doc@,
        back@ == machine@,
    ensures
        back@ == doc@,
{
}

} // verus!
