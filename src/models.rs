use vstd::prelude::*;

use crate::models_raw::{
    view_name, ActionModel, EdgeModel, PromptModel, RawAction, RawEdge, RawPrompt, RawState,
    StateModel,
};
use crate::pattern::{regex_compiles, regex_finds, Pattern};

verus! {

/// Why a riddle document cannot be turned into a state machine.
#[derive(Clone, Debug, PartialEq, Eq)]
pub enum DefinitionError {
    /// A regex prompt whose pattern the regex engine rejects.
    InvalidPattern(String),
    /// Two states of the document share this name.
    DuplicateState(String),
    /// This name is used as a state but no state of the document has it.
    UnknownState(String),
}

/// Whether `input` satisfies the guard `p`: equal to the text, containing a
/// match of the pattern, or anything at all.
pub open spec fn prompt_matches(p: PromptModel, input: Seq<char>) -> bool {
    match p {
        PromptModel::Text(t) => t == input,
        PromptModel::Regex(r) => regex_finds(r, input),
        PromptModel::Either => true,
    }
}

/// Whether the prompt can be compiled: only a regex prompt can fail.
pub open spec fn prompt_compiles(p: PromptModel) -> bool {
    match p {
        PromptModel::Regex(r) => regex_compiles(r),
        _ => true,
    }
}

pub open spec fn edges_compile(edges: Seq<EdgeModel>) -> bool {
    forall|i: int| 0 <= i < edges.len() ==> prompt_compiles(#[trigger] edges[i].prompt)
}

/// `p` is the pattern of one of `edges` that does not compile.
pub open spec fn is_bad_pattern_of(edges: Seq<EdgeModel>, p: Seq<char>) -> bool {
    exists|i: int|
        0 <= i < edges.len() && #[trigger] edges[i].prompt == PromptModel::Regex(p)
            && !regex_compiles(p)
}

pub enum Prompt {
    Text(String),
    Regex(Pattern),
    Either,
}

impl View for Prompt {
    type V = PromptModel;

    open spec fn view(&self) -> PromptModel {
        match self {
            Prompt::Text(t) => PromptModel::Text(t@),
            Prompt::Regex(p) => PromptModel::Regex(p@),
            Prompt::Either => PromptModel::Either,
        }
    }
}

impl Prompt {
    /// Compiles a document prompt; a regex prompt is compiled eagerly.
    pub fn new(prompt: &RawPrompt) -> (r: Result<Prompt, DefinitionError>)
        ensures
            r is Ok <==> prompt_compiles(prompt@),
            r matches Ok(p) ==> p@ == prompt@,
            r matches Err(e) ==> (e matches DefinitionError::InvalidPattern(s) && prompt@
                == PromptModel::Regex(s@)),
    {
        match prompt {
            RawPrompt::Text(t) => Ok(Prompt::Text(t.clone())),
            RawPrompt::Regex(source) => match Pattern::compile(source.clone()) {
                Ok(p) => Ok(Prompt::Regex(p)),
                Err(_) => Err(DefinitionError::InvalidPattern(source.clone())),
            },
            RawPrompt::Either => Ok(Prompt::Either),
        }
    }

    /// Whether `input` satisfies this guard.
    pub fn matches(&self, input: &String) -> (r: bool)
        ensures
            r == prompt_matches(self@, input@),
    {
        match self {
            Prompt::Text(text) => *text == *input,
            Prompt::Regex(pattern) => pattern.is_found_in(input.as_str()),
            Prompt::Either => true,
        }
    }

    /// The prompt as it is written in a document.
    pub fn to_raw(&self) -> (r: RawPrompt)
        ensures
            r@ == self@,
    {
        match self {
            Prompt::Text(t) => RawPrompt::Text(t.clone()),
            Prompt::Regex(p) => RawPrompt::Regex(p.source()),
            Prompt::Either => RawPrompt::Either,
        }
    }
}

#[derive(Debug, PartialEq, Eq)]
pub enum Action {
    /// Deliver the text to the chat being served.
    Message(String),
    /// Deliver the text to the chat with this id.
    SendTo(i64, String),
}

impl View for Action {
    type V = ActionModel;

    open spec fn view(&self) -> ActionModel {
        match self {
            Action::Message(m) => ActionModel::Message(m@),
            Action::SendTo(id, m) => ActionModel::SendTo(*id, m@),
        }
    }
}

impl Action {
    pub fn new(action: &RawAction) -> (r: Action)
        ensures
            r@ == action@,
    {
        match action {
            RawAction::Message(m) => Action::Message(m.clone()),
            RawAction::SendTo { chat_id, message } => Action::SendTo(*chat_id, message.clone()),
        }
    }

    /// A copy of this action.
    pub fn duplicate(&self) -> (r: Action)
        ensures
            r@ == self@,
    {
        match self {
            Action::Message(m) => Action::Message(m.clone()),
            Action::SendTo(id, m) => Action::SendTo(*id, m.clone()),
        }
    }

    pub fn to_raw(&self) -> (r: RawAction)
        ensures
            r@ == self@,
    {
        match self {
            Action::Message(m) => RawAction::Message(m.clone()),
            Action::SendTo(id, m) => RawAction::SendTo { chat_id: *id, message: m.clone() },
        }
    }
}

pub open spec fn view_actions(actions: Seq<Action>) -> Seq<ActionModel> {
    actions.map_values(|a: Action| a@)
}

/// A copy of every action, in the same order.
pub fn duplicate_actions(actions: &Vec<Action>) -> (r: Vec<Action>)
    ensures
        view_actions(r@) == view_actions(actions@),
{
    let mut out: Vec<Action> = Vec::new();
    let mut i: usize = 0;
    while i < actions.len()
        invariant
            i <= actions.len(),
            out.len() == i,
            forall|j: int| 0 <= j < i ==> #[trigger] out@[j]@ == actions@[j]@,
        decreases actions.len() - i,
    {
        out.push(actions[i].duplicate());
        i = i + 1;
    }
    assert(view_actions(out@) =~= view_actions(actions@));
    out
}

pub struct Edge {
    pub prompt: Prompt,
    pub actions: Vec<Action>,
    pub next: Option<String>,
}

impl View for Edge {
    type V = EdgeModel;

    open spec fn view(&self) -> EdgeModel {
        EdgeModel {
            prompt: self.prompt@,
            actions: view_actions(self.actions@),
            next: view_name(self.next),
        }
    }
}

fn copy_name(n: &Option<String>) -> (r: Option<String>)
    ensures
        view_name(r) == view_name(*n),
{
    match n {
        Some(s) => Some(s.clone()),
        None => None,
    }
}

impl Edge {
    pub fn new(edge: &RawEdge) -> (r: Result<Edge, DefinitionError>)
        ensures
            r is Ok <==> prompt_compiles(edge@.prompt),
            r matches Ok(e) ==> e@ == edge@,
            r matches Err(e) ==> (e matches DefinitionError::InvalidPattern(s) && edge@.prompt
                == PromptModel::Regex(s@)),
    {
        let prompt = match Prompt::new(&edge.prompt) {
            Ok(p) => p,
            Err(e) => {
                return Err(e);
            },
        };
        let mut actions: Vec<Action> = Vec::new();
        let mut i: usize = 0;
        while i < edge.actions.len()
            invariant
                i <= edge.actions.len(),
                actions.len() == i,
                forall|j: int| 0 <= j < i ==> #[trigger] actions@[j]@ == edge.actions@[j]@,
            decreases edge.actions.len() - i,
        {
            actions.push(Action::new(&edge.actions[i]));
            i = i + 1;
        }
        let r = Edge { prompt, actions, next: copy_name(&edge.next) };
        assert(r@.actions =~= edge@.actions);
        Ok(r)
    }

    pub fn to_raw(&self) -> (r: RawEdge)
        ensures
            r@ == self@,
    {
        let mut actions: Vec<RawAction> = Vec::new();
        let mut i: usize = 0;
        while i < self.actions.len()
            invariant
                i <= self.actions.len(),
                actions.len() == i,
                forall|j: int| 0 <= j < i ==> #[trigger] actions@[j]@ == self.actions@[j]@,
            decreases self.actions.len() - i,
        {
            actions.push(self.actions[i].to_raw());
            i = i + 1;
        }
        let r = RawEdge { prompt: self.prompt.to_raw(), actions, next: copy_name(&self.next) };
        assert(r@.actions =~= self@.actions);
        r
    }
}

/// A state of a compiled machine: its name and its edges, in the order in
/// which they are tried.
pub struct State {
    pub name: String,
    pub edges: Vec<Edge>,
}

impl View for State {
    type V = StateModel;

    open spec fn view(&self) -> StateModel {
        StateModel { name: self.name@, edges: self.edges@.map_values(|e: Edge| e@) }
    }
}

impl State {
    pub fn new(state: &RawState) -> (r: Result<State, DefinitionError>)
        ensures
            r is Ok <==> edges_compile(state@.edges),
            r matches Ok(s) ==> s@ == state@,
            r matches Err(e) ==> (e matches DefinitionError::InvalidPattern(p) && is_bad_pattern_of(
                state@.edges,
                p@,
            )),
    {
        let mut edges: Vec<Edge> = Vec::new();
        let mut i: usize = 0;
        while i < state.edges.len()
            invariant
                i <= state.edges.len(),
                edges.len() == i,
                forall|j: int| 0 <= j < i ==> #[trigger] edges@[j]@ == state.edges@[j]@,
                forall|j: int| 0 <= j < i ==> prompt_compiles(#[trigger] state@.edges[j].prompt),
            decreases state.edges.len() - i,
        {
            match Edge::new(&state.edges[i]) {
                Ok(e) => edges.push(e),
                Err(e) => {
                    assert(state@.edges[i as int] == state.edges@[i as int]@);
                    assert(!edges_compile(state@.edges));
                    return Err(e);
                },
            }
            i = i + 1;
        }
        let r = State { name: state.name.clone(), edges };
        assert(r@.edges =~= state@.edges);
        Ok(r)
    }

    pub fn to_raw(&self) -> (r: RawState)
        ensures
            r@ == self@,
    {
        let mut edges: Vec<RawEdge> = Vec::new();
        let mut i: usize = 0;
        while i < self.edges.len()
            invariant
                i <= self.edges.len(),
                edges.len() == i,
                forall|j: int| 0 <= j < i ==> #[trigger] edges@[j]@ == self.edges@[j]@,
            decreases self.edges.len() - i,
        {
            edges.push(self.edges[i].to_raw());
            i = i + 1;
        }
        let r = RawState { name: self.name.clone(), edges };
        assert(r@.edges =~= self@.edges);
        r
    }
}

} // verus!
