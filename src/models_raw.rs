use vstd::prelude::*;

verus! {

/// The guard of an edge, as a mathematical value.
pub enum PromptModel {
    Text(Seq<char>),
    Regex(Seq<char>),
    Either,
}

/// A side effect of an edge, as a mathematical value.
pub enum ActionModel {
    Message(Seq<char>),
    SendTo(i64, Seq<char>),
}

#[verifier::ext_equal]
pub struct EdgeModel {
    pub prompt: PromptModel,
    pub actions: Seq<ActionModel>,
    pub next: Option<Seq<char>>,
}

#[verifier::ext_equal]
pub struct StateModel {
    pub name: Seq<char>,
    pub edges: Seq<EdgeModel>,
}

/// A riddle graph: the shape shared by a submitted document and a compiled
/// state machine.
#[verifier::ext_equal]
pub struct MachineModel {
    pub initial_state: Seq<char>,
    pub accepting_states: Seq<Seq<char>>,
    pub states: Seq<StateModel>,
}

/// A prompt as written in a riddle document.
#[derive(Clone, Debug, PartialEq, Eq)]
pub enum RawPrompt {
    Text(String),
    Regex(String),
    Either,
}

/// An action as written in a riddle document.
#[derive(Clone, Debug, PartialEq, Eq)]
pub enum RawAction {
    Message(String),
    SendTo { chat_id: i64, message: String },
}

/// An edge as written in a riddle document.
#[derive(Clone, Debug, PartialEq, Eq)]
pub struct RawEdge {
    pub prompt: RawPrompt,
    pub actions: Vec<RawAction>,
    pub next: Option<String>,
}

/// A state as written in a riddle document.
#[derive(Clone, Debug, PartialEq, Eq)]
pub struct RawState {
    pub name: String,
    pub edges: Vec<RawEdge>,
}

/// A riddle document, before validation.
#[derive(Clone, Debug, PartialEq, Eq)]
pub struct RawStateMachine {
    pub initial_state: String,
    pub accepting_states: Vec<String>,
    pub states: Vec<RawState>,
}

impl View for RawPrompt {
    type V = PromptModel;

    open spec fn view(&self) -> PromptModel {
        match self {
            RawPrompt::Text(t) => PromptModel::Text(t@),
            RawPrompt::Regex(p) => PromptModel::Regex(p@),
            RawPrompt::Either => PromptModel::Either,
        }
    }
}

impl View for RawAction {
    type V = ActionModel;

    open spec fn view(&self) -> ActionModel {
        match self {
            RawAction::Message(m) => ActionModel::Message(m@),
            RawAction::SendTo { chat_id, message } => ActionModel::SendTo(*chat_id, message@),
        }
    }
}

pub open spec fn view_name(n: Option<String>) -> Option<Seq<char>> {
    match n {
        Some(s) => Some(s@),
        None => None,
    }
}

impl View for RawEdge {
    type V = EdgeModel;

    open spec fn view(&self) -> EdgeModel {
        EdgeModel {
            prompt: self.prompt@,
            actions: self.actions@.map_values(|a: RawAction| a@),
            next: view_name(self.next),
        }
    }
}

impl View for RawState {
    type V = StateModel;

    open spec fn view(&self) -> StateModel {
        StateModel { name: self.name@, edges: self.edges@.map_values(|e: RawEdge| e@) }
    }
}

impl View for RawStateMachine {
    type V = MachineModel;

    open spec fn view(&self) -> MachineModel {
        MachineModel {
            initial_state: self.initial_state@,
            accepting_states: self.accepting_states@.map_values(|s: String| s@),
            states: self.states@.map_values(|s: RawState| s@),
        }
    }
}

} // verus!
