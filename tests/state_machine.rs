use riddle_bot::delivery::{Delivery, DeliveryStep};
use riddle_bot::models::{Action, DefinitionError};
use riddle_bot::models_raw::{RawAction, RawEdge, RawPrompt, RawState, RawStateMachine};
use riddle_bot::state_machine::StateMachine;

fn text(s: &str) -> RawPrompt {
    RawPrompt::Text(s.to_string())
}

fn message(s: &str) -> RawAction {
    RawAction::Message(s.to_string())
}

fn edge(prompt: RawPrompt, actions: Vec<RawAction>, next: Option<&str>) -> RawEdge {
    RawEdge { prompt, actions, next: next.map(|n| n.to_string()) }
}

fn state(name: &str, edges: Vec<RawEdge>) -> RawState {
    RawState { name: name.to_string(), edges }
}

fn machine(initial: &str, accepting: &[&str], states: Vec<RawState>) -> RawStateMachine {
    RawStateMachine {
        initial_state: initial.to_string(),
        accepting_states: accepting.iter().map(|s| s.to_string()).collect(),
        states,
    }
}

fn example_state_machine() -> RawStateMachine {
    machine(
        "0",
        &["2"],
        vec![
            state(
                "0",
                vec![
                    edge(text("Hello, world!"), vec![message("Goodbye, world!")], Some("1")),
                    edge(RawPrompt::Either, vec![message("Nope")], Some("2")),
                ],
            ),
            state("1", vec![edge(RawPrompt::Either, vec![message("Nope")], Some("0"))]),
            state("2", vec![]),
        ],
    )
}

/// Records what was delivered, in order.
struct Applier {
    messages: Vec<String>,
}

impl Applier {
    fn new() -> Self {
        Self { messages: vec![] }
    }

    fn apply_message(&mut self, message: &str) -> Result<(), String> {
        self.messages.push(message.to_string());
        Ok(())
    }

    fn apply_send_to(&mut self, chat_id: i64, message: &str) -> Result<(), String> {
        self.messages.push(format!("{}:{}", chat_id, message));
        Ok(())
    }
}

/// Applies `input` and delivers the actions through `applier`; returns the
/// next state.
fn run(m: &StateMachine, applier: &mut Applier, state_name: &str, input: &str) -> String {
    let t = m.apply(state_name, input);
    let mut d = Delivery::new(state_name.to_string(), t);
    loop {
        match d.next_step() {
            DeliveryStep::Deliver(Action::Message(text)) => {
                applier.apply_message(&text).unwrap();
                d.acknowledge();
            }
            DeliveryStep::Deliver(Action::SendTo(id, text)) => {
                applier.apply_send_to(id, &text).unwrap();
                d.acknowledge();
            }
            DeliveryStep::Advance(s) | DeliveryStep::Stay(s) => return s,
        }
    }
}

#[test]
fn simple_test() {
    let state_machine = StateMachine::new(&machine(
        "1",
        &["3"],
        vec![
            state("1", vec![edge(text("1-2"), vec![message("1-2")], Some("2"))]),
            state(
                "2",
                vec![
                    edge(text("2-1"), vec![message("2-1")], Some("1")),
                    edge(RawPrompt::Either, vec![message("2-3")], Some("3")),
                ],
            ),
            state("3", vec![]),
        ],
    ))
    .unwrap();

    let mut applier = Applier::new();
    let mut state_name = state_machine.initial_state();
    state_name = run(&state_machine, &mut applier, &state_name, "1-2");
    state_name = run(&state_machine, &mut applier, &state_name, "blep");
    assert_eq!(state_name, "3");
    assert_eq!(applier.messages, vec!["1-2".to_string(), "2-3".to_string()]);
    assert!(state_machine.is_accepting(&state_name));

    applier = Applier::new();
    state_name = state_machine.initial_state();
    state_name = run(&state_machine, &mut applier, &state_name, "1-2");
    state_name = run(&state_machine, &mut applier, &state_name, "2-1");
    state_name = run(&state_machine, &mut applier, &state_name, "1-2");
    state_name = run(&state_machine, &mut applier, &state_name, "nghu");
    assert_eq!(state_name, "3");
    assert_eq!(
        applier.messages,
        vec!["1-2".to_string(), "2-1".to_string(), "1-2".to_string(), "2-3".to_string()]
    );
    assert!(state_machine.is_accepting(&state_name));

    applier = Applier::new();
    state_name = state_machine.initial_state();
    state_name = run(&state_machine, &mut applier, &state_name, "1-2");
    state_name = run(&state_machine, &mut applier, &state_name, "2-1");
    assert_eq!(state_name, "1");
    assert_eq!(applier.messages, vec!["1-2".to_string(), "2-1".to_string()]);
    assert!(!state_machine.is_accepting(&state_name));
}

#[test]
fn end_to_end_fixture() {
    let m = StateMachine::new(&example_state_machine()).unwrap();
    let mut applier = Applier::new();
    let s = run(&m, &mut applier, "0", "Hello, world!");
    assert_eq!(s, "1");
    assert_eq!(applier.messages, vec!["Goodbye, world!".to_string()]);

    applier = Applier::new();
    let s = run(&m, &mut applier, &s, "anything");
    assert_eq!(s, "0");
    assert_eq!(applier.messages, vec!["Nope".to_string()]);

    applier = Applier::new();
    let s = run(&m, &mut applier, &s, "anything");
    assert_eq!(s, "2");
    assert_eq!(applier.messages, vec!["Nope".to_string()]);
    assert!(m.is_accepting("2"));
}

#[test]
fn no_matching_edge_is_a_no_op() {
    let m = StateMachine::new(&machine(
        "a",
        &[],
        vec![
            state("a", vec![edge(text("go"), vec![message("went")], Some("b"))]),
            state("b", vec![]),
        ],
    ))
    .unwrap();
    let t = m.apply("a", "stay");
    assert_eq!(t.next_state, "a");
    assert!(t.actions.is_empty());
    let t = m.apply("b", "anything");
    assert_eq!(t.next_state, "b");
    assert!(t.actions.is_empty());
}

#[test]
fn apply_is_deterministic() {
    let m = StateMachine::new(&example_state_machine()).unwrap();
    for input in ["Hello, world!", "other", ""] {
        let first = m.apply("0", input);
        let second = m.apply("0", input);
        assert_eq!(first.next_state, second.next_state);
        assert_eq!(first.actions, second.actions);
    }
}

#[test]
fn first_matching_edge_wins() {
    let m = StateMachine::new(&machine(
        "s",
        &[],
        vec![
            state(
                "s",
                vec![
                    edge(text("X"), vec![message("to A")], Some("A")),
                    edge(RawPrompt::Either, vec![message("to B")], Some("B")),
                ],
            ),
            state("A", vec![]),
            state("B", vec![]),
        ],
    ))
    .unwrap();
    let t = m.apply("s", "X");
    assert_eq!(t.next_state, "A");
    assert_eq!(t.actions, vec![Action::Message("to A".to_string())]);
    let t = m.apply("s", "Y");
    assert_eq!(t.next_state, "B");
}

#[test]
fn edge_without_target_stays() {
    let m = StateMachine::new(&machine(
        "s",
        &[],
        vec![state("s", vec![edge(text("hi"), vec![message("hello")], None)])],
    ))
    .unwrap();
    let t = m.apply("s", "hi");
    assert_eq!(t.next_state, "s");
    assert_eq!(t.actions, vec![Action::Message("hello".to_string())]);
}

#[test]
fn regex_prompt_searches_anywhere() {
    let m = StateMachine::new(&machine(
        "s",
        &["t"],
        vec![
            state(
                "s",
                vec![edge(RawPrompt::Regex("[0-9]+".to_string()), vec![message("number")], Some("t"))],
            ),
            state("t", vec![]),
        ],
    ))
    .unwrap();
    assert_eq!(m.apply("s", "abc 42 def").next_state, "t");
    assert_eq!(m.apply("s", "no digits").next_state, "s");
    let anchored = StateMachine::new(&machine(
        "s",
        &[],
        vec![
            state("s", vec![edge(RawPrompt::Regex("^ab$".to_string()), vec![], Some("t"))]),
            state("t", vec![]),
        ],
    ))
    .unwrap();
    assert_eq!(anchored.apply("s", "ab").next_state, "t");
    assert_eq!(anchored.apply("s", "xab").next_state, "s");
    assert!(anchored.has_state("t"));
    assert!(!anchored.has_state("u"));
}

#[test]
fn accepting_membership() {
    let m = StateMachine::new(&example_state_machine()).unwrap();
    assert!(m.is_accepting("2"));
    assert!(!m.is_accepting("0"));
    assert!(!m.is_accepting("missing"));
    let none = StateMachine::new(&machine("0", &[], vec![state("0", vec![])])).unwrap();
    assert!(!none.is_accepting("0"));
    assert!(!none.is_accepting(""));
}

#[test]
fn round_trip_gives_the_same_document() {
    let mut doc = example_state_machine();
    doc.states[1].edges.push(edge(
        RawPrompt::Regex("a+b".to_string()),
        vec![RawAction::SendTo { chat_id: -42, message: "hi".to_string() }],
        None,
    ));
    let m = StateMachine::new(&doc).unwrap();
    assert_eq!(m.to_document(), doc);
}

#[test]
fn invalid_pattern_is_rejected() {
    let doc = machine(
        "s",
        &[],
        vec![state("s", vec![edge(RawPrompt::Regex("(unclosed".to_string()), vec![], None)])],
    );
    assert_eq!(
        StateMachine::new(&doc).err(),
        Some(DefinitionError::InvalidPattern("(unclosed".to_string()))
    );
}

#[test]
fn duplicate_state_is_rejected() {
    let doc = machine("s", &[], vec![state("s", vec![]), state("s", vec![])]);
    assert_eq!(
        StateMachine::new(&doc).err(),
        Some(DefinitionError::DuplicateState("s".to_string()))
    );
}

#[test]
fn dangling_references_are_rejected() {
    let doc = machine("missing", &[], vec![state("s", vec![])]);
    assert_eq!(
        StateMachine::new(&doc).err(),
        Some(DefinitionError::UnknownState("missing".to_string()))
    );
    let doc = machine("s", &["gone"], vec![state("s", vec![])]);
    assert_eq!(
        StateMachine::new(&doc).err(),
        Some(DefinitionError::UnknownState("gone".to_string()))
    );
    let doc = machine("s", &[], vec![state("s", vec![edge(RawPrompt::Either, vec![], Some("away"))])]);
    assert_eq!(
        StateMachine::new(&doc).err(),
        Some(DefinitionError::UnknownState("away".to_string()))
    );
}

#[test]
fn empty_document_has_no_initial_state() {
    let doc = machine("0", &[], vec![]);
    assert!(StateMachine::new(&doc).is_err());
}

#[test]
fn actions_are_delivered_in_order() {
    let m = StateMachine::new(&machine(
        "s",
        &[],
        vec![
            state(
                "s",
                vec![edge(
                    RawPrompt::Either,
                    vec![message("a"), RawAction::SendTo { chat_id: 7, message: "b".to_string() }],
                    Some("t"),
                )],
            ),
            state("t", vec![]),
        ],
    ))
    .unwrap();
    let mut d = Delivery::new("s".to_string(), m.apply("s", "x"));
    assert_eq!(d.next_step(), DeliveryStep::Deliver(Action::Message("a".to_string())));
    // Nothing moves on until the first action is acknowledged.
    assert_eq!(d.next_step(), DeliveryStep::Deliver(Action::Message("a".to_string())));
    d.acknowledge();
    assert_eq!(d.next_step(), DeliveryStep::Deliver(Action::SendTo(7, "b".to_string())));
    d.acknowledge();
    assert_eq!(d.next_step(), DeliveryStep::Advance("t".to_string()));

    let mut applier = Applier::new();
    assert_eq!(run(&m, &mut applier, "s", "x"), "t");
    assert_eq!(applier.messages, vec!["a".to_string(), "7:b".to_string()]);
}

#[test]
fn failed_delivery_keeps_the_state() {
    let m = StateMachine::new(&machine(
        "s",
        &[],
        vec![
            state("s", vec![edge(RawPrompt::Either, vec![message("a"), message("b")], Some("t"))]),
            state("t", vec![]),
        ],
    ))
    .unwrap();
    let mut d = Delivery::new("s".to_string(), m.apply("s", "x"));
    assert_eq!(d.next_step(), DeliveryStep::Deliver(Action::Message("a".to_string())));
    d.fail();
    assert_eq!(d.next_step(), DeliveryStep::Stay("s".to_string()));
}
