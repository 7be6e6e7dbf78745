use riddle_bot::admin_commands::{
    new_riddle_code, parse_admins, publish_riddle, requested_code, NewRiddleState, PublishError,
    RANDOM_RIDDLE_CODE,
};
use riddle_bot::commands::{
    riddle_input, settle_riddle, start_riddle, stop_riddle, DialogueState, StopReply,
};
use riddle_bot::models::DefinitionError;
use riddle_bot::models_raw::{RawAction, RawEdge, RawPrompt, RawState, RawStateMachine};
use riddle_bot::riddles::{ChatState, Riddles};
use riddle_bot::utils::escape_chars;

fn two_state_doc() -> RawStateMachine {
    RawStateMachine {
        initial_state: "start".to_string(),
        accepting_states: vec!["end".to_string()],
        states: vec![
            RawState {
                name: "start".to_string(),
                edges: vec![RawEdge {
                    prompt: RawPrompt::Text("open".to_string()),
                    actions: vec![RawAction::Message("it opens".to_string())],
                    next: Some("end".to_string()),
                }],
            },
            RawState { name: "end".to_string(), edges: vec![] },
        ],
    }
}

fn publish(riddles: &mut Riddles, code: &str) -> Result<(), PublishError> {
    publish_riddle(
        riddles,
        code.to_string(),
        "Door".to_string(),
        "Open the door".to_string(),
        99,
        &two_state_doc(),
    )
}

#[test]
fn escape_chars_keeps_text() {
    assert_eq!(escape_chars("a_b*c!"), "a_b*c!");
    assert_eq!(escape_chars(""), "");
}

#[test]
fn random_code_request() {
    assert_eq!(requested_code(RANDOM_RIDDLE_CODE), None);
    assert_eq!(requested_code("door"), Some("door".to_string()));
    assert_eq!(requested_code("random"), Some("random".to_string()));
}

#[test]
fn registry_insert_get_remove() {
    let mut riddles = Riddles::new();
    assert_eq!(riddles.len(), 0);
    assert!(!riddles.contains("door"));
    assert_eq!(publish(&mut riddles, "door"), Ok(()));
    assert!(riddles.contains("door"));
    assert_eq!(riddles.get("door").unwrap().name, "Door");
    assert_eq!(riddles.get("door").unwrap().creator, 99);
    assert_eq!(publish(&mut riddles, "door"), Err(PublishError::CodeTaken));
    assert_eq!(publish(&mut riddles, "gate"), Ok(()));
    assert_eq!(riddles.len(), 2);
    let (code, riddle) = riddles.entry(1);
    assert_eq!(code, "gate");
    assert_eq!(riddle.description, "Open the door");
    assert!(riddles.remove("door"));
    assert!(!riddles.remove("door"));
    assert!(!riddles.contains("door"));
    assert!(riddles.contains("gate"));
    assert_eq!(riddles.len(), 1);
}

#[test]
fn publishing_an_invalid_document_fails() {
    let mut riddles = Riddles::new();
    let mut doc = two_state_doc();
    doc.initial_state = "nowhere".to_string();
    assert_eq!(
        publish_riddle(&mut riddles, "x".to_string(), "n".to_string(), "d".to_string(), 1, &doc),
        Err(PublishError::Invalid(DefinitionError::UnknownState("nowhere".to_string())))
    );
    assert_eq!(riddles.len(), 0);
}

#[test]
fn playing_a_riddle_to_the_end() {
    let mut riddles = Riddles::new();
    publish(&mut riddles, "door").unwrap();
    assert_eq!(start_riddle(&riddles, "window"), None);
    let chat = start_riddle(&riddles, "door").unwrap();
    assert_eq!(chat, ChatState { riddle: "door".to_string(), state: "start".to_string() });

    let t = riddle_input(&riddles, &chat, "knock").unwrap();
    assert_eq!(t.next_state, "start");
    assert!(t.actions.is_empty());
    let machine = &riddles.get("door").unwrap().state_machine;
    assert_eq!(
        settle_riddle(chat.clone(), machine, t.next_state),
        DialogueState::Playing(chat.clone())
    );

    let t = riddle_input(&riddles, &chat, "open").unwrap();
    assert_eq!(t.next_state, "end");
    assert_eq!(t.actions.len(), 1);
    assert_eq!(settle_riddle(chat.clone(), machine, t.next_state), DialogueState::Idle);

    let lost = ChatState { riddle: "door".to_string(), state: "nowhere".to_string() };
    assert!(riddle_input(&riddles, &lost, "open").is_none());
    riddles.remove("door");
    assert!(riddle_input(&riddles, &chat, "open").is_none());
}

#[test]
fn stopping_a_riddle() {
    let chat = ChatState { riddle: "door".to_string(), state: "start".to_string() };
    assert_eq!(
        stop_riddle(DialogueState::Playing(chat)),
        (DialogueState::Idle, StopReply::RiddleStopped)
    );
    assert_eq!(stop_riddle(DialogueState::Idle), (DialogueState::Idle, StopReply::NoRiddleRunning));
    assert_eq!(
        stop_riddle(DialogueState::AwaitingCode),
        (DialogueState::AwaitingCode, StopReply::NoRiddleRunning)
    );
}

#[test]
fn admin_list_parsing() {
    assert_eq!(parse_admins("1,2,3"), vec![1, 2, 3]);
    assert_eq!(parse_admins("12,x,+7,,-4, 5"), vec![12, 7]);
    assert_eq!(parse_admins("18446744073709551615,18446744073709551616"), vec![u64::MAX]);
    assert_eq!(parse_admins(""), Vec::<u64>::new());
    assert_eq!(parse_admins("+"), Vec::<u64>::new());
}

#[test]
fn new_riddle_code_step() {
    let mut riddles = Riddles::new();
    publish(&mut riddles, "door").unwrap();
    assert_eq!(new_riddle_code(&riddles, "door"), None);
    assert_eq!(
        new_riddle_code(&riddles, "gate"),
        Some(NewRiddleState::Name { code: Some("gate".to_string()) })
    );
    assert_eq!(
        new_riddle_code(&riddles, RANDOM_RIDDLE_CODE),
        Some(NewRiddleState::Name { code: None })
    );
}
