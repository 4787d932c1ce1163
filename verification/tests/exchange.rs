use std::collections::VecDeque;

use chat_client::chat::{
    add_history, outbound_messages, Completion, CompletionParams, CompletionRole,
    TransportOutcome, ERROR_TEXT,
};
use chat_client::managers::{Chat, ChatManager};
use chat_client::model::{models_from_body, Model};
use chat_client::ClientError;

fn model(name: &str) -> Model {
    Model::from(String::from(name))
}

fn ok_body(content: &str) -> String {
    let mut s = String::from("{\"choices\":[{\"message\":{\"content\":\"");
    s.push_str(content);
    s.push_str("\"}}]}");
    s
}

#[test]
fn successful_exchange_grows_history_by_two() {
    let mut chat = Chat::new(model("m"));
    chat.with_history();
    let body = chat
        .begin_completion("key", Completion::new(CompletionRole::USER, "question"))
        .expect("credential present");
    assert!(body.contains("\"messages\":[{\"role\":\"user\",\"content\":\"question\"}]"));
    let r = chat.finish_completion(TransportOutcome::Reply { status: 201, body: ok_body("answer") });
    assert!(r.is_ok());
    let hist = chat.history.as_ref().expect("history enabled");
    assert_eq!(hist.len(), 2);
    assert_eq!(hist[0].get_role(), CompletionRole::AI);
    assert_eq!(hist[0].content, "answer");
    assert_eq!(hist[1].get_role(), CompletionRole::USER);
    assert_eq!(hist[1].content, "question");
}

#[test]
fn failed_exchange_grows_history_by_two_with_error_turn() {
    let mut chat = Chat::new(model("m"));
    chat.with_history();
    chat.begin_completion("key", Completion::new(CompletionRole::USER, "question"))
        .expect("credential present");
    let r = chat.finish_completion(TransportOutcome::Failed);
    assert_eq!(r, Err(ClientError::Transport));
    let hist = chat.history.as_ref().expect("history enabled");
    assert_eq!(hist.len(), 2);
    assert_eq!(hist[0].get_role(), CompletionRole::AI);
    assert_eq!(hist[0].content, ERROR_TEXT);
    assert_eq!(hist[0].content, "An error occurred while sending the message");
    assert_eq!(hist[1].content, "question");
}

#[test]
fn status_200_is_failure_even_with_well_formed_body() {
    let mut chat = Chat::new(model("m"));
    chat.with_history();
    chat.begin_completion("key", Completion::new(CompletionRole::USER, "q"))
        .expect("credential present");
    let r = chat.finish_completion(TransportOutcome::Reply { status: 200, body: ok_body("fine") });
    assert_eq!(r, Err(ClientError::UnexpectedStatus(200)));
    let hist = chat.history.as_ref().expect("history enabled");
    assert_eq!(hist.len(), 2);
    assert_eq!(hist[0].content, ERROR_TEXT);
}

#[test]
fn status_201_with_numeric_content_is_malformed() {
    let mut chat = Chat::new(model("m"));
    chat.with_history();
    chat.begin_completion("key", Completion::new(CompletionRole::USER, "q"))
        .expect("credential present");
    let body = String::from("{\"choices\":[{\"message\":{\"content\":5}}]}");
    let r = chat.finish_completion(TransportOutcome::Reply { status: 201, body });
    assert_eq!(r, Err(ClientError::MalformedResponse));
    let hist = chat.history.as_ref().expect("history enabled");
    assert_eq!(hist.len(), 2);
    assert_eq!(hist[0].content, ERROR_TEXT);
}

#[test]
fn missing_credential_fails_before_touching_history() {
    let mut chat = Chat::new(model("m"));
    chat.with_history();
    let r = chat.begin_completion("", Completion::new(CompletionRole::USER, "q"));
    assert!(matches!(r, Err(ClientError::MissingCredential)));
    assert_eq!(chat.history.as_ref().expect("history enabled").len(), 0);
}

#[test]
fn outbound_payload_drops_ai_turns_keeping_order() {
    let mut history: Option<VecDeque<Completion>> = Some(VecDeque::new());
    add_history(&mut history, Completion::new(CompletionRole::USER, "q1"));
    add_history(&mut history, Completion::new(CompletionRole::AI, "r1"));
    add_history(&mut history, Completion::new(CompletionRole::USER, "q2"));
    add_history(&mut history, Completion::new(CompletionRole::AI, "r2"));
    let outbound = outbound_messages(&Completion::new(CompletionRole::USER, "unused"), &history);
    assert_eq!(outbound.len(), 2);
    assert_eq!(outbound[0].get_role(), CompletionRole::USER);
    assert_eq!(outbound[0].content, "q2");
    assert_eq!(outbound[1].get_role(), CompletionRole::USER);
    assert_eq!(outbound[1].content, "q1");
}

#[test]
fn payload_without_history_is_the_exact_expected_text() {
    let mut chat = Chat::new(model("gpt"));
    let body = chat
        .begin_completion("key", Completion::new(CompletionRole::USER, "hi"))
        .expect("credential present");
    assert_eq!(
        body,
        "{\"model\":\"gpt\",\"max_tokens\":512,\"frequency_penalty\":0.7,\"top_p\":0.7,\
         \"temperature\":0.7,\"stream\":false,\"messages\":[{\"role\":\"user\",\
         \"content\":\"hi\"}]}"
    );
    assert!(chat.history.is_none());
}

#[test]
fn payload_renders_parameters_as_plain_decimals() {
    let mut chat = Chat::new(model("m"));
    chat.global_params = CompletionParams::new(100, 250, 1000, 50, true);
    let body = chat
        .begin_completion("key", Completion::new(CompletionRole::SYSTEM, "s"))
        .expect("credential present");
    assert_eq!(
        body,
        "{\"model\":\"m\",\"max_tokens\":100,\"frequency_penalty\":0.25,\"top_p\":1,\
         \"temperature\":0.05,\"stream\":true,\"messages\":[{\"role\":\"system\",\
         \"content\":\"s\"}]}"
    );
}

#[test]
fn payload_escapes_message_text() {
    let mut chat = Chat::new(model("m"));
    let text = "a\"b\\c\nd\te\u{1}";
    let body = chat
        .begin_completion("key", Completion::new(CompletionRole::USER, text))
        .expect("credential present");
    assert!(body.contains("{\"role\":\"user\",\"content\":\"a\\\"b\\\\c\\nd\\te\\u0001\"}"));
}

#[test]
fn manager_sends_in_current_chat() {
    let mut mgr = ChatManager::new();
    assert_eq!(
        mgr.begin_current_completion("key", Completion::new(CompletionRole::USER, "q")),
        Err(ClientError::NotFound)
    );
    let id = mgr.create_new_chat(model("m"));
    let body = mgr
        .begin_current_completion("key", Completion::new(CompletionRole::USER, "q"))
        .expect("current chat present");
    assert!(body.contains("\"content\":\"q\""));
    let r = mgr.finish_current_completion(TransportOutcome::Reply {
        status: 201,
        body: ok_body("a"),
    });
    assert!(r.is_ok());
    assert!(mgr.chat_exists(id));
    assert!(mgr.get_chat(id).expect("present").history.is_none());
}

#[test]
fn role_wire_names_round_trip() {
    let user = Completion::new(CompletionRole::USER, "x");
    let system = Completion::new(CompletionRole::SYSTEM, "x");
    let ai = Completion::new(CompletionRole::AI, "x");
    assert_eq!(user.get_role(), CompletionRole::USER);
    assert_eq!(system.get_role(), CompletionRole::SYSTEM);
    assert_eq!(ai.get_role(), CompletionRole::AI);
    assert_eq!(user.duplicate().content, "x");
    assert_eq!(user.duplicate().get_role(), CompletionRole::USER);
}

#[test]
fn catalog_body_yields_its_keys_as_models() {
    let models = models_from_body("{\"m1\":\"meta\",\"m2\":\"other\"}").expect("object of strings");
    let mut names: Vec<String> = models.into_iter().map(|m| m.name).collect();
    names.sort();
    assert_eq!(names, vec![String::from("m1"), String::from("m2")]);
}

#[test]
fn catalog_body_that_is_not_an_object_of_strings_fails() {
    assert_eq!(models_from_body("not json").unwrap_err(), ClientError::Parse);
    assert_eq!(models_from_body("{\"a\":1}").unwrap_err(), ClientError::Parse);
    assert_eq!(models_from_body("[\"a\"]").unwrap_err(), ClientError::Parse);
}

#[test]
fn empty_catalog_body_yields_no_models() {
    let models = models_from_body("{}").expect("empty object parses");
    assert!(models.is_empty());
}
