use chat_client::chat::{Completion, CompletionParams, CompletionRole, TransportOutcome};
use chat_client::managers::{Chat, ChatManager};
use chat_client::model::Model;
use chat_client::ClientError;

fn model(name: &str) -> Model {
    Model::from(String::from(name))
}

#[test]
fn create_returns_distinct_live_ids() {
    let mut mgr = ChatManager::new();
    let a = mgr.create_new_chat(model("m1"));
    let b = mgr.create_new_chat(model("m2"));
    assert_ne!(a, 0);
    assert_ne!(b, 0);
    assert_ne!(a, b);
    assert!(mgr.chat_exists(a));
    assert!(mgr.chat_exists(b));
    let ids = mgr.chat_ids();
    assert_eq!(ids.len(), 2);
    assert!(ids.contains(&a));
    assert!(ids.contains(&b));
}

#[test]
fn first_create_becomes_current_second_does_not() {
    let mut mgr = ChatManager::new();
    assert!(mgr.get_current_chat().is_none());
    let a = mgr.create_new_chat(model("m1"));
    let (cur, chat) = mgr.get_current_chat().expect("first create sets current");
    assert_eq!(cur, a);
    assert_eq!(chat.model.name, "m1");
    let b = mgr.create_new_chat(model("m2"));
    let (cur2, _) = mgr.get_current_chat().expect("current stays set");
    assert_eq!(cur2, a);
    assert_ne!(cur2, b);
}

#[test]
fn remove_then_exists_is_false() {
    let mut mgr = ChatManager::new();
    let a = mgr.create_new_chat(model("m"));
    assert!(mgr.chat_exists(a));
    assert!(mgr.remove_chat(a).is_ok());
    assert!(!mgr.chat_exists(a));
    assert_eq!(mgr.remove_chat(a), Err(ClientError::NotFound));
}

#[test]
fn remove_absent_fails_and_mutates_nothing() {
    let mut mgr = ChatManager::new();
    let a = mgr.create_new_chat(model("m"));
    assert_eq!(mgr.remove_chat(a.wrapping_add(1)), Err(ClientError::NotFound));
    assert!(mgr.chat_exists(a));
    assert_eq!(mgr.chat_ids().len(), 1);
    let (cur, _) = mgr.get_current_chat().expect("current untouched");
    assert_eq!(cur, a);
}

#[test]
fn removing_current_unsets_marker() {
    let mut mgr = ChatManager::new();
    let a = mgr.create_new_chat(model("m1"));
    let b = mgr.create_new_chat(model("m2"));
    assert!(mgr.remove_chat(a).is_ok());
    assert!(mgr.get_current_chat().is_none());
    assert!(mgr.set_current_chat(b).is_ok());
    let (cur, _) = mgr.get_current_chat().expect("set_current restores a current chat");
    assert_eq!(cur, b);
}

#[test]
fn create_on_empty_after_removal_sets_current_again() {
    let mut mgr = ChatManager::new();
    let a = mgr.create_new_chat(model("m1"));
    assert!(mgr.remove_chat(a).is_ok());
    assert!(mgr.get_current_chat().is_none());
    let b = mgr.create_new_chat(model("m2"));
    let (cur, _) = mgr.get_current_chat().expect("create on empty sets current");
    assert_eq!(cur, b);
}

#[test]
fn set_current_absent_fails() {
    let mut mgr = ChatManager::new();
    let a = mgr.create_new_chat(model("m"));
    assert_eq!(mgr.set_current_chat(a.wrapping_add(1)), Err(ClientError::NotFound));
    let (cur, _) = mgr.get_current_chat().expect("marker untouched");
    assert_eq!(cur, a);
}

#[test]
fn get_chat_finds_sessions_by_id() {
    let mut mgr = ChatManager::new();
    let a = mgr.create_new_chat(model("alpha"));
    let b = mgr.create_new_chat(model("beta"));
    assert_eq!(mgr.get_chat(a).expect("present").model.name, "alpha");
    assert_eq!(mgr.get_chat(b).expect("present").model.name, "beta");
    assert!(mgr.get_chat(a.wrapping_add(1)).is_none());
}

#[test]
fn new_registry_saves_by_default() {
    let mut mgr = ChatManager::new();
    assert!(mgr.local_save());
    mgr.set_local_save(false);
    assert!(!mgr.local_save());
}

#[test]
fn set_models_replaces_catalog() {
    let mut mgr = ChatManager::new();
    assert!(mgr.models().is_empty());
    mgr.set_models(vec![model("m1"), model("m2")]);
    let names: Vec<&str> = mgr.models().iter().map(|m| m.name.as_str()).collect();
    assert_eq!(names, vec!["m1", "m2"]);
}

#[test]
fn from_parts_rebuilds_a_registry() {
    let chats = vec![
        (7u128, Chat::new(model("m1"))),
        (9u128, Chat::new(model("m2"))),
    ];
    let mgr = ChatManager::from_parts(9, chats, false, vec![model("m1")])
        .expect("well-formed parts are accepted");
    assert!(mgr.chat_exists(7));
    assert!(mgr.chat_exists(9));
    assert_eq!(mgr.current_chat_id(), 9);
    assert!(!mgr.local_save());
    assert_eq!(mgr.get_chat(7).expect("present").model.name, "m1");
    let (cur, chat) = mgr.get_current_chat().expect("marker names a stored session");
    assert_eq!(cur, 9);
    assert_eq!(chat.model.name, "m2");
}

#[test]
fn registry_edits_reach_managed_sessions() {
    let mut mgr = ChatManager::new();
    let a = mgr.create_new_chat(model("m"));
    assert!(mgr.get_chat(a).expect("present").history.is_none());
    assert!(mgr.enable_chat_history(a).is_ok());
    assert_eq!(mgr.get_chat(a).expect("present").history.as_ref().map(|h| h.len()), Some(0));
    assert!(mgr.set_chat_title(a, String::from("my chat")).is_ok());
    assert_eq!(mgr.get_chat(a).expect("present").title.as_deref(), Some("my chat"));
    let absent = a.wrapping_add(1);
    assert_eq!(mgr.enable_chat_history(absent), Err(ClientError::NotFound));
    assert_eq!(mgr.set_chat_title(absent, String::new()), Err(ClientError::NotFound));
}

#[test]
fn registry_parts_round_trip() {
    let mut mgr = ChatManager::new();
    let a = mgr.create_new_chat(model("m1"));
    mgr.enable_chat_history(a).expect("present");
    mgr.set_chat_title(a, String::from("talk")).expect("present");
    mgr.begin_current_completion("key", Completion::new(CompletionRole::USER, "q"))
        .expect("current set");
    let reply = String::from("{\"choices\":[{\"message\":{\"content\":\"ans\"}}]}");
    mgr.finish_current_completion(TransportOutcome::Reply { status: 201, body: reply })
        .expect("well-formed reply");
    mgr.set_models(vec![model("stale")]);

    let parts: Vec<(u128, Chat)> = mgr
        .chat_ids()
        .into_iter()
        .map(|id| {
            let c = mgr.get_chat(id).expect("listed ids are live");
            let copy = Chat {
                title: c.title.clone(),
                model: Model::from(c.model.name.clone()),
                global_params: CompletionParams::new(
                    c.global_params.max_tokens,
                    c.global_params.frequency_penalty,
                    c.global_params.top_p,
                    c.global_params.temperature,
                    c.global_params.stream,
                ),
                history: c.history.as_ref().map(|h| {
                    h.iter()
                        .map(|m| Completion::from_wire(m.wire_role().clone(), m.content.clone()))
                        .collect()
                }),
            };
            (id, copy)
        })
        .collect();
    let rebuilt = ChatManager::from_parts(
        mgr.current_chat_id(),
        parts,
        mgr.local_save(),
        vec![model("fresh")],
    )
    .expect("stored parts of a live registry are well formed");

    assert_eq!(rebuilt.current_chat_id(), mgr.current_chat_id());
    assert_eq!(rebuilt.local_save(), mgr.local_save());
    let old_chat = mgr.get_chat(a).expect("present");
    let new_chat = rebuilt.get_chat(a).expect("present after the round trip");
    assert_eq!(new_chat.title, old_chat.title);
    assert_eq!(new_chat.model.name, old_chat.model.name);
    assert_eq!(new_chat.global_params, old_chat.global_params);
    let old_hist = old_chat.history.as_ref().expect("history enabled");
    let new_hist = new_chat.history.as_ref().expect("history survives");
    assert_eq!(new_hist.len(), old_hist.len());
    assert_eq!(new_hist.len(), 2);
    for (n, o) in new_hist.iter().zip(old_hist.iter()) {
        assert_eq!(n.get_role(), o.get_role());
        assert_eq!(n.content, o.content);
    }
    assert_eq!(new_hist[0].content, "ans");
    assert_eq!(new_hist[1].content, "q");
    let names: Vec<&str> = rebuilt.models().iter().map(|m| m.name.as_str()).collect();
    assert_eq!(names, vec!["fresh"]);
}

#[test]
fn from_parts_rejects_malformed_stores() {
    let zero_id = vec![(0u128, Chat::new(model("m")))];
    assert!(ChatManager::from_parts(0, zero_id, true, vec![]).is_none());

    let duplicate = vec![(5u128, Chat::new(model("a"))), (5u128, Chat::new(model("b")))];
    assert!(ChatManager::from_parts(0, duplicate, true, vec![]).is_none());

    let dangling = vec![(5u128, Chat::new(model("a")))];
    assert!(ChatManager::from_parts(6, dangling, true, vec![]).is_none());
}
