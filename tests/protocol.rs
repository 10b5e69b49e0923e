use yew_chat::bus::EventBus;
use yew_chat::codec::{decode, decode_chat_message, encode};
use yew_chat::outbound::{compose_message, compose_register, message_text, register_text};
use yew_chat::protocol::{ChatError, Envelope, MsgTypes};
use yew_chat::store::{avatar_for, roster_from, Chat, Msg};

const AVATAR: &str = "https://avatars.dicebear.com/api/adventurer-neutral/";

fn names(v: &[&str]) -> Vec<String> {
    v.iter().map(|s| s.to_string()).collect()
}

fn users_text(v: &[&str]) -> String {
    encode(&Envelope { message_type: MsgTypes::Users, data_array: Some(names(v)), data: None })
}

fn message_payload(from: &str, message: &str) -> String {
    format!("{{\"from\":{},\"message\":{}}}", serde_json::to_string(from).unwrap(), serde_json::to_string(message).unwrap())
}

fn message_envelope_text(from: &str, message: &str) -> String {
    encode(&Envelope { message_type: MsgTypes::Message, data_array: None, data: Some(message_payload(from, message)) })
}

#[test]
fn receive_users_scenario() {
    let mut chat = Chat::new();
    let r = chat.handle("{\"messageType\":\"users\",\"dataArray\":[\"alice\",\"bob\"]}");
    assert_eq!(r, Ok(true));
    let users = chat.users();
    assert_eq!(users.len(), 2);
    assert_eq!(users[0].name, "alice");
    assert_eq!(users[0].avatar, format!("{}alice.svg", AVATAR));
    assert_eq!(users[1].name, "bob");
    assert_eq!(users[1].avatar, format!("{}bob.svg", AVATAR));
}

#[test]
fn receive_message_scenario() {
    let mut chat = Chat::new();
    let r = chat.handle("{\"messageType\":\"message\",\"data\":\"{\\\"from\\\":\\\"alice\\\",\\\"message\\\":\\\"hi\\\"}\"}");
    assert_eq!(r, Ok(true));
    let messages = chat.messages();
    assert_eq!(messages.len(), 1);
    assert_eq!(messages[0].from, "alice");
    assert_eq!(messages[0].message, "hi");
}

#[test]
fn submit_composes_message_and_clears_input() {
    let mut chat = Chat::new();
    let out = chat.update(Msg::SubmitMessage("hello.gif".to_string()));
    assert_eq!(out.send.as_deref(), Some("{\"messageType\":\"message\",\"dataArray\":null,\"data\":\"hello.gif\"}"));
    assert!(out.clear_input);
    assert!(!out.rerender);
    assert_eq!(out.error, None);
    let e = compose_message("hello.gif");
    assert_eq!(e.message_type, MsgTypes::Message);
    assert_eq!(e.data.as_deref(), Some("hello.gif"));
    assert!(e.data_array.is_none());
    assert_eq!(message_text("hello.gif"), out.send.unwrap());
}

#[test]
fn malformed_text_is_dropped_and_stream_continues() {
    let mut chat = Chat::new();
    let out = chat.update(Msg::HandleMsg("{not json".to_string()));
    assert_eq!(out.error, Some(ChatError::MalformedEnvelope));
    assert!(!out.rerender);
    assert_eq!(chat.handle(&users_text(&["carol"])), Ok(true));
    assert_eq!(chat.handle(&message_envelope_text("carol", "still here")), Ok(true));
    assert_eq!(chat.users().len(), 1);
    assert_eq!(chat.messages().len(), 1);
    assert_eq!(chat.messages()[0].message, "still here");
}

#[test]
fn roster_is_replaced_not_merged() {
    let mut chat = Chat::new();
    assert_eq!(chat.handle(&users_text(&["a", "b", "c"])), Ok(true));
    assert_eq!(chat.handle(&users_text(&["d"])), Ok(true));
    let users = chat.users();
    assert_eq!(users.len(), 1);
    assert_eq!(users[0].name, "d");
    assert_eq!(users[0].avatar, format!("{}d.svg", AVATAR));
    assert_eq!(chat.handle(&users_text(&[])), Ok(true));
    assert_eq!(chat.users().len(), 0);
}

#[test]
fn history_appends_in_receipt_order() {
    let mut chat = Chat::new();
    for i in 0..5 {
        assert_eq!(chat.handle(&message_envelope_text("alice", &format!("m{}", i))), Ok(true));
    }
    let messages = chat.messages();
    assert_eq!(messages.len(), 5);
    for (i, m) in messages.iter().enumerate() {
        assert_eq!(m.message, format!("m{}", i));
    }
}

#[test]
fn register_envelope_is_unchanged_state() {
    let mut chat = Chat::new();
    let t = register_text("alice");
    assert_eq!(t, "{\"messageType\":\"register\",\"dataArray\":null,\"data\":\"alice\"}");
    assert_eq!(chat.handle(&t), Ok(false));
    assert_eq!(chat.users().len(), 0);
    assert_eq!(chat.messages().len(), 0);
    let e = compose_register("alice");
    assert_eq!(e.message_type, MsgTypes::Register);
    assert_eq!(e.data.as_deref(), Some("alice"));
}

#[test]
fn malformed_payload_is_rejected() {
    let mut chat = Chat::new();
    let t = encode(&Envelope { message_type: MsgTypes::Message, data_array: None, data: Some("oops".to_string()) });
    assert_eq!(chat.handle(&t), Err(ChatError::MalformedPayload));
    assert_eq!(chat.messages().len(), 0);
    assert_eq!(chat.handle("{\"messageType\":\"message\",\"data\":\"{\\\"from\\\":\\\"x\\\"}\"}"), Err(ChatError::MalformedPayload));
    assert!(matches!(decode_chat_message("{\"from\":\"a\",\"message\":null}"), Err(ChatError::MalformedPayload)));
}

#[test]
fn malformed_envelopes_are_rejected() {
    for t in [
        "",
        "{}",
        "[]",
        "{\"messageType\":\"shout\",\"data\":\"x\"}",
        "{\"messageType\":\"users\",\"dataArray\":\"alice\"}",
        "{\"messageType\":\"message\",\"data\":[\"x\"]}",
        "{\"messageType\":\"message\"}",
        "{\"messageType\":\"users\"}",
        "{\"messageType\":\"register\",\"data\":\"a\"",
        "{\"messageType\":\"register\",\"data\":\"a\"}x",
    ] {
        assert!(matches!(decode(t), Err(ChatError::MalformedEnvelope)), "{}", t);
    }
}

#[test]
fn round_trip_all_kinds() {
    let cases = vec![
        Envelope { message_type: MsgTypes::Users, data_array: Some(names(&["alice", "bob"])), data: None },
        Envelope { message_type: MsgTypes::Users, data_array: Some(vec![]), data: None },
        Envelope { message_type: MsgTypes::Register, data_array: None, data: Some("zoë \"q\" \\ \n".to_string()) },
        Envelope { message_type: MsgTypes::Message, data_array: None, data: Some(message_payload("a", "b")) },
    ];
    for e in cases {
        let d = decode(&encode(&e)).unwrap();
        assert_eq!(d.message_type, e.message_type);
        assert_eq!(d.data_array, e.data_array);
        assert_eq!(d.data, e.data);
    }
}

#[test]
fn encode_escapes_strings() {
    let e = Envelope { message_type: MsgTypes::Register, data_array: None, data: Some("a\"b".to_string()) };
    assert_eq!(encode(&e), "{\"messageType\":\"register\",\"dataArray\":null,\"data\":\"a\\\"b\"}");
    let u = users_text(&["x\\y"]);
    assert_eq!(u, "{\"messageType\":\"users\",\"dataArray\":[\"x\\\\y\"],\"data\":null}");
}

#[test]
fn decode_unescapes_strings_and_accepts_member_order() {
    let d = decode("{\"data\":\"caf\\u00e9 \\\"x\\\"\",\"messageType\":\"register\"}").unwrap();
    assert_eq!(d.message_type, MsgTypes::Register);
    assert_eq!(d.data.as_deref(), Some("café \"x\""));
    assert!(d.data_array.is_none());
}

#[test]
fn avatar_template() {
    assert_eq!(avatar_for("alice"), format!("{}alice.svg", AVATAR));
    let r = roster_from(&names(&["x", "y"]));
    assert_eq!(r.len(), 2);
    assert_eq!(r[1].name, "y");
    assert_eq!(r[1].avatar, format!("{}y.svg", AVATAR));
}

#[test]
fn sender_lookup_misses_without_fault() {
    let mut chat = Chat::new();
    chat.handle(&users_text(&["alice"])).unwrap();
    assert_eq!(chat.sender_profile("alice").map(|u| u.name.clone()), Some("alice".to_string()));
    assert!(chat.sender_profile("mallory").is_none());
}

#[test]
fn publish_with_no_subscribers_delivers_nothing() {
    let bus = EventBus::new();
    assert!(bus.publish("payload").is_empty());
}

#[test]
fn publish_reaches_each_subscriber_once_even_if_one_fails() {
    let mut bus = EventBus::new();
    let a = bus.subscribe().unwrap();
    let b = bus.subscribe().unwrap();
    let c = bus.subscribe().unwrap();
    let ds = bus.publish("p");
    let ids: Vec<u64> = ds.iter().map(|d| d.subscriber).collect();
    assert_eq!(ids, vec![a, b, c]);
    let mut calls = vec![0u32; 3];
    for d in &ds {
        let r: Result<(), String> = if d.subscriber == a { Err("handler failed".to_string()) } else { Ok(()) };
        let idx = ids.iter().position(|x| *x == d.subscriber).unwrap();
        calls[idx] += 1;
        let _ = r;
        assert_eq!(d.payload, "p");
    }
    assert_eq!(calls, vec![1, 1, 1]);
}

#[test]
fn unsubscribe_is_idempotent_and_late_subscribers_miss_nothing_new() {
    let mut bus = EventBus::new();
    let a = bus.subscribe().unwrap();
    let b = bus.subscribe().unwrap();
    bus.unsubscribe(a);
    bus.unsubscribe(a);
    let ids: Vec<u64> = bus.publish("x").iter().map(|d| d.subscriber).collect();
    assert_eq!(ids, vec![b]);
    let c = bus.subscribe().unwrap();
    assert_ne!(c, a);
    assert_ne!(c, b);
    let ids: Vec<u64> = bus.publish("y").iter().map(|d| d.subscriber).collect();
    assert_eq!(ids, vec![b, c]);
}

#[test]
fn decode_accepts_whitespace_between_tokens() {
    let d = decode("  { \"messageType\" : \"users\" ,\n\t\"dataArray\" : [ \"a\" , \"b\" ] , \"data\" : null }\r\n").unwrap();
    assert_eq!(d.message_type, MsgTypes::Users);
    assert_eq!(d.data_array, Some(names(&["a", "b"])));
    assert!(d.data.is_none());
    let e = decode("{\"messageType\":\"users\",\"dataArray\":[ ]}").unwrap();
    assert_eq!(e.data_array, Some(vec![]));
}

#[test]
fn create_starts_empty_and_registers() {
    let (chat, text) = Chat::create("alice");
    assert_eq!(chat.users().len(), 0);
    assert_eq!(chat.messages().len(), 0);
    assert_eq!(text, "{\"messageType\":\"register\",\"dataArray\":null,\"data\":\"alice\"}");
}

#[test]
fn gif_messages_show_as_images() {
    assert!(yew_chat::store::shows_as_image("hello.gif"));
    assert!(yew_chat::store::shows_as_image(".gif"));
    assert!(!yew_chat::store::shows_as_image("gif"));
    assert!(!yew_chat::store::shows_as_image("hello.gif!"));
    assert!(!yew_chat::store::shows_as_image(""));
}
