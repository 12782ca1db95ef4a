use chat_core::codec::parse_envelope;
use chat_core::protocol::{compose_input, ChatMessage, Timestamp, WebSocketMessage, WebSocketMessageType};
use chat_core::room::{ChatRoom, Outbound, RegistryError, UserStatus};

fn ts() -> Timestamp {
    Timestamp { year: 2024, month: 1, day: 2, hour: 3, minute: 4, second: 5 }
}

fn frames(outs: &[Outbound]) -> Vec<(usize, String)> {
    outs.iter().map(|o| (o.to, o.frame.clone())).collect()
}

#[test]
fn round_trip_chat_message() {
    let v = WebSocketMessage::from_chat_msg(ChatMessage::at_time(
        "hello there".to_string(),
        "alice".to_string(),
        ts(),
    ));
    let text = v.to_string();
    let w = parse_envelope(&text).expect("canonical text must parse");
    assert!(w.message_type == WebSocketMessageType::NewMessage);
    let m = w.message.expect("payload");
    assert_eq!(m.message, "hello there");
    assert_eq!(m.author, "alice");
    assert_eq!(m.created_at, ts());
    assert!(w.users.is_none());
    assert!(w.username.is_none());
}

#[test]
fn round_trip_with_escapes() {
    let body = "say \"hi\" and a \\ backslash, plus {braces} [and] commas,";
    let v = WebSocketMessage::from_chat_msg(ChatMessage::at_time(
        body.to_string(),
        "bob \"the\\builder\"".to_string(),
        ts(),
    ));
    let text = v.to_string();
    let w = parse_envelope(&text).expect("escaped text must parse");
    let m = w.message.expect("payload");
    assert_eq!(m.message, body);
    assert_eq!(m.author, "bob \"the\\builder\"");
}

#[test]
fn round_trip_user_list() {
    for users in [
        Vec::<String>::new(),
        vec!["a".to_string()],
        vec!["alice".to_string(), "bob".to_string(), "user #7".to_string()],
    ] {
        let v = WebSocketMessage::from_users_list(users.clone());
        let w = parse_envelope(&v.to_string()).expect("user list must parse");
        assert!(w.message_type == WebSocketMessageType::UserList);
        assert_eq!(w.users.expect("users"), users);
        assert!(w.message.is_none());
        assert!(w.username.is_none());
    }
}

#[test]
fn round_trip_username_change() {
    let v = WebSocketMessage::from_username("bob".to_string());
    let w = parse_envelope(&v.to_string()).expect("username change must parse");
    assert!(w.message_type == WebSocketMessageType::UsernameChange);
    assert_eq!(w.username.expect("username"), "bob");
}

#[test]
fn round_trip_system_notice() {
    let v = WebSocketMessage::from_system_msg("maintenance at noon".to_string());
    let w = parse_envelope(&v.to_string()).expect("system notice must parse");
    assert!(w.message_type == WebSocketMessageType::System);
    let m = w.message.expect("payload");
    assert_eq!(m.author, "system");
    assert_eq!(m.message, "maintenance at noon");
}

#[test]
fn serialized_username_change_exact_text() {
    let v = WebSocketMessage::from_username("bob".to_string());
    assert_eq!(
        v.to_string(),
        "{\"message_type\":\"UsernameChange\",\"message\":null,\"users\":null,\"username\":\"bob\"}"
    );
}

#[test]
fn serialized_user_list_exact_text() {
    let v = WebSocketMessage::from_users_list(vec!["a".to_string(), "b".to_string()]);
    assert_eq!(
        v.to_string(),
        "{\"message_type\":\"UserList\",\"message\":null,\"users\":[\"a\",\"b\"],\"username\":null}"
    );
}

#[test]
fn serialized_chat_exact_text() {
    let v = WebSocketMessage::from_chat_msg(ChatMessage::at_time(
        "hi".to_string(),
        "".to_string(),
        ts(),
    ));
    assert_eq!(
        v.to_string(),
        "{\"message_type\":\"NewMessage\",\"message\":{\"message\":\"hi\",\"author\":\"\",\"created_at\":\"2024-01-02T03:04:05\"},\"users\":null,\"username\":null}"
    );
}

#[test]
fn parse_rejects_unknown_tag() {
    let text = "{\"message_type\":\"Bogus\",\"message\":null,\"users\":null,\"username\":null}";
    assert!(parse_envelope(text).is_none());
}

#[test]
fn parse_rejects_missing_payload_for_tag() {
    let text = "{\"message_type\":\"NewMessage\",\"message\":null,\"users\":null,\"username\":null}";
    assert!(parse_envelope(text).is_none());
}

#[test]
fn parse_rejects_cross_populated_payload() {
    let text =
        "{\"message_type\":\"UserList\",\"message\":null,\"users\":null,\"username\":\"bob\"}";
    assert!(parse_envelope(text).is_none());
}

#[test]
fn parse_rejects_plain_text() {
    assert!(parse_envelope("just chatting like it's 1999").is_none());
    assert!(parse_envelope("").is_none());
    assert!(parse_envelope("{}").is_none());
}

#[test]
fn parse_rejects_out_of_range_timestamp() {
    let text = "{\"message_type\":\"NewMessage\",\"message\":{\"message\":\"hi\",\"author\":\"a\",\"created_at\":\"2024-13-02T03:04:05\"},\"users\":null,\"username\":null}";
    assert!(parse_envelope(text).is_none());
}

#[test]
fn timestamp_from_parts_keeps_in_range_values() {
    let t = Timestamp::from_parts(2024, 12, 31, 23, 59, 59);
    assert_eq!(t, Timestamp { year: 2024, month: 12, day: 31, hour: 23, minute: 59, second: 59 });
}

#[test]
fn timestamp_from_parts_clamps_out_of_range_values() {
    let t = Timestamp::from_parts(-44, 13, 0, 99, 77, 88);
    assert_eq!(t, Timestamp { year: 0, month: 1, day: 1, hour: 0, minute: 0, second: 0 });
}

#[test]
fn default_names_follow_identity() {
    assert_eq!(ChatRoom::default_username(0), "user #0");
    assert_eq!(ChatRoom::default_username(1), "user #1");
    assert_eq!(ChatRoom::default_username(1234567), "user #1234567");
}

#[test]
fn add_then_remove_restores_snapshot() {
    let mut room = ChatRoom::new();
    room.add(1, ts());
    assert_eq!(room.snapshot_names(), vec!["user #1".to_string()]);
    room.add(2, ts());
    assert_eq!(room.snapshot_names(), vec!["user #1".to_string(), "user #2".to_string()]);
    let gone = room.remove(2);
    assert_eq!(gone, Some("user #2".to_string()));
    assert_eq!(room.snapshot_names(), vec!["user #1".to_string()]);
}

#[test]
fn connect_sequence_announces_join() {
    let mut room = ChatRoom::new();
    let outs = room.add(1, ts());
    // the assigned name to the new connection alone, then the list and
    // the join notice to everyone (here: just the new connection)
    assert_eq!(outs.len(), 3);
    assert_eq!(outs[0].to, 1);
    assert_eq!(
        outs[0].frame,
        WebSocketMessage::from_username("user #1".to_string()).to_string()
    );
    assert_eq!(
        outs[1].frame,
        WebSocketMessage::from_users_list(vec!["user #1".to_string()]).to_string()
    );
    assert_eq!(
        outs[2].frame,
        WebSocketMessage::from_system_msg_at("user #1 join the chat".to_string(), ts())
            .to_string()
    );
}

#[test]
fn empty_author_resolves_to_registered_name() {
    let mut room = ChatRoom::new();
    room.add(1, ts());
    room.add(2, ts());
    let frame = "{\"message_type\":\"NewMessage\",\"message\":{\"message\":\"hi\",\"author\":\"\",\"created_at\":\"2024-01-02T03:04:05\"},\"users\":null,\"username\":null}";
    let outs = room.handle_chat_msg(1, frame.to_string(), ts());
    let expected = WebSocketMessage::from_chat_msg(ChatMessage::at_time(
        "hi".to_string(),
        "user #1".to_string(),
        ts(),
    ))
    .to_string();
    assert_eq!(frames(&outs), vec![(1, expected.clone()), (2, expected)]);
}

#[test]
fn nonempty_author_is_kept() {
    let mut room = ChatRoom::new();
    room.add(1, ts());
    room.add(2, ts());
    let msg = WebSocketMessage::from_chat_msg(ChatMessage::at_time(
        "hi".to_string(),
        "carol".to_string(),
        ts(),
    ));
    let outs = room.handle_chat_msg(1, msg.to_string(), ts());
    assert_eq!(outs.len(), 2);
    assert_eq!(outs[0].frame, msg.to_string());
    assert_eq!(outs[1].frame, msg.to_string());
}

#[test]
fn rename_confirms_to_renamer_alone_and_announces() {
    let mut room = ChatRoom::new();
    room.add(1, ts());
    room.add(2, ts());
    let req = WebSocketMessage::from_username("bob".to_string()).to_string();
    let outs = room.handle_chat_msg(1, req.clone(), ts());
    let confirm = WebSocketMessage::from_username("bob".to_string()).to_string();
    let notice =
        WebSocketMessage::from_system_msg_at("user #1 changed username to bob".to_string(), ts())
            .to_string();
    let list = WebSocketMessage::from_users_list(vec!["bob".to_string(), "user #2".to_string()])
        .to_string();
    assert_eq!(
        frames(&outs),
        vec![
            (1, confirm.clone()),
            (1, notice.clone()),
            (2, notice),
            (1, list.clone()),
            (2, list),
        ]
    );
    // the confirmation reached connection 1 exactly once
    assert_eq!(outs.iter().filter(|o| o.frame == confirm).count(), 1);
    assert_eq!(room.snapshot_names(), vec!["bob".to_string(), "user #2".to_string()]);
}

#[test]
fn empty_new_name_is_dropped() {
    let mut room = ChatRoom::new();
    room.add(1, ts());
    let req = WebSocketMessage::from_username("".to_string()).to_string();
    let outs = room.handle_chat_msg(1, req, ts());
    assert!(outs.is_empty());
    assert_eq!(room.snapshot_names(), vec!["user #1".to_string()]);
}

#[test]
fn unparseable_frame_is_broadcast_verbatim() {
    let mut room = ChatRoom::new();
    room.add(1, ts());
    room.add(2, ts());
    let raw = "not json at all {\"half\":";
    let outs = room.handle_chat_msg(2, raw.to_string(), ts());
    assert_eq!(
        frames(&outs),
        vec![(1, raw.to_string()), (2, raw.to_string())]
    );
}

#[test]
fn user_list_request_broadcasts_snapshot() {
    let mut room = ChatRoom::new();
    room.add(1, ts());
    room.add(2, ts());
    let req = WebSocketMessage::from_users_list(Vec::new()).to_string();
    let outs = room.handle_chat_msg(1, req, ts());
    let list =
        WebSocketMessage::from_users_list(vec!["user #1".to_string(), "user #2".to_string()])
            .to_string();
    assert_eq!(frames(&outs), vec![(1, list.clone()), (2, list)]);
}

#[test]
fn client_sent_system_envelope_is_a_no_op() {
    let mut room = ChatRoom::new();
    room.add(1, ts());
    let req = WebSocketMessage::from_system_msg_at("pwned?".to_string(), ts()).to_string();
    let outs = room.handle_chat_msg(1, req, ts());
    assert!(outs.is_empty());
    assert_eq!(room.snapshot_names(), vec!["user #1".to_string()]);
}

#[test]
fn remove_absent_identity_is_not_found_without_broadcast() {
    let mut room = ChatRoom::new();
    room.add(1, ts());
    assert_eq!(room.remove(99), None);
    let outs = room.flush(99, ts());
    assert!(outs.is_empty());
    assert_eq!(room.snapshot_names(), vec!["user #1".to_string()]);
}

#[test]
fn rename_absent_identity_is_not_found() {
    let mut room = ChatRoom::new();
    assert_eq!(room.rename(5, "bob".to_string()), Err(RegistryError::NotFound));
    let outs = room.change_username(5, "bob".to_string(), ts());
    assert!(outs.is_empty());
}

#[test]
fn disconnect_sequence_announces_leave() {
    let mut room = ChatRoom::new();
    room.add(1, ts());
    room.add(2, ts());
    let outs = room.flush(2, ts());
    let notice = WebSocketMessage::from_system_msg_at("user #2 left the chat".to_string(), ts())
        .to_string();
    let list = WebSocketMessage::from_users_list(vec!["user #1".to_string()]).to_string();
    assert_eq!(frames(&outs), vec![(1, notice), (1, list)]);
    assert_eq!(room.snapshot_names(), vec!["user #1".to_string()]);
}

#[test]
fn rename_and_disconnect_agree_in_either_order() {
    let mut one = ChatRoom::new();
    one.add(1, ts());
    one.add(2, ts());
    one.rename(1, "bob".to_string()).unwrap();
    one.remove(2).unwrap();

    let mut other = ChatRoom::new();
    other.add(1, ts());
    other.add(2, ts());
    other.remove(2).unwrap();
    other.rename(1, "bob".to_string()).unwrap();

    assert_eq!(one.snapshot_names(), vec!["bob".to_string()]);
    assert_eq!(other.snapshot_names(), vec!["bob".to_string()]);
}

#[test]
fn update_status_wording_matches_policy() {
    let mut room = ChatRoom::new();
    room.add(7, ts());
    let joins = room.update_status("zoe".to_string(), UserStatus::Join, ts());
    assert!(joins[0].frame.contains("zoe join the chat"));
    let leaves = room.update_status("zoe".to_string(), UserStatus::Left, ts());
    assert!(leaves[0].frame.contains("zoe left the chat"));
}

#[test]
fn send_username_reaches_only_its_connection() {
    let mut room = ChatRoom::new();
    room.add(1, ts());
    room.add(2, ts());
    let outs = room.send_username(2);
    assert_eq!(
        frames(&outs),
        vec![(2, WebSocketMessage::from_username("user #2".to_string()).to_string())]
    );
    assert!(room.send_username(42).is_empty());
}

#[test]
fn send_to_and_for_each_send_address_connections() {
    let mut room = ChatRoom::new();
    room.add(1, ts());
    room.add(2, ts());
    let one = room.send_to(2, "direct").expect("present");
    assert_eq!((one.to, one.frame.as_str()), (2, "direct"));
    assert!(matches!(room.send_to(9, "direct"), Err(RegistryError::NotFound)));
    let all = room.for_each_send("fan out");
    assert_eq!(frames(&all), vec![(1, "fan out".to_string()), (2, "fan out".to_string())]);
}

#[test]
fn chat_message_new_keeps_fields_and_stamps_time() {
    let m = ChatMessage::new("body".to_string(), "".to_string());
    assert_eq!(m.message, "body");
    assert_eq!(m.author, "");
    assert!(m.created_at.month >= 1 && m.created_at.month <= 12);
}

#[test]
fn two_connections_full_scenario() {
    // connect A, connect B, then A sends a chat with an empty author
    let mut room = ChatRoom::new();
    let a_outs = room.add(1, ts());
    assert_eq!(a_outs[0].to, 1);
    let b_outs = room.add(2, ts());
    assert_eq!(b_outs[0].to, 2);
    let frame = "{\"message_type\":\"NewMessage\",\"message\":{\"message\":\"hi\",\"author\":\"\",\"created_at\":\"2024-01-02T03:04:05\"},\"users\":null,\"username\":null}";
    let outs = room.handle_chat_msg(1, frame.to_string(), ts());
    assert_eq!(outs.len(), 2);
    for o in &outs {
        let env = parse_envelope(&o.frame).expect("broadcast frames are canonical");
        assert!(env.message_type == WebSocketMessageType::NewMessage);
        let m = env.message.expect("payload");
        assert_eq!(m.author, "user #1");
        assert_eq!(m.message, "hi");
    }
    assert_eq!(outs[0].to, 1);
    assert_eq!(outs[1].to, 2);
}

#[test]
fn input_composition_follows_policy() {
    assert!(compose_input(WebSocketMessageType::NewMessage, "".to_string()).is_none());
    let msg = compose_input(WebSocketMessageType::NewMessage, "hey".to_string()).expect("chat");
    assert!(msg.message_type == WebSocketMessageType::NewMessage);
    let m = msg.message.expect("payload");
    assert_eq!(m.message, "hey");
    assert_eq!(m.author, "");
    assert!(compose_input(WebSocketMessageType::UsernameChange, "SYSTEM".to_string()).is_none());
    assert!(compose_input(WebSocketMessageType::UsernameChange, "System".to_string()).is_none());
    let re =
        compose_input(WebSocketMessageType::UsernameChange, "bob".to_string()).expect("rename");
    assert_eq!(re.username.expect("name"), "bob");
    assert!(compose_input(WebSocketMessageType::UserList, "anything".to_string()).is_none());
    assert!(compose_input(WebSocketMessageType::System, "anything".to_string()).is_none());
}

#[test]
fn counters_track_connects_and_disconnects() {
    let mut room = ChatRoom::new();
    assert_eq!(room.connections_accepted(), 0);
    assert_eq!(room.connections_open(), 0);
    room.add(1, ts());
    room.add(2, ts());
    room.flush(1, ts());
    assert_eq!(room.connections_accepted(), 2);
    assert_eq!(room.connections_open(), 1);
}

#[test]
fn visible_users_hides_own_name_only() {
    let users = vec![
        "alice".to_string(),
        "me".to_string(),
        "bob".to_string(),
        "me".to_string(),
    ];
    assert_eq!(
        chat_core::display::visible_users(&users, "me"),
        vec!["alice".to_string(), "bob".to_string()]
    );
    assert_eq!(chat_core::display::visible_users(&users, "nobody"), users);
}

#[test]
fn system_author_detection_folds_case() {
    assert!(chat_core::display::is_system_author("system"));
    assert!(chat_core::display::is_system_author("SYSTEM"));
    assert!(chat_core::display::is_system_author("SyStEm"));
    assert!(!chat_core::display::is_system_author("systemd"));
    assert!(!chat_core::display::is_system_author("alice"));
}

#[test]
fn parse_accepts_fractional_seconds() {
    let text = "{\"message_type\":\"NewMessage\",\"message\":{\"message\":\"hi\",\"author\":\"a\",\"created_at\":\"2024-01-02T03:04:05.123456789\"},\"users\":null,\"username\":null}";
    let w = parse_envelope(text).expect("fractional seconds must parse");
    let m = w.message.expect("payload");
    assert_eq!(m.created_at, ts());
}

#[test]
fn parse_rejects_empty_fraction() {
    let text = "{\"message_type\":\"NewMessage\",\"message\":{\"message\":\"hi\",\"author\":\"a\",\"created_at\":\"2024-01-02T03:04:05.\"},\"users\":null,\"username\":null}";
    assert!(parse_envelope(text).is_none());
}

#[test]
fn fractional_frame_dispatches_instead_of_falling_back() {
    let mut room = ChatRoom::new();
    room.add(1, ts());
    let frame = "{\"message_type\":\"NewMessage\",\"message\":{\"message\":\"hi\",\"author\":\"\",\"created_at\":\"2024-01-02T03:04:05.250\"},\"users\":null,\"username\":null}";
    let outs = room.handle_chat_msg(1, frame.to_string(), ts());
    let expected = WebSocketMessage::from_chat_msg(ChatMessage::at_time(
        "hi".to_string(),
        "user #1".to_string(),
        ts(),
    ))
    .to_string();
    assert_eq!(frames(&outs), vec![(1, expected)]);
}

#[test]
fn control_characters_round_trip() {
    let body = "line one\nline two\ttabbed\rdone";
    let v = WebSocketMessage::from_chat_msg(ChatMessage::at_time(
        body.to_string(),
        "alice".to_string(),
        ts(),
    ));
    let w = parse_envelope(&v.to_string()).expect("control characters must parse");
    assert_eq!(w.message.expect("payload").message, body);
}

#[test]
fn control_characters_serialize_as_hex_escapes() {
    let v = WebSocketMessage::from_username("a\nb".to_string());
    assert_eq!(
        v.to_string(),
        "{\"message_type\":\"UsernameChange\",\"message\":null,\"users\":null,\"username\":\"a\\u000ab\"}"
    );
}

#[test]
fn parse_accepts_standard_json_escapes() {
    let text = "{\"message_type\":\"UsernameChange\",\"message\":null,\"users\":null,\"username\":\"a\\nb\\tc\\rd\\be\\ff\\/g\\u0001h\"}";
    let w = parse_envelope(text).expect("standard escapes must parse");
    assert_eq!(
        w.username.expect("name"),
        "a\nb\tc\rd\u{8}e\u{c}f/g\u{1}h"
    );
}

#[test]
fn parse_rejects_bad_escapes() {
    let bad_letter =
        "{\"message_type\":\"UsernameChange\",\"message\":null,\"users\":null,\"username\":\"a\\qb\"}";
    assert!(parse_envelope(bad_letter).is_none());
    let high_unicode =
        "{\"message_type\":\"UsernameChange\",\"message\":null,\"users\":null,\"username\":\"a\\u0100b\"}";
    assert!(parse_envelope(high_unicode).is_none());
}

#[test]
fn canonical_text_is_json() {
    let v = WebSocketMessage::from_chat_msg(ChatMessage::at_time(
        "quote \" backslash \\ newline \n end".to_string(),
        "".to_string(),
        ts(),
    ));
    let parsed: Result<serde_json::Value, _> = serde_json::from_str(&v.to_string());
    assert!(parsed.is_ok());
    let list = WebSocketMessage::from_users_list(vec!["a\tb".to_string()]);
    let parsed: Result<serde_json::Value, _> = serde_json::from_str(&list.to_string());
    assert!(parsed.is_ok());
}
