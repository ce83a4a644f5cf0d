use ttvy::{
    decode, encode_outbound, format_user_message, format_user_message_with_tags, frame_text,
    frame_text_from, handle_websocket_message, parse_tags, tag_value, ChatMessage, DecodedEvent,
};

fn chat(ev: DecodedEvent) -> ChatMessage {
    match ev {
        DecodedEvent::Chat(m) => m,
        _ => panic!("expected a chat message"),
    }
}

#[test]
fn tagged_line_gives_display_name_and_color() {
    let raw = "@badge-info=;color=#1E90FF;display-name=Alice;mod=0 :alice!alice@alice.tmi.twitch.tv PRIVMSG #foo :hello there\r\n";
    let m = chat(decode(raw, true));
    assert_eq!(m.author, "Alice");
    assert_eq!(m.text, "hello there");
    assert_eq!(m.color.as_deref(), Some("1E90FF"));
}

#[test]
fn tagged_color_without_hash_is_accepted() {
    let raw = "color=00ff7f;display-name=Bob :bob!bob@host PRIVMSG #foo :hi\r\n";
    let m = format_user_message_with_tags(raw).unwrap();
    assert_eq!(m.author, "Bob");
    assert_eq!(m.color.as_deref(), Some("00ff7f"));
}

#[test]
fn tagged_malformed_color_gives_no_color() {
    for c in ["#12345", "", "#GGGGGG", "#1234567"] {
        let raw = format!("color={};display-name=Bob :bob!bob@host PRIVMSG #foo :hi\r\n", c);
        let m = chat(decode(&raw, true));
        assert_eq!(m.author, "Bob");
        assert_eq!(m.color, None);
    }
}

#[test]
fn tagged_line_without_display_name_is_dropped() {
    let raw = "color=#1E90FF :bob!bob@host PRIVMSG #foo :hi\r\n";
    assert!(matches!(decode(raw, true), DecodedEvent::Dropped));
}

#[test]
fn tagged_line_without_message_separator_is_dropped() {
    let raw = "display-name=Bob :bob!bob@host PRIVMSG #foo\r\n";
    assert!(matches!(decode(raw, true), DecodedEvent::Dropped));
}

#[test]
fn tagged_message_keeps_later_separators() {
    let raw = "display-name=Bob :bob!bob@host PRIVMSG #foo :a :b\r\n";
    assert_eq!(chat(decode(raw, true)).text, "a :b");
}

#[test]
fn untagged_line_gives_nick_and_text() {
    let m = chat(decode(":nick!user@host PRIVMSG #ch :hello world\r\n", false));
    assert_eq!(m.author, "nick");
    assert_eq!(m.text, "hello world");
    assert_eq!(m.color, None);
}

#[test]
fn untagged_text_keeps_its_colons() {
    let m = format_user_message(":nick!u PRIVMSG #ch :a: b:c\r\n").unwrap();
    assert_eq!(m.text, "a: b:c");
}

#[test]
fn untagged_line_without_bang_is_dropped() {
    assert!(matches!(decode(":nickuser PRIVMSG #ch :hi\r\n", false), DecodedEvent::Dropped));
    assert!(format_user_message(":nickuser PRIVMSG #ch :hi\r\n").is_none());
}

#[test]
fn untagged_line_with_empty_sigil_is_dropped() {
    assert!(format_user_message("!user PRIVMSG #ch :hi\r\n").is_none());
}

#[test]
fn capability_ack_is_recognised() {
    assert!(matches!(
        decode(":tmi.twitch.tv CAP * ACK :twitch.tv/tags\r\n", false),
        DecodedEvent::CapAck
    ));
}

#[test]
fn non_chat_line_is_other() {
    match decode("PING :tmi.twitch.tv\r\n", true) {
        DecodedEvent::Other(s) => assert_eq!(s, "PING :tmi.twitch.tv\r\n"),
        _ => panic!("expected other"),
    }
}

#[test]
fn chat_line_without_terminator_is_other() {
    match decode(":nick!user PRIVMSG #ch :hi", false) {
        DecodedEvent::Other(s) => assert_eq!(s, ":nick!user PRIVMSG #ch :hi"),
        _ => panic!("expected other"),
    }
}

#[test]
fn only_the_first_line_of_a_frame_is_read() {
    let m = chat(decode(":a!a PRIVMSG #c :one\r\n:b!b PRIVMSG #c :two\r\n", false));
    assert_eq!(m.author, "a");
    assert_eq!(m.text, "one");
}

#[test]
fn ack_latches_tag_parsing() {
    let mut tags = false;
    let raw = "display-name=Bob :bob!bob@host PRIVMSG #foo :hi\r\n";
    assert!(matches!(handle_websocket_message(raw, &mut tags), DecodedEvent::Chat(_)));
    assert!(!tags);
    let ev = handle_websocket_message(":tmi.twitch.tv CAP * ACK :twitch.tv/tags\r\n", &mut tags);
    assert!(matches!(ev, DecodedEvent::CapAck));
    assert!(tags);
    assert_eq!(chat(handle_websocket_message(raw, &mut tags)).author, "Bob");
    handle_websocket_message("PING\r\n", &mut tags);
    assert!(tags);
}

#[test]
fn encode_outbound_formats_privmsg() {
    assert_eq!(encode_outbound("foo", "hi"), "PRIVMSG #foo :hi");
}

#[test]
fn encoded_line_is_not_read_back_as_chat() {
    let line = encode_outbound("foo", "hi");
    assert!(matches!(decode(&line, false), DecodedEvent::Other(_)));
    assert!(matches!(decode(&line, true), DecodedEvent::Other(_)));
}

#[test]
fn parse_tags_drops_pairs_without_equals() {
    let tags = parse_tags("a=1;b;c=2=3;=x");
    let pairs: Vec<(String, String)> = tags.into_iter().map(|t| (t.key, t.value)).collect();
    assert_eq!(
        pairs,
        vec![
            ("a".to_string(), "1".to_string()),
            ("c".to_string(), "2=3".to_string()),
            ("".to_string(), "x".to_string())
        ]
    );
}

#[test]
fn tag_value_takes_the_last_pair() {
    let tags = parse_tags("k=1;j=5;k=2");
    assert_eq!(tag_value(&tags, "k").as_deref(), Some("2"));
    assert_eq!(tag_value(&tags, "j").as_deref(), Some("5"));
    assert_eq!(tag_value(&tags, "z"), None);
}

#[test]
fn frame_text_decodes_utf8() {
    assert_eq!(frame_text("héllo ☃".as_bytes()), "héllo ☃");
}

#[test]
fn frame_text_maps_invalid_bytes_one_to_one() {
    assert_eq!(frame_text(&[0x66, 0xff, 0x41]), "f\u{ff}A");
    assert_eq!(frame_text_from(&[0x66, 0xe9], None), "f\u{e9}");
    assert_eq!(frame_text_from(&[0x66], Some("x")), "x");
}

#[test]
fn lone_carriage_returns_stay_in_the_text() {
    let m = chat(decode(":a!b PRIVMSG #c :x\ry!z:w\r\n", false));
    assert_eq!(m.author, "a");
    assert_eq!(m.text, "x\ry!z:w");
    let m = chat(decode(":!b PRIVMSG #c :hi\r\n", false));
    assert_eq!(m.author, "");
}
