use ttvy::{ConnectOptions, Connection, DecodedEvent, Message, Notice, SendDebouncer, Supervisor, WsCommand};

const MARK: &str = " \u{E0000}";

#[test]
fn debounce_toggles_marker_on_repeats() {
    let mut d = SendDebouncer::new();
    assert_eq!(d.debounce("hi"), "hi");
    assert_eq!(d.debounce("hi"), format!("hi{}", MARK));
    assert_eq!(d.debounce("hi"), "hi");
    assert_eq!(d.debounce("hi"), format!("hi{}", MARK));
}

#[test]
fn debounce_empty_repeats_last_and_toggles() {
    let mut d = SendDebouncer::new();
    assert_eq!(d.debounce("hi"), "hi");
    assert_eq!(d.debounce(""), format!("hi{}", MARK));
    assert_eq!(d.debounce(""), "hi");
}

#[test]
fn debounce_new_text_is_sent_as_is() {
    let mut d = SendDebouncer::new();
    assert_eq!(d.debounce(""), "");
    assert_eq!(d.debounce("a"), "a");
    assert_eq!(d.debounce("b"), "b");
    assert_eq!(d.debounce("a"), "a");
}

#[test]
fn handshake_uses_defaults() {
    let c = Connection::new(&ConnectOptions::new("foo"));
    assert_eq!(
        c.handshake(),
        vec![
            "PASS oauth:blah\r\n".to_string(),
            "NICK justinfan354678\r\n".to_string(),
            "JOIN #foo\r\n".to_string(),
            "CAP REQ :twitch.tv/tags\r\n".to_string()
        ]
    );
}

#[test]
fn handshake_uses_nick_and_token() {
    let mut o = ConnectOptions::new("bar");
    o.nick = Some("me".to_string());
    o.oauth = Some("SECRET-REDACTED".to_string());
    let c = Connection::new(&o);
    let h = c.handshake();
    assert_eq!(h[0], "PASS oauth:SECRET-REDACTED\r\n");
    assert_eq!(h[1], "NICK me\r\n");
    assert_eq!(h[2], "JOIN #bar\r\n");
    assert_eq!(h[3], "CAP REQ :twitch.tv/tags\r\n");
}

#[test]
fn connection_latches_tags_and_debounces() {
    let mut c = Connection::new(&ConnectOptions::new("foo"));
    assert!(!c.tags_enabled());
    assert!(matches!(c.on_frame(":tmi CAP * ACK :twitch.tv/tags\r\n"), DecodedEvent::CapAck));
    assert!(c.tags_enabled());
    match c.on_frame("display-name=Zed :z!z@h PRIVMSG #foo :yo\r\n") {
        DecodedEvent::Chat(m) => assert_eq!((m.author.as_str(), m.text.as_str()), ("Zed", "yo")),
        _ => panic!("expected chat"),
    }
    assert_eq!(c.on_outbound("hi"), "PRIVMSG #foo :hi");
    assert_eq!(c.on_outbound("hi"), format!("PRIVMSG #foo :hi{}", MARK));
    assert_eq!(c.on_outbound(""), "PRIVMSG #foo :hi");
    assert_eq!(c.channel(), "foo");
}

fn join(ch: &str) -> Message {
    Message(WsCommand::Join, ch.to_string())
}

#[test]
fn second_join_replaces_first_and_silences_its_watcher() {
    let mut s = Supervisor::new(ConnectOptions::new(""));
    let a = s.handle(join("a"));
    let (id_a, opts_a) = a.start.unwrap();
    assert_eq!(a.cancel, None);
    assert_eq!(opts_a.channel, "a");
    let b = s.handle(join("b"));
    let (id_b, opts_b) = b.start.unwrap();
    assert_eq!(b.cancel, Some(id_a));
    assert_ne!(id_a, id_b);
    assert_eq!(opts_b.channel, "b");
    assert_eq!(s.live_connection(), Some(id_b));
    let after = s.connection_ended(id_a);
    assert!(after.start.is_none() && after.cancel.is_none());
    assert_eq!(s.live_connection(), Some(id_b));
    assert_eq!(s.wanted_channel(), Some("b"));
}

#[test]
fn leave_when_idle_changes_nothing() {
    let mut s = Supervisor::new(ConnectOptions::new(""));
    let st = s.handle(Message(WsCommand::Leave, String::new()));
    assert!(st.cancel.is_none() && st.start.is_none() && st.forward.is_none());
    assert!(st.notice == Notice::NotInChannel);
    assert_eq!(s.live_connection(), None);
    assert_eq!(s.wanted_channel(), None);
}

#[test]
fn leave_cancels_live_and_stops_restarts() {
    let mut s = Supervisor::new(ConnectOptions::new(""));
    let (id, _) = s.handle(join("x")).start.unwrap();
    let st = s.handle(Message(WsCommand::Leave, String::new()));
    assert_eq!(st.cancel, Some(id));
    assert!(st.notice == Notice::Left);
    let after = s.connection_ended(id);
    assert!(after.start.is_none());
    assert_eq!(s.live_connection(), None);
}

#[test]
fn unexpected_end_rejoins_wanted_channel_once() {
    let mut s = Supervisor::new(ConnectOptions::new(""));
    let (id, _) = s.handle(join("x")).start.unwrap();
    let st = s.connection_ended(id);
    let (new_id, opts) = st.start.unwrap();
    assert_eq!(st.cancel, None);
    assert_eq!(opts.channel, "x");
    assert_ne!(new_id, id);
    assert_eq!(s.live_connection(), Some(new_id));
    assert_eq!(s.wanted_channel(), Some("x"));
    let again = s.connection_ended(id);
    assert!(again.start.is_none());
}

#[test]
fn messages_go_to_the_live_connection_only() {
    let mut s = Supervisor::new(ConnectOptions::new(""));
    let dropped = s.handle(Message(WsCommand::Message, "hi".to_string()));
    assert!(dropped.forward.is_none());
    let (id, _) = s.handle(join("x")).start.unwrap();
    let st = s.handle(Message(WsCommand::Message, "hi".to_string()));
    assert_eq!(st.forward, Some((id, "hi".to_string())));
}

#[test]
fn nick_applies_to_the_next_connection() {
    let mut s = Supervisor::new(ConnectOptions::new(""));
    s.handle(join("x"));
    let st = s.handle(Message(WsCommand::Nick, "me".to_string()));
    assert!(st.notice == Notice::NickSet && st.start.is_none() && st.cancel.is_none());
    assert_eq!(s.options_ref().nick.as_deref(), Some("me"));
    let (_, opts) = s.handle(join("y")).start.unwrap();
    assert_eq!(opts.nick.as_deref(), Some("me"));
}

#[test]
fn message_parts_name_commands() {
    let m = Message::try_from_parts("join", "chan").unwrap();
    assert!(m.0 == WsCommand::Join && m.1 == "chan");
    let m = Message::try_from_parts("leave", "ignored").unwrap();
    assert!(m.0 == WsCommand::Leave && m.1.is_empty());
    let m = Message::try_from_parts("m", "text").unwrap();
    assert!(m.0 == WsCommand::Message && m.1 == "text");
    let m = Message::try_from_parts("nick", "me").unwrap();
    assert!(m.0 == WsCommand::Nick && m.1 == "me");
    assert!(Message::try_from_parts("auth", "tok").is_err());
    assert!(Message::try_from_parts("part", "x").is_err());
}

#[test]
fn token_applies_to_the_next_connection() {
    let mut s = Supervisor::new(ConnectOptions::new(""));
    let (_, first) = s.handle(join("x")).start.unwrap();
    s.set_oauth("tok".to_string());
    assert_eq!(first.oauth, None);
    assert_eq!(s.options_ref().oauth.as_deref(), Some("tok"));
    assert_eq!(s.live_connection().is_some(), true);
    let (_, opts) = s.handle(join("y")).start.unwrap();
    assert_eq!(opts.oauth.as_deref(), Some("tok"));
    assert_eq!(Connection::new(&opts).handshake()[0], "PASS oauth:tok\r\n");
}
