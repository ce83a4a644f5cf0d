use ttvy::{
    color_rgb, empty_arg, if_empty_do, prepend_last_message, process_line, split_command, Command,
    CommandType, Config, InputLine, Key, Rgb, SpamGate, StyleConfig, VimState,
};

#[test]
fn parse_join_lowercases_channel() {
    assert_eq!(Command::parse("join FooBar"), Some((CommandType::Join, "foobar".to_string())));
    assert_eq!(Command::parse("j Baz"), Some((CommandType::Join, "baz".to_string())));
    assert_eq!(Command::parse("nick MeMe"), Some((CommandType::SetNick, "meme".to_string())));
}

#[test]
fn parse_commands_without_argument() {
    assert_eq!(Command::parse("auth"), Some((CommandType::FetchAuth, String::new())));
    assert_eq!(Command::parse("leave"), Some((CommandType::Leave, String::new())));
    assert_eq!(Command::parse("d"), Some((CommandType::Leave, String::new())));
    assert_eq!(Command::parse("s"), Some((CommandType::Save, String::new())));
    assert_eq!(Command::parse("r"), Some((CommandType::Reconnect, String::new())));
    assert_eq!(Command::parse("q"), Some((CommandType::Exit, String::new())));
    assert_eq!(Command::parse("c"), Some((CommandType::Clear, String::new())));
}

#[test]
fn parse_commands_with_argument() {
    assert_eq!(Command::parse("auth tok"), Some((CommandType::SetAuth, "tok".to_string())));
    assert_eq!(Command::parse("show config"), Some((CommandType::ShowConfig, String::new())));
    assert_eq!(Command::parse("show other"), None);
    assert_eq!(Command::parse("echo  hi"), Some((CommandType::Echo, " hi".to_string())));
    assert_eq!(Command::parse("echo  "), Some((CommandType::Echo, " ".to_string())));
}

#[test]
fn parse_rejects_blank_arguments_and_unknown_names() {
    assert_eq!(Command::parse("join   "), None);
    assert_eq!(Command::parse("leave now"), None);
    assert_eq!(Command::parse("nope"), None);
    assert_eq!(split_command("join   "), ("", None));
    assert_eq!(split_command("join a b"), ("join", Some("a b")));
    assert_eq!(empty_arg(), "");
}

#[test]
fn lines_are_classified() {
    match process_line("  !join Foo ") {
        InputLine::Command((t, a)) => assert_eq!((t, a), (CommandType::Join, "foo".to_string())),
        _ => panic!("expected a command"),
    }
    assert!(matches!(process_line("!zzz"), InputLine::Unknown));
    match process_line("  hello there ") {
        InputLine::Text(t) => assert_eq!(t, "hello there"),
        _ => panic!("expected text"),
    }
}

#[test]
fn unicode_white_space_is_trimmed() {
    match process_line("\u{3000}\t!join  Foo\u{a0}\u{2003}") {
        InputLine::Command((t, a)) => assert_eq!((t, a), (CommandType::Join, " foo".to_string())),
        _ => panic!("expected a command"),
    }
    assert_eq!(Command::parse("join \u{2028}\u{85}"), None);
}

#[test]
fn up_arrow_recalls_last_message() {
    let last = "last".to_string();
    assert_eq!(prepend_last_message("\u{1b}[Ahello".to_string(), &last), "last hello");
    assert_eq!(prepend_last_message("\u{1b}[A".to_string(), &last), "last ");
    assert_eq!(prepend_last_message("plain".to_string(), &last), "plain");
}

#[test]
fn empty_text_falls_back() {
    let mut fallback = "prev".to_string();
    assert_eq!(if_empty_do(&String::new(), &mut fallback), "prev");
    assert_eq!(fallback, "prev");
    assert_eq!(if_empty_do(&"new".to_string(), &mut fallback), "new");
    assert_eq!(fallback, "new");
}

#[test]
fn spam_gate_holds_back_early_lines() {
    let mut g = SpamGate::new();
    assert_eq!(g.on_line("  one  ", true).as_deref(), Some("one"));
    assert_eq!(g.on_line("two", false), None);
    assert_eq!(g.on_line("", true).as_deref(), Some("two"));
    assert_eq!(g.on_line("\u{1b}[Amore", true).as_deref(), Some("two more"));
}

#[test]
fn author_colors_follow_settings() {
    let s = StyleConfig::new();
    assert!(s.color && !s.pad && !s.debug);
    assert_eq!(s.author_rgb(Some("1E90FF")), Some(Rgb { r: 0x1e, g: 0x90, b: 0xff }));
    assert_eq!(s.author_rgb(Some("#00ff7f")), Some(Rgb { r: 0, g: 0xff, b: 0x7f }));
    assert_eq!(s.author_rgb(Some("xyz")), None);
    assert_eq!(s.author_rgb(None), None);
    let off = StyleConfig { color: false, pad: false, debug: false };
    assert_eq!(off.author_rgb(Some("1E90FF")), None);
    assert_eq!(color_rgb("#0000Fa"), Some(Rgb { r: 0, g: 0, b: 0xfa }));
    assert_eq!(color_rgb("#+F+F+F"), None);
}

#[test]
fn chat_config_defaults() {
    let c = Config::default();
    assert!(!c.newline_padding && c.color_sender && !c.debug);
}

#[test]
fn vim_state_builds_and_resets_sequences() {
    let mut v: VimState<u8> = VimState::new();
    v.register_motion('h', 1);
    v.register_command('d', 2);
    assert!(!v.push(Key::Char('d')));
    assert!(!v.push(Key::Char('1')));
    assert!(!v.push(Key::Char('2')));
    assert_eq!(v.to_string(), "d12");
    assert!(!v.push(Key::Char('x')));
    assert_eq!(v.to_string(), "d12");
    assert!(!v.push(Key::Char('j')));
    assert_eq!(v.to_string(), "");
    assert!(!v.push(Key::Char('3')));
    assert!(!v.push(Key::Esc));
    assert_eq!(v.to_string(), "");
    assert!(v.push(Key::Char('q')));
    assert!(!v.push(Key::Other));
}
