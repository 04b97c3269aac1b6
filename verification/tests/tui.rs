use openhuman_chat::text::{decimal_str, join_lines_str, pad_right_str, split_lines, trim_str};
use openhuman_chat::tui::{
    ansi_str, cmds, cmds_help_text, cursor_column, filtered_cmds, handle_key, is_approval_reply,
    popup_rect, visible_range, Action, AgentCmd, App, Area, Key, KeyOutcome, KeyPress, TermColor,
};

fn press(app: &mut App, code: Key) -> KeyOutcome {
    handle_key(KeyPress { code, ctrl: false }, app)
}

fn type_text(app: &mut App, text: &str) {
    for c in text.chars() {
        let out = press(app, Key::Char(c));
        assert_eq!(out.action, Action::Continue);
    }
}

/// Puts `text` in the input line without the menu opening on a leading `/`.
fn set_input(app: &mut App, text: &str) {
    type_text(app, "x");
    type_text(app, text);
    press(app, Key::Home);
    press(app, Key::Delete);
    press(app, Key::End);
}

fn last_msg(app: &App) -> (String, String) {
    let m = app.messages().last().unwrap();
    (m.sender.clone(), m.content.clone())
}

#[test]
fn typing_and_sending_a_message() {
    let mut app = App::new("gpt-4o");
    type_text(&mut app, "  hello ");
    assert_eq!(app.input_string(), "  hello ");
    assert_eq!(app.cursor(), 8);
    let out = press(&mut app, Key::Enter);
    assert_eq!(out.action, Action::Send("hello".to_string()));
    assert_eq!(out.cmd, None);
    assert_eq!(out.approval, None);
    assert_eq!(app.input_string(), "");
    assert_eq!(app.cursor(), 0);
    app.record_sent("hello".to_string());
    assert!(app.thinking());
    assert_eq!(last_msg(&app), ("you".to_string(), "hello".to_string()));
}

#[test]
fn blank_enter_does_nothing() {
    let mut app = App::new("m");
    type_text(&mut app, " \t ");
    let out = press(&mut app, Key::Enter);
    assert_eq!(out.action, Action::Continue);
    assert!(app.messages().is_empty());
}

#[test]
fn ctrl_c_and_exit_quit() {
    let mut app = App::new("m");
    type_text(&mut app, "ab");
    let out = handle_key(KeyPress { code: Key::Char('c'), ctrl: true }, &mut app);
    assert_eq!(out.action, Action::Quit);
    assert_eq!(app.input_string(), "ab");
    let mut app = App::new("m");
    press(&mut app, Key::Char('/'));
    type_text(&mut app, "ex");
    assert!(app.menu_open());
    press(&mut app, Key::Enter);
    assert!(!app.menu_open());
    assert_eq!(app.input_string(), "/exit ");
    let out = press(&mut app, Key::Enter);
    assert_eq!(out.action, Action::Quit);
    let mut app = App::new("m");
    set_input(&mut app, "/quit");
    let out = press(&mut app, Key::Enter);
    assert_eq!(out.action, Action::Quit);
}

#[test]
fn slash_on_empty_input_opens_menu_and_enter_picks() {
    let mut app = App::new("m");
    press(&mut app, Key::Char('/'));
    assert!(app.menu_open());
    assert_eq!(app.input_string(), "");
    type_text(&mut app, "lo");
    assert_eq!(app.input_string(), "lo");
    press(&mut app, Key::Down);
    assert_eq!(app.menu_index(), 1);
    press(&mut app, Key::Enter);
    assert!(!app.menu_open());
    assert_eq!(app.input_string(), "/logout ");
    assert_eq!(app.cursor(), 8);
    let out = press(&mut app, Key::Enter);
    assert_eq!(out.cmd, Some(AgentCmd::Logout));
    assert!(app.thinking());
}

#[test]
fn menu_slash_and_backspace_close_it() {
    let mut app = App::new("m");
    press(&mut app, Key::Tab);
    assert!(app.menu_open());
    press(&mut app, Key::Char('/'));
    assert!(!app.menu_open());
    press(&mut app, Key::Tab);
    type_text(&mut app, "x");
    press(&mut app, Key::Backspace);
    assert!(!app.menu_open());
    assert_eq!(app.input_string(), "");
}

#[test]
fn help_lists_commands() {
    let mut app = App::new("m");
    type_text(&mut app, "x");
    press(&mut app, Key::Home);
    press(&mut app, Key::Delete);
    type_text(&mut app, "hi");
    press(&mut app, Key::Home);
    type_text(&mut app, "/");
    press(&mut app, Key::End);
    press(&mut app, Key::Backspace);
    press(&mut app, Key::Backspace);
    type_text(&mut app, "help");
    assert_eq!(app.input_string(), "/help");
    let out = press(&mut app, Key::Enter);
    assert_eq!(out.cmd, None);
    let (sender, content) = last_msg(&app);
    assert_eq!(sender, "system");
    let expected: Vec<String> =
        cmds().iter().map(|(n, d)| format!("/{:<12} {}", n, d)).collect();
    assert_eq!(content, expected.join("\n"));
    assert_eq!(content, cmds_help_text());
    assert!(content.starts_with("/help         Show available commands\n/model        Switch AI model"));
}

#[test]
fn model_picker_switches_model() {
    let mut app = App::new("gpt-4o");
    press(&mut app, Key::Char('/'));
    type_text(&mut app, "mod");
    press(&mut app, Key::Enter);
    assert_eq!(app.input_string(), "/model ");
    let out = press(&mut app, Key::Enter);
    assert_eq!(out.cmd, None);
    assert!(app.model_popup_open());
    press(&mut app, Key::Up);
    assert_eq!(app.model_index(), 0);
    for _ in 0..10 {
        press(&mut app, Key::Down);
    }
    assert_eq!(app.model_index(), 2);
    press(&mut app, Key::Up);
    let out = press(&mut app, Key::Enter);
    assert_eq!(out.cmd, Some(AgentCmd::SwitchModel("gpt-4o-mini".to_string())));
    assert!(!app.model_popup_open());
    assert_eq!(app.model_index(), 0);
    app.apply_response("Switched to model: gpt-4o-mini".to_string());
    assert_eq!(app.model_name(), "gpt-4o-mini");
    assert!(!app.thinking());
    app.apply_response("Model switch failed: no".to_string());
    assert_eq!(app.model_name(), "gpt-4o-mini");
    assert_eq!(last_msg(&app).0, "ai");
}

#[test]
fn slash_commands_go_to_the_agent() {
    let cases = [
        ("/login", AgentCmd::Login),
        ("/logout", AgentCmd::Logout),
        ("/status", AgentCmd::Status),
        ("/threads", AgentCmd::ListThreads),
        ("/memory", AgentCmd::ListMemory),
        ("/files", AgentCmd::ListFiles),
        ("/config", AgentCmd::ShowConfig),
        ("// usage", AgentCmd::ShowUsage),
        ("/tools", AgentCmd::ListTools),
    ];
    for (text, cmd) in cases {
        let mut app = App::new("m");
        set_input(&mut app, text);
        let out = press(&mut app, Key::Enter);
        assert_eq!(out.action, Action::Continue);
        assert_eq!(out.cmd, Some(cmd));
        assert!(app.thinking());
    }
}

#[test]
fn unknown_command_is_reported() {
    let mut app = App::new("m");
    type_text(&mut app, "x/");
    press(&mut app, Key::Home);
    press(&mut app, Key::Delete);
    type_text(&mut app, "bogus");
    assert_eq!(app.input_string(), "bogus/");
    press(&mut app, Key::Home);
    type_text(&mut app, "/");
    let out = press(&mut app, Key::Enter);
    assert_eq!(out.cmd, None);
    assert!(!app.thinking());
    assert_eq!(
        last_msg(&app),
        ("system".to_string(), "Unknown command /bogus/. Try /help.".to_string())
    );
}

#[test]
fn approval_answers_are_copied_to_the_approval_channel() {
    let mut app = App::new("m");
    type_text(&mut app, " YES ");
    let out = press(&mut app, Key::Enter);
    assert_eq!(out.approval, Some("YES".to_string()));
    assert_eq!(out.action, Action::Send("YES".to_string()));
    type_text(&mut app, "maybe");
    let out = press(&mut app, Key::Enter);
    assert_eq!(out.approval, None);
    assert!(is_approval_reply(" Deny\n"));
    assert!(is_approval_reply("N"));
    assert!(!is_approval_reply("yess"));
}

#[test]
fn new_conversation_waits_for_turn() {
    let mut app = App::new("m");
    app.record_sent("q".to_string());
    set_input(&mut app, "/new");
    let out = press(&mut app, Key::Enter);
    assert_eq!(out.cmd, None);
    assert_eq!(
        last_msg(&app).1,
        "Cannot start a new conversation while a turn is in progress. Please wait."
    );
    app.apply_response("a".to_string());
    press(&mut app, Key::Char('/'));
    type_text(&mut app, "NE");
    press(&mut app, Key::Enter);
    let out = press(&mut app, Key::Enter);
    assert_eq!(out.cmd, Some(AgentCmd::NewConversation));
    assert!(app.messages().is_empty());
}

#[test]
fn typing_then_backspace_restores_input() {
    let mut app = App::new("m");
    type_text(&mut app, "héllo");
    press(&mut app, Key::Left);
    press(&mut app, Key::Left);
    assert_eq!(app.cursor(), 3);
    press(&mut app, Key::Char('ü'));
    assert_eq!(app.input_string(), "hélülo");
    press(&mut app, Key::Backspace);
    assert_eq!(app.input_string(), "héllo");
    assert_eq!(app.cursor(), 3);
    assert_eq!(app.cursor_byte_offset(), 4);
    press(&mut app, Key::Left);
    press(&mut app, Key::Right);
    assert_eq!(app.cursor(), 3);
    press(&mut app, Key::Right);
    press(&mut app, Key::Right);
    press(&mut app, Key::Right);
    assert_eq!(app.cursor(), 5);
    press(&mut app, Key::Delete);
    assert_eq!(app.input_string(), "héllo");
}

#[test]
fn scrolling_keys() {
    let mut app = App::new("m");
    press(&mut app, Key::Up);
    press(&mut app, Key::Up);
    assert_eq!(app.scroll_offset(), 2);
    press(&mut app, Key::PageDown);
    assert_eq!(app.scroll_offset(), 0);
    press(&mut app, Key::PageUp);
    assert_eq!(app.scroll_offset(), 10);
    press(&mut app, Key::Down);
    assert_eq!(app.scroll_offset(), 9);
    type_text(&mut app, "x");
    press(&mut app, Key::Up);
    assert_eq!(app.scroll_offset(), 9);
    app.apply_response("r".to_string());
    assert_eq!(app.scroll_offset(), 0);
}

#[test]
fn filtered_commands_follow_the_prefix() {
    let names = |input: &str| -> Vec<&str> { filtered_cmds(input).iter().map(|(n, _)| *n).collect() };
    assert_eq!(names("/he"), vec!["help"]);
    assert_eq!(names("/LO"), vec!["login", "logout"]);
    assert_eq!(names("t"), vec!["threads", "tools"]);
    assert_eq!(names("/").len(), 13);
    assert_eq!(names("").len(), 13);
    assert!(names("/zz").is_empty());
    assert_eq!(names("//he"), Vec::<&str>::new());
}

#[test]
fn message_lines_and_tags() {
    let mut app = App::new("m");
    app.record_sent("hi".to_string());
    app.apply_response("line1\nline2".to_string());
    type_text(&mut app, "/help");
    press(&mut app, Key::Esc);
    let lines = app.msgs_to_lines();
    assert_eq!(lines[0], " \x1b[0myou\x1b[0m hi");
    assert_eq!(lines[1], " \x1b[32mai\x1b[0m line1");
    assert_eq!(lines[2], "   line2");
    assert_eq!(lines.len(), 3);
    assert_eq!(ansi_str("x", TermColor::Yellow), "\x1b[33mx\x1b[0m");
    assert_eq!(ansi_str("x", TermColor::DarkGray), "\x1b[90mx\x1b[0m");
    assert_eq!(ansi_str("x", TermColor::White), "\x1b[97mx\x1b[0m");
    assert_eq!(ansi_str("x", TermColor::Cyan), "\x1b[36mx\x1b[0m");
}

#[test]
fn status_and_input_lines() {
    let mut app = App::new("gpt-4o");
    assert_eq!(
        app.status_line(),
        " \x1b[32m●\x1b[0m  Model: gpt-4o  |  Ctrl+C to quit  |  /  for menu "
    );
    assert_eq!(
        app.input_line(),
        (" Type a message or  /  for commands".to_string(), TermColor::DarkGray)
    );
    type_text(&mut app, "ab");
    assert_eq!(app.input_line(), (" ab".to_string(), TermColor::White));
    assert!(app.cursor_visible());
    app.record_sent("q".to_string());
    assert_eq!(app.input_line(), (" ab ◐ thinking...".to_string(), TermColor::Yellow));
    press(&mut app, Key::Tab);
    assert!(!app.cursor_visible());
}

#[test]
fn menu_and_model_entries() {
    let mut app = App::new("m");
    type_text(&mut app, "/");
    type_text(&mut app, "us");
    let items = app.menu_items();
    assert_eq!(items, vec![("/usage        Display token usage".to_string(), true)]);
    let models = app.model_items();
    assert_eq!(models.len(), 3);
    assert_eq!(models[0], ("gpt-4o".to_string(), true));
    assert_eq!(models[2], ("gemini-2.5-pro".to_string(), false));
}

#[test]
fn layout_computations() {
    assert_eq!(visible_range(0, 10, 3), (0, 0));
    assert_eq!(visible_range(5, 10, 3), (0, 5));
    assert_eq!(visible_range(30, 10, 0), (20, 30));
    assert_eq!(visible_range(30, 10, 5), (15, 25));
    assert_eq!(visible_range(30, 10, 100), (0, 10));
    let area = Area { x: 0, y: 5, width: 80, height: 20 };
    assert_eq!(popup_rect(area, 40, 13), Area { x: 20, y: 7, width: 40, height: 15 });
    let small = Area { x: 2, y: 0, width: 10, height: 6 };
    assert_eq!(popup_rect(small, 34, 5), Area { x: 4, y: 2, width: 6, height: 2 });
    assert_eq!(cursor_column(1, 80, 5), 7);
    assert_eq!(cursor_column(1, 10, 50), 9);
    assert_eq!(cursor_column(1, 0, 3), 0);
}

#[test]
fn text_helpers() {
    assert_eq!(trim_str("\u{a0} a b \u{2003}"), "a b");
    assert_eq!(pad_right_str("ab", 5), "ab   ");
    assert_eq!(pad_right_str("abcdef", 3), "abcdef");
    assert_eq!(decimal_str(0), "0");
    assert_eq!(decimal_str(1009), "1009");
    let parts = split_lines("a\n\nb\n");
    assert_eq!(parts, vec!["a", "", "b", ""]);
    assert_eq!(join_lines_str(&parts), "a\n\nb\n");
    assert_eq!(split_lines(""), vec![""]);
}

#[test]
fn trimming_twice_is_trimming_once() {
    for text in ["  a b  ", "\u{3000}x\n", "", " \t ", "y"] {
        let once = trim_str(text);
        assert_eq!(trim_str(&once), once);
    }
}

#[test]
fn help_listing_via_method() {
    let mut app = App::new("m");
    app.cmds_list();
    let m = app.messages().last().unwrap();
    assert_eq!(m.sender, "system");
    assert_eq!(m.content.lines().count(), cmds().len());
    assert!(m.content.ends_with("/exit         Quit openhuman"));
}

#[test]
fn menu_keys_follow_the_help_text() {
    let mut app = App::new("m");
    press(&mut app, Key::Char('/'));
    for _ in 0..20 {
        press(&mut app, Key::Down);
    }
    assert_eq!(app.menu_index(), 12);
    type_text(&mut app, "lo");
    assert_eq!(app.menu_index(), 0);
    for _ in 0..5 {
        press(&mut app, Key::Down);
    }
    assert_eq!(app.menu_index(), 1);
    press(&mut app, Key::Up);
    assert_eq!(app.menu_index(), 0);
    type_text(&mut app, "zz");
    press(&mut app, Key::Down);
    assert_eq!(app.menu_index(), 0);
    let out = press(&mut app, Key::Tab);
    assert_eq!(out.action, Action::Continue);
    assert_eq!(out.cmd, None);
    assert!(!app.menu_open());
    assert_eq!(app.menu_index(), 0);
    assert_eq!(app.input_string(), "lozz");
}

#[test]
fn ctrl_c_quits_in_menu_and_picker() {
    let mut app = App::new("m");
    press(&mut app, Key::Char('/'));
    type_text(&mut app, "he");
    let out = handle_key(KeyPress { code: Key::Char('c'), ctrl: true }, &mut app);
    assert_eq!(out.action, Action::Quit);
    assert_eq!(out.cmd, None);
    assert_eq!(app.input_string(), "he");
    assert_eq!(app.cursor(), 2);
    assert!(app.menu_open());
    let mut app = App::new("m");
    set_input(&mut app, "/model");
    press(&mut app, Key::Enter);
    assert!(app.model_popup_open());
    let out = handle_key(KeyPress { code: Key::Char('c'), ctrl: true }, &mut app);
    assert_eq!(out.action, Action::Quit);
    assert!(app.model_popup_open());
    assert!(app.messages().is_empty());
}

#[test]
fn a_sequence_of_responses() {
    let mut app = App::new("gpt-4o");
    app.record_sent("q".to_string());
    for r in ["Switched to model: o3", "hello", "Switched to model: gpt-4o-mini", "bye"] {
        app.apply_response(r.to_string());
    }
    let senders: Vec<&str> = app.messages().iter().map(|m| m.sender.as_str()).collect();
    assert_eq!(senders, vec!["you", "ai", "ai", "ai", "ai"]);
    assert_eq!(app.messages()[4].content, "bye");
    assert_eq!(app.model_name(), "gpt-4o-mini");
    assert!(!app.thinking());
    assert!(app.status_line().contains("  Model: gpt-4o-mini  |"));
}

#[test]
fn non_ascii_slash_commands_skip_the_approval_channel() {
    let mut app = App::new("m");
    set_input(&mut app, " /ÿes ");
    let out = press(&mut app, Key::Enter);
    assert_eq!(out.approval, None);
    assert_eq!(out.cmd, None);
    assert_eq!(last_msg(&app).1, "Unknown command /ÿes. Try /help.");
    assert!(!is_approval_reply("/YES"));
}

#[test]
fn keys_keep_the_model_name() {
    let mut app = App::new("gpt-4o");
    app.apply_response("Switched to model: o3".to_string());
    for code in [Key::Tab, Key::Down, Key::Enter, Key::Char('x'), Key::Esc, Key::Enter] {
        press(&mut app, code);
    }
    assert_eq!(app.model_name(), "o3");
    assert_eq!(app.model_items().len(), 3);
}
