use openhuman_chat::chat_cli::{
    agent_not_ready_message, apply_model_switch, approval_decision_message,
    approval_gate_override_requested, approval_pending_hint, approval_reply_step,
    classify_user_input, cli_session_name, format_cli_approval_decision,
    format_cli_approval_prompt, format_config, format_memory_files, format_memory_namespaces,
    format_status, format_thread_list, format_usage, approval_session_id,
    cli_thread_id, ends_session, turn_request_id, handle_new_conversation, initial_model_name,
    is_exit_command, list_agent_tools, login_instructions, login_message,
    login_reload_failed_message, logout_message, model_switch_failed_message,
    model_switch_message, needs_approval_prompt, quit_from_poll, rewrite_chat_provider_model,
    run_chat_command, switch_route, total_tokens, tui_requested_quit, turn_response,
    ApprovalDecision, ApprovalReplyStep, ChannelPoll, ChatCommand, ConfigSummary, DecideOutcome,
    ModelSettings, NameList, PendingApproval, SessionInput, ThreadSummary, ToolInfo, UsageDay,
};
use openhuman_chat::transport;

const LOGIN: &str = "To log in, get your session token from the OpenHuman app and run:\n  openhuman auth store_session --token <token>\n\nOr set provider credentials in the app, then use /login here to refresh the session.";

fn s(x: &str) -> String {
    x.to_string()
}

#[test]
fn rewrite_chat_provider_model_preserves_provider_prefix() {
    assert_eq!(
        rewrite_chat_provider_model("openai:gpt-4o", "gpt-5"),
        Some("openai:gpt-5".to_string())
    );
    assert_eq!(
        rewrite_chat_provider_model(" ollama:llama3 ", " qwen2.5 "),
        Some("ollama:qwen2.5".to_string())
    );
}

#[test]
fn rewrite_chat_provider_model_leaves_unqualified_routes_alone() {
    assert_eq!(rewrite_chat_provider_model("cloud", "gpt-5"), None);
    assert_eq!(rewrite_chat_provider_model("", "gpt-5"), None);
    assert_eq!(rewrite_chat_provider_model("openai:gpt-4o", " "), None);
}

#[test]
fn cli_approval_decision_message_reflects_decision() {
    assert_eq!(
        format_cli_approval_decision(ApprovalDecision::ApproveOnce, "shell"),
        "Approved 'shell' once."
    );
    assert_eq!(
        format_cli_approval_decision(ApprovalDecision::Deny, "shell"),
        "Denied 'shell'."
    );
}

#[test]
fn rewrite_edge_cases() {
    assert_eq!(rewrite_chat_provider_model("openai:", "x"), Some(s("openai:x")));
    assert_eq!(rewrite_chat_provider_model(":gpt-4o", "x"), None);
    assert_eq!(rewrite_chat_provider_model("  : gpt", "x"), None);
    assert_eq!(rewrite_chat_provider_model("a:b:c", "m"), Some(s("a:m")));
    assert_eq!(rewrite_chat_provider_model(" open ai :b", "m"), Some(s("open ai:m")));
    assert_eq!(rewrite_chat_provider_model("openai:gpt", "\u{3000}"), None);
}

#[test]
fn rewrite_second_switch_wins() {
    let once = rewrite_chat_provider_model(" openai : gpt-4o", "gpt-5").unwrap();
    assert_eq!(once, "openai:gpt-5");
    assert_eq!(
        rewrite_chat_provider_model(&once, "o3"),
        rewrite_chat_provider_model(" openai : gpt-4o", "o3")
    );
}

#[test]
fn chat_command_help_flags() {
    assert_eq!(run_chat_command(&[s("-h")]), ChatCommand::ShowHelp);
    assert_eq!(run_chat_command(&[s("x"), s("--help")]), ChatCommand::ShowHelp);
    assert_eq!(run_chat_command(&[]), ChatCommand::StartSession);
    assert_eq!(run_chat_command(&[s("-help"), s("--h")]), ChatCommand::StartSession);
    assert_eq!(transport::run_chat_command(&[s("--help")]), ChatCommand::ShowHelp);
    assert_eq!(transport::run_chat_command(&[s("chat")]), ChatCommand::StartSession);
}

#[test]
fn session_input_decisions() {
    assert_eq!(classify_user_input("/exit", true), SessionInput::EndSession);
    assert_eq!(classify_user_input("/quit", false), SessionInput::EndSession);
    assert_eq!(classify_user_input("hello", true), SessionInput::RunTurn);
    assert_eq!(classify_user_input("hello", false), SessionInput::AgentNotReady);
    assert_eq!(classify_user_input(" /exit", true), SessionInput::RunTurn);
    assert!(is_exit_command("/quit"));
    assert!(!is_exit_command("/exit "));
}

#[test]
fn exit_ends_session_while_approval_pending() {
    assert_eq!(
        approval_reply_step("/exit", Some(ApprovalDecision::ApproveOnce)),
        ApprovalReplyStep::Quit
    );
    assert_eq!(approval_reply_step("yes", Some(ApprovalDecision::ApproveOnce)), ApprovalReplyStep::Decide(ApprovalDecision::ApproveOnce));
    assert_eq!(approval_reply_step("maybe", None), ApprovalReplyStep::NotUnderstood);
    assert_eq!(
        approval_pending_hint(),
        "Approval pending. Reply yes/approve to allow once, or no/deny to block."
    );
}

#[test]
fn turn_and_model_texts() {
    assert_eq!(turn_response(Ok(s("hi"))), "hi");
    assert_eq!(turn_response(Err(s("boom"))), "Error: boom");
    assert_eq!(initial_model_name(Some(s("gpt-4o"))), "gpt-4o");
    assert_eq!(initial_model_name(None), "unknown");
    assert_eq!(login_instructions(), LOGIN);
    assert_eq!(agent_not_ready_message(), format!("Agent is not ready yet.\n\n{}", LOGIN));
}

fn row(id: &str, tool: &str, summary: &str) -> PendingApproval {
    PendingApproval { request_id: s(id), tool_name: s(tool), action_summary: s(summary) }
}

#[test]
fn approval_prompt_texts() {
    let rows = Ok(vec![row("r1", "fs", "read"), row("r2", "shell", "rm -rf x"), row("r2", "other", "y")]);
    assert_eq!(
        format_cli_approval_prompt(&rows, "r2"),
        "Approval required for tool 'shell': rm -rf x\nReply yes/approve to allow once, or no/deny to block."
    );
    let generic = "Approval required. Reply yes/approve to allow once, or no/deny to block.";
    assert_eq!(format_cli_approval_prompt(&rows, "r9"), generic);
    assert_eq!(format_cli_approval_prompt(&Err(s("db down")), "r1"), generic);
    assert!(needs_approval_prompt(&None, "r1"));
    assert!(!needs_approval_prompt(&Some(s("r1")), "r1"));
    assert!(needs_approval_prompt(&Some(s("r1")), "r2"));
}

#[test]
fn approval_decision_messages() {
    assert_eq!(
        approval_decision_message(ApprovalDecision::Deny, &DecideOutcome::Applied(s("shell"))),
        "Denied 'shell'."
    );
    assert_eq!(
        approval_decision_message(ApprovalDecision::ApproveOnce, &DecideOutcome::NotPending),
        "Approval request was already resolved or expired."
    );
    assert_eq!(
        approval_decision_message(ApprovalDecision::ApproveOnce, &DecideOutcome::Failed(s("x"))),
        "Approval error: x"
    );
    assert!(ApprovalDecision::ApproveOnce.is_approve());
    assert!(!ApprovalDecision::Deny.is_approve());
}

#[test]
fn agent_lifecycle_messages() {
    let mut agent: Option<u32> = None;
    assert_eq!(handle_new_conversation(Ok(7), &mut agent), "Started a new conversation.");
    assert_eq!(agent, Some(7));
    assert_eq!(
        handle_new_conversation::<u32>(Err(s("no key")), &mut agent),
        "Started a new conversation, but the agent is not ready.\n\nLast error: no key"
    );
    assert_eq!(agent, None);
    assert_eq!(model_switch_message("o3", Ok(1u32), &mut agent), "Switched to model: o3");
    assert_eq!(agent, Some(1));
    assert_eq!(model_switch_message::<u32>("o3", Err(s("e")), &mut agent), "Model switch failed: e");
    assert_eq!(agent, None);
    assert_eq!(model_switch_failed_message("disk"), "Model switch failed: disk");
    assert_eq!(login_message(Ok(3u32), &mut agent), "Login state refreshed. Agent is ready.");
    assert_eq!(agent, Some(3));
    assert_eq!(
        login_message::<u32>(Err(s("401")), &mut agent),
        format!("{}\n\nLast error: 401", LOGIN)
    );
    assert_eq!(agent, None);
    assert_eq!(
        login_reload_failed_message("bad toml"),
        format!("{}\n\nConfig reload failed: bad toml", LOGIN)
    );
    agent = Some(9);
    assert_eq!(logout_message(Err(s("io")), &mut agent), "Logout failed: io");
    assert_eq!(agent, Some(9));
    assert_eq!(logout_message(Ok(()), &mut agent), "Logged out. Session cleared.");
    assert_eq!(agent, None);
}

#[test]
fn model_switch_settings() {
    let mut settings = ModelSettings { default_model: Some(s("gpt-4o")), chat_provider: Some(s("openai:gpt-4o")) };
    let route = switch_route(&settings, "gpt-5");
    assert_eq!(route, Some(s("openai:gpt-5")));
    apply_model_switch(&mut settings, s("gpt-5"), route);
    assert_eq!(settings.default_model, Some(s("gpt-5")));
    assert_eq!(settings.chat_provider, Some(s("openai:gpt-5")));
    let mut cloud = ModelSettings { default_model: None, chat_provider: Some(s("cloud")) };
    let route = switch_route(&cloud, "gpt-5");
    assert_eq!(route, None);
    apply_model_switch(&mut cloud, s("gpt-5"), route);
    assert_eq!(cloud.chat_provider, Some(s("cloud")));
    assert_eq!(cloud.default_model, Some(s("gpt-5")));
    let none = ModelSettings { default_model: None, chat_provider: None };
    assert_eq!(switch_route(&none, "x"), None);
}

fn config() -> ConfigSummary {
    ConfigSummary {
        default_model: Some(s("gpt-4o")),
        workspace_dir: s("/home/u/ws"),
        action_dir: s("/home/u/act"),
        api_url: None,
        inference_url: Some(s("http://x")),
        default_temperature: s("0.7"),
        output_language: None,
        schema_version: s("3"),
    }
}

#[test]
fn status_and_config_texts() {
    let c = config();
    assert_eq!(
        format_status(&c, &Ok(true)),
        "── Status ──\nModel: gpt-4o\nAuth: logged in\nWorkspace: /home/u/ws\nAction dir: /home/u/act"
    );
    let mut c2 = config();
    c2.default_model = None;
    assert_eq!(
        format_status(&c2, &Ok(false)),
        "── Status ──\nAuth: not logged in\nWorkspace: /home/u/ws\nAction dir: /home/u/act"
    );
    assert!(format_status(&c, &Err(s("x"))).contains("\nAuth: unknown\n"));
    assert_eq!(
        format_config(&c2),
        "── Config ──\nWorkspace: /home/u/ws\nAction dir: /home/u/act\nDefault model: not set\nAPI URL: default\nInference URL: http://x\nTemperature: 0.7\nOutput language: default\nSchema version: 3"
    );
}

#[test]
fn thread_listing_texts() {
    assert_eq!(format_thread_list(&Ok(Ok(vec![]))), "No conversation threads found.");
    assert_eq!(format_thread_list(&Ok(Err(s("io")))), "Failed to list threads: io");
    assert_eq!(format_thread_list(&Err(s("join"))), "Thread listing failed: join");
    let threads = vec![
        ThreadSummary { title: s("Trip"), message_count: 12 },
        ThreadSummary { title: s(""), message_count: 0 },
    ];
    let expected = format!(
        "── Threads (2) ──\n  {:<38} 12 msgs\n  {:<38} 0 msgs",
        "Trip", "(untitled)"
    );
    assert_eq!(format_thread_list(&Ok(Ok(threads))), expected);
}

#[test]
fn memory_listing_texts() {
    let data = NameList { names: vec![s("notes"), s("people")], count: 2 };
    assert_eq!(
        format_memory_namespaces(&Ok(Some(data))),
        "── Memory namespaces (2) ──\n  notes\n  people"
    );
    let empty = NameList { names: vec![], count: 0 };
    assert_eq!(format_memory_namespaces(&Ok(Some(empty))), "No memory namespaces found.");
    assert_eq!(format_memory_namespaces(&Ok(None)), "Memory system not available.");
    assert_eq!(format_memory_namespaces(&Err(s("x"))), "Memory listing failed: x");
    let files = NameList { names: vec![s("a.md")], count: 10 };
    assert_eq!(format_memory_files(&Ok(Some(files))), "── Memory files (10) ──\n  a.md");
    assert_eq!(format_memory_files(&Ok(None)), "No memory files found.");
    assert_eq!(format_memory_files(&Ok(Some(NameList { names: vec![], count: 0 }))), "No memory files found.");
    assert_eq!(format_memory_files(&Err(s("y"))), "File listing failed: y");
}

fn day(date: &str, cost: &str, i: u64, o: u64) -> UsageDay {
    UsageDay { date: s(date), cost: s(cost), input_tokens: i, output_tokens: o, total_tokens: i + o }
}

#[test]
fn usage_texts() {
    assert_eq!(format_usage(&None, "0"), "Usage tracking not initialized.");
    assert_eq!(format_usage(&Some(Err(s("db"))), "0"), "Usage query failed: db");
    assert_eq!(format_usage(&Some(Ok(vec![])), "0.0000"), "No usage data recorded yet.");
    let days = vec![day("2024-01-01", "0.1000", 100, 20), day("2024-01-02", "0.0500", 5, 5)];
    assert_eq!(total_tokens(&days), Some(130));
    assert_eq!(
        format_usage(&Some(Ok(days)), "0.1500"),
        "── Usage (last 7 days) ──  $0.1500  130 tokens\n  2024-01-01  $0.1000  100i/20o tokens\n  2024-01-02  $0.0500  5i/5o tokens"
    );
    let big = vec![day("a", "0", u64::MAX, 0), day("b", "0", 1, 0)];
    assert_eq!(total_tokens(&big), None);
}

#[test]
fn tool_listing_texts() {
    assert_eq!(list_agent_tools(&vec![]), "No tools available.");
    let tools = vec![
        ToolInfo { name: s("shell"), description: s("Run a command") },
        ToolInfo { name: s("a_very_long_tool_name_here"), description: s("d") },
    ];
    assert_eq!(
        list_agent_tools(&tools),
        format!("── Tools (2) ──\n  {:<20} Run a command\n  a_very_long_tool_name_here d", "shell")
    );
}

#[test]
fn approval_gate_override_values() {
    assert!(approval_gate_override_requested(&Some(s("0"))));
    assert!(approval_gate_override_requested(&Some(s(" FaLsE \n"))));
    assert!(!approval_gate_override_requested(&Some(s("no"))));
    assert!(!approval_gate_override_requested(&Some(s("1"))));
    assert!(!approval_gate_override_requested(&None));
}

#[test]
fn session_names_and_ids() {
    assert_eq!(cli_session_name(42, 1234567890123), "orchestrator_cli_42_1234567890123");
    assert_eq!(cli_session_name(0, 0), "orchestrator_cli_0_0");
    let u = "67e55044-10b1-426f-9247-bb680e5fe0c8";
    assert_eq!(cli_thread_id(u), "cli-chat-67e55044-10b1-426f-9247-bb680e5fe0c8");
    assert_eq!(turn_request_id(u), "cli-turn-67e55044-10b1-426f-9247-bb680e5fe0c8");
    assert_eq!(approval_session_id(u), "session-67e55044-10b1-426f-9247-bb680e5fe0c8");
}

#[test]
fn quit_channel_polls() {
    assert!(quit_from_poll(ChannelPoll::Received));
    assert!(quit_from_poll(ChannelPoll::Disconnected));
    assert!(!quit_from_poll(ChannelPoll::Empty));
    assert!(ends_session(ChannelPoll::Disconnected));
    assert!(!ends_session(ChannelPoll::Empty));
    assert!(!ends_session(ChannelPoll::Received));
    let (tx, rx) = std::sync::mpsc::channel::<()>();
    assert!(!tui_requested_quit(&rx));
    tx.send(()).unwrap();
    assert!(tui_requested_quit(&rx));
    assert!(!tui_requested_quit(&rx));
    drop(tx);
    assert!(tui_requested_quit(&rx));
}
