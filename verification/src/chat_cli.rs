//! `openhuman chat`: what the command line asks for, and the decisions and
//! messages of the interactive session that the TUI talks to.
use vstd::prelude::*;
use crate::text::{
    chars_of, chars_range, concat2, concat3, decimal, decimal_str, join_lines, join_lines_str,
    lemma_trim_contains, lemma_trim_edges, lemma_trim_end_id, lemma_trim_idempotent,
    lemma_trim_start_id, owned, pad_right, pad_right_str, str_eq, string_of, trim, trim_bounds,
    trim_str, views,
};

verus! {

#[verifier::external_type_specification]
#[verifier::external_body]
#[verifier::reject_recursive_types(T)]
pub struct ExReceiver<T>(std::sync::mpsc::Receiver<T>);

/// What a non-blocking receive on a channel found.
#[derive(Debug, Clone, Copy, PartialEq, Eq)]
pub enum ChannelPoll {
    /// A value was waiting.
    Received,
    /// Nothing was waiting.
    Empty,
    /// The sending side is gone.
    Disconnected,
}

/// std's `Receiver::try_recv` on the TUI's quit channel, told apart by
/// outcome. What it returns depends on the other thread, so nothing is
/// stated of it.
#[verifier::external_body]
fn poll_quit(rx: &std::sync::mpsc::Receiver<()>) -> (p: ChannelPoll) {
    match rx.try_recv() {
        Ok(()) => ChannelPoll::Received,
        Err(std::sync::mpsc::TryRecvError::Empty) => ChannelPoll::Empty,
        Err(std::sync::mpsc::TryRecvError::Disconnected) => ChannelPoll::Disconnected,
    }
}

/// Whether a poll of the quit channel means the TUI is gone: a quit
/// signal came, or the TUI dropped its end.
pub fn quit_from_poll(p: ChannelPoll) -> (res: bool)
    ensures
        res == !(p is Empty),
{
    match p {
        ChannelPoll::Received | ChannelPoll::Disconnected => true,
        ChannelPoll::Empty => false,
    }
}

/// Whether the TUI asked to end the session (or went away).
pub fn tui_requested_quit(rx_quit: &std::sync::mpsc::Receiver<()>) -> (res: bool) {
    quit_from_poll(poll_quit(rx_quit))
}


/// The part of `s` before its first `':'`, or `None` where it has none
/// (what `str::split_once(':')` gives as the first half).
pub open spec fn before_colon(s: Seq<char>) -> Option<Seq<char>>
    decreases s.len(),
{
    if s.len() == 0 {
        None
    } else if s[0] == ':' {
        Some(Seq::empty())
    } else {
        match before_colon(s.drop_first()) {
            Some(p) => Some(seq![s[0]] + p),
            None => None,
        }
    }
}

/// The chat route for `model` that keeps the provider of the route
/// `current` (`provider:model`): both trimmed, and only where the route
/// names a provider and the model is not blank.
pub open spec fn rewrite_route(current: Seq<char>, model: Seq<char>) -> Option<Seq<char>> {
    let c = trim(current);
    let m = trim(model);
    if c.len() == 0 || m.len() == 0 {
        None
    } else {
        match before_colon(c) {
            None => None,
            Some(p) => {
                let provider = trim(p);
                if provider.len() == 0 {
                    None
                } else {
                    Some(provider + seq![':'] + m)
                }
            },
        }
    }
}

proof fn lemma_before_colon_at(s: Seq<char>, k: int)
    requires
        0 <= k < s.len(),
        s[k] == ':',
        forall|j: int| 0 <= j < k ==> s[j] != ':',
    ensures
        before_colon(s) == Some(s.take(k)),
    decreases k,
{
    if k > 0 {
        lemma_before_colon_at(s.drop_first(), k - 1);
        assert(seq![s[0]] + s.drop_first().take(k - 1) =~= s.take(k));
    }
}

proof fn lemma_before_colon_none(s: Seq<char>)
    requires
        forall|j: int| 0 <= j < s.len() ==> s[j] != ':',
    ensures
        before_colon(s) is None,
    decreases s.len(),
{
    if s.len() > 0 {
        lemma_before_colon_none(s.drop_first());
    }
}

proof fn lemma_before_colon_no_colon(s: Seq<char>)
    requires
        before_colon(s) is Some,
    ensures
        !before_colon(s)->0.contains(':'),
    decreases s.len(),
{
    if s.len() > 0 && s[0] != ':' {
        lemma_before_colon_no_colon(s.drop_first());
        let p = before_colon(s.drop_first())->0;
        assert forall|j: int| 0 <= j < (seq![s[0]] + p).len() implies (seq![s[0]] + p)[j] != ':' by {
            if j > 0 {
                assert((seq![s[0]] + p)[j] == p[j - 1]);
            }
        }
    }
}

/// The chat route that switching to `model` leaves in place of `current`,
/// if it has a provider to keep.
pub fn rewrite_chat_provider_model(current: &str, model: &str) -> (res: Option<String>)
    ensures
        match res {
            Some(r) => rewrite_route(current@, model@) == Some(r@),
            None => rewrite_route(current@, model@) is None,
        },
{
    let cv = chars_of(current);
    let (ca, cb) = trim_bounds(&cv);
    let c = chars_range(&cv, ca, cb);
    let mv = chars_of(model);
    let (ma, mb) = trim_bounds(&mv);
    let m = chars_range(&mv, ma, mb);
    if c.len() == 0 || m.len() == 0 {
        return None;
    }
    let n = c.len();
    let mut k: usize = 0;
    while k < n && c[k] != ':'
        invariant
            n == c@.len(),
            k <= n,
            forall|j: int| 0 <= j < k ==> c@[j] != ':',
        decreases n - k,
    {
        k = k + 1;
    }
    if k == n {
        proof {
            lemma_before_colon_none(c@);
        }
        return None;
    }
    proof {
        lemma_before_colon_at(c@, k as int);
    }
    let p = chars_range(&c, 0, k);
    assert(p@ == c@.take(k as int));
    let (pa, pb) = trim_bounds(&p);
    if pa == pb {
        return None;
    }
    let mut route = chars_range(&p, pa, pb);
    route.push(':');
    let mut mm = m;
    route.append(&mut mm);
    let r = string_of(&route);
    assert(r@ =~= trim(p@) + seq![':'] + trim(model@));
    Some(r)
}

/// Switching the route's model twice is switching it once, to the second
/// model: a route that `rewrite_route` produced keeps its provider.
pub proof fn lemma_rewrite_route_last_wins(current: Seq<char>, m1: Seq<char>, m2: Seq<char>)
    requires
        rewrite_route(current, m1) is Some,
    ensures
        rewrite_route(rewrite_route(current, m1)->0, m2) == rewrite_route(current, m2),
{
    let c = trim(current);
    let p = before_colon(c)->0;
    let provider = trim(p);
    let m = trim(m1);
    let r = provider + seq![':'] + m;
    lemma_trim_edges(p);
    lemma_trim_edges(m1);
    assert(r[0] == provider[0]);
    assert(r.last() == m.last());
    lemma_trim_start_id(r);
    lemma_trim_end_id(r);
    assert(trim(r) == r);
    lemma_before_colon_no_colon(c);
    lemma_trim_contains(p);
    assert forall|j: int| 0 <= j < provider.len() implies r[j] != ':' by {
        assert(provider.contains(provider[j]));
    }
    assert(r[provider.len() as int] == ':');
    lemma_before_colon_at(r, provider.len() as int);
    assert(r.take(provider.len() as int) =~= provider);
    lemma_trim_idempotent(p);
}


/// What `openhuman chat` was asked to do.
#[derive(Debug, Clone, Copy, PartialEq, Eq)]
pub enum ChatCommand {
    /// Print the usage text.
    ShowHelp,
    /// Start the interactive session.
    StartSession,
}

/// Whether the arguments ask for the usage text.
pub open spec fn asks_for_help(args: Seq<String>) -> bool {
    exists|i: int| 0 <= i < args.len() && (args[i]@ == "-h"@ || args[i]@ == "--help"@)
}

/// What `openhuman chat` does with its arguments: `-h` or `--help`
/// anywhere asks for the usage text, anything else starts the session.
pub fn run_chat_command(args: &[String]) -> (res: ChatCommand)
    ensures
        (res == ChatCommand::ShowHelp) == asks_for_help(args@),
        (res == ChatCommand::StartSession) == !asks_for_help(args@),
{
    let n = args.len();
    let mut i: usize = 0;
    while i < n
        invariant
            n == args@.len(),
            i <= n,
            forall|j: int| 0 <= j < i ==> !(args@[j]@ == "-h"@ || args@[j]@ == "--help"@),
        decreases n - i,
    {
        let a = args[i].as_str();
        if str_eq(a, "-h") || str_eq(a, "--help") {
            return ChatCommand::ShowHelp;
        }
        i = i + 1;
    }
    ChatCommand::StartSession
}

/// Whether a line typed in the session ends it.
pub open spec fn is_exit_text(m: Seq<char>) -> bool {
    m == "/exit"@ || m == "/quit"@
}

/// Whether `msg` is `/exit` or `/quit`.
pub fn is_exit_command(msg: &str) -> (res: bool)
    ensures
        res == is_exit_text(msg@),
{
    str_eq(msg, "/exit") || str_eq(msg, "/quit")
}

/// What the session does with a line from the TUI.
#[derive(Debug, Clone, Copy, PartialEq, Eq)]
pub enum SessionInput {
    /// `/exit` or `/quit`: the session ends.
    EndSession,
    /// The agent takes a turn on the line.
    RunTurn,
    /// There is no agent: the TUI is told so.
    AgentNotReady,
}

/// What the session does with the line `msg`, given whether an agent is
/// ready.
pub open spec fn input_decision(msg: Seq<char>, agent_ready: bool) -> SessionInput {
    if is_exit_text(msg) {
        SessionInput::EndSession
    } else if agent_ready {
        SessionInput::RunTurn
    } else {
        SessionInput::AgentNotReady
    }
}

/// What the session does with the line `msg`, given whether an agent is
/// ready.
pub fn classify_user_input(msg: &str, agent_ready: bool) -> (res: SessionInput)
    ensures
        res == input_decision(msg@, agent_ready),
{
    if is_exit_command(msg) {
        SessionInput::EndSession
    } else if agent_ready {
        SessionInput::RunTurn
    } else {
        SessionInput::AgentNotReady
    }
}

/// What the TUI is sent after an agent turn: the answer, or the error.
pub fn turn_response(result: Result<String, String>) -> (res: String)
    ensures
        res@ == match result {
            Ok(r) => r@,
            Err(e) => "Error: "@ + e@,
        },
{
    match result {
        Ok(r) => r,
        Err(e) => concat2("Error: ", e.as_str()),
    }
}

/// The model that the TUI shows at the start: the configured one, or
/// `unknown`.
pub fn initial_model_name(default_model: Option<String>) -> (res: String)
    ensures
        res@ == match default_model {
            Some(m) => m@,
            None => "unknown"@,
        },
{
    match default_model {
        Some(m) => m,
        None => owned("unknown"),
    }
}

/// How to log in.
pub open spec fn login_text() -> Seq<char> {
    "To log in, get your session token from the OpenHuman app and run:\n  openhuman auth store_session --token <token>\n\nOr set provider credentials in the app, then use /login here to refresh the session."@
}

/// How to log in.
pub fn login_instructions() -> (res: &'static str)
    ensures
        res@ == login_text(),
{
    "To log in, get your session token from the OpenHuman app and run:\n  openhuman auth store_session --token <token>\n\nOr set provider credentials in the app, then use /login here to refresh the session."
}

/// What the TUI is told while there is no agent.
pub open spec fn not_ready_text() -> Seq<char> {
    "Agent is not ready yet.\n\n"@ + login_text()
}

/// What the TUI is told while there is no agent.
pub fn agent_not_ready_message() -> (res: String)
    ensures
        res@ == not_ready_text(),
{
    concat2("Agent is not ready yet.\n\n", login_instructions())
}

/// An answer to a pending tool approval.
#[derive(Debug, Clone, Copy, PartialEq, Eq)]
pub enum ApprovalDecision {
    /// Let the tool run this once.
    ApproveOnce,
    /// Block the tool.
    Deny,
}

impl ApprovalDecision {
    /// Whether the answer lets the tool run.
    pub fn is_approve(&self) -> (res: bool)
        ensures
            res == (*self == ApprovalDecision::ApproveOnce),
    {
        match self {
            ApprovalDecision::ApproveOnce => true,
            ApprovalDecision::Deny => false,
        }
    }
}

/// What the TUI is told once an answer for `tool` was applied.
pub open spec fn decision_text(decision: ApprovalDecision, tool: Seq<char>) -> Seq<char> {
    if decision == ApprovalDecision::ApproveOnce {
        "Approved '"@ + tool + "' once."@
    } else {
        "Denied '"@ + tool + "'."@
    }
}

/// What the TUI is told once an answer for `tool_name` was applied.
pub fn format_cli_approval_decision(decision: ApprovalDecision, tool_name: &str) -> (res: String)
    ensures
        res@ == decision_text(decision, tool_name@),
{
    if decision.is_approve() {
        concat3("Approved '", tool_name, "' once.")
    } else {
        concat3("Denied '", tool_name, "'.")
    }
}

/// A tool call that waits for the user's approval.
pub struct PendingApproval {
    pub request_id: String,
    pub tool_name: String,
    pub action_summary: String,
}

/// The views of pending approvals: `(request id, tool, summary)`.
pub open spec fn pending_views(rows: Seq<PendingApproval>) -> Seq<(Seq<char>, Seq<char>, Seq<char>)> {
    rows.map_values(|r: PendingApproval| (r.request_id@, r.tool_name@, r.action_summary@))
}

/// The approval prompt where nothing is known of the request.
pub open spec fn generic_prompt_text() -> Seq<char> {
    "Approval required. Reply yes/approve to allow once, or no/deny to block."@
}

/// The approval prompt for a known request.
pub open spec fn detailed_prompt_text(tool: Seq<char>, summary: Seq<char>) -> Seq<char> {
    "Approval required for tool '"@ + tool + "': "@ + summary
        + "\nReply yes/approve to allow once, or no/deny to block."@
}

/// The prompt for the request `id`: about the first pending row with
/// that id, or the generic one where there is none.
pub open spec fn prompt_for(rows: Seq<(Seq<char>, Seq<char>, Seq<char>)>, id: Seq<char>) -> Seq<char>
    decreases rows.len(),
{
    if rows.len() == 0 {
        generic_prompt_text()
    } else if rows[0].0 == id {
        detailed_prompt_text(rows[0].1, rows[0].2)
    } else {
        prompt_for(rows.drop_first(), id)
    }
}

/// The prompt that asks the user to answer the approval `request_id`,
/// given the pending approvals (or the error that listing them gave).
pub fn format_cli_approval_prompt(pending: &Result<Vec<PendingApproval>, String>, request_id: &str) -> (res: String)
    ensures
        res@ == match pending {
            Ok(rows) => prompt_for(pending_views(rows@), request_id@),
            Err(_) => generic_prompt_text(),
        },
{
    match pending {
        Ok(rows) => {
            let ghost all = pending_views(rows@);
            let n = rows.len();
            let mut i: usize = 0;
            assert(all.skip(0) =~= all);
            while i < n
                invariant
                    n == rows@.len(),
                    all == pending_views(rows@),
                    *pending == Ok::<Vec<PendingApproval>, String>(*rows),
                    i <= n,
                    prompt_for(all, request_id@) == prompt_for(all.skip(i as int), request_id@),
                decreases n - i,
            {
                let row = &rows[i];
                assert(all.skip(i as int)[0] == all[i as int]);
                assert(all[i as int] == (row.request_id@, row.tool_name@, row.action_summary@));
                if str_eq(row.request_id.as_str(), request_id) {
                    let mut r = concat3(
                        "Approval required for tool '",
                        row.tool_name.as_str(),
                        "': ",
                    );
                    r.append(row.action_summary.as_str());
                    r.append("\nReply yes/approve to allow once, or no/deny to block.");
                    assert(r@ == detailed_prompt_text(row.tool_name@, row.action_summary@));
                    assert(all.skip(i as int)[0].0 == request_id@);
                    assert(prompt_for(all.skip(i as int), request_id@) == r@);
                    return r;
                }
                assert(all.skip(i as int).drop_first() =~= all.skip(i + 1));
                i = i + 1;
            }
            owned("Approval required. Reply yes/approve to allow once, or no/deny to block.")
        },
        Err(_) => owned("Approval required. Reply yes/approve to allow once, or no/deny to block."),
    }
}

/// Whether the request `request_id` still has to be shown to the user:
/// it is not the one prompted for last.
pub fn needs_approval_prompt(prompted: &Option<String>, request_id: &str) -> (res: bool)
    ensures
        res == !(match prompted {
            Some(p) => p@ == request_id@,
            None => false,
        }),
{
    match prompted {
        Some(p) => !str_eq(p.as_str(), request_id),
        None => true,
    }
}

/// What a line typed while an approval is pending leads to.
#[derive(Debug, Clone, Copy, PartialEq, Eq)]
pub enum ApprovalReplyStep {
    /// `/exit` or `/quit`: the session ends.
    Quit,
    /// Not an answer: the user is reminded how to answer.
    NotUnderstood,
    /// An answer to apply to the pending request.
    Decide(ApprovalDecision),
}

/// What the line `reply` leads to while an approval is pending, given what
/// the approval parser made of it.
pub open spec fn reply_step(reply: Seq<char>, parsed: Option<ApprovalDecision>) -> ApprovalReplyStep {
    if is_exit_text(reply) {
        ApprovalReplyStep::Quit
    } else {
        match parsed {
            Some(d) => ApprovalReplyStep::Decide(d),
            None => ApprovalReplyStep::NotUnderstood,
        }
    }
}

/// What the line `reply` leads to while an approval is pending, given what
/// the approval parser made of it.
pub fn approval_reply_step(reply: &str, parsed: Option<ApprovalDecision>) -> (res: ApprovalReplyStep)
    ensures
        res == reply_step(reply@, parsed),
{
    if is_exit_command(reply) {
        return ApprovalReplyStep::Quit;
    }
    match parsed {
        Some(d) => ApprovalReplyStep::Decide(d),
        None => ApprovalReplyStep::NotUnderstood,
    }
}

/// The reminder for a line that does not answer a pending approval.
pub open spec fn pending_hint_text() -> Seq<char> {
    "Approval pending. Reply yes/approve to allow once, or no/deny to block."@
}

/// The reminder for a line that does not answer a pending approval.
pub fn approval_pending_hint() -> (res: String)
    ensures
        res@ == pending_hint_text(),
{
    owned("Approval pending. Reply yes/approve to allow once, or no/deny to block.")
}

/// What applying an answer to the approval gate came to.
pub enum DecideOutcome {
    /// The answer was applied to the request for the named tool.
    Applied(String),
    /// No such request was pending any more.
    NotPending,
    /// The approval gate reported this error.
    Failed(String),
}

/// What the TUI is told after an answer was handed to the approval gate.
pub fn approval_decision_message(decision: ApprovalDecision, outcome: &DecideOutcome) -> (res: String)
    ensures
        res@ == match outcome {
            DecideOutcome::Applied(tool) => decision_text(decision, tool@),
            DecideOutcome::NotPending => "Approval request was already resolved or expired."@,
            DecideOutcome::Failed(e) => "Approval error: "@ + e@,
        },
{
    match outcome {
        DecideOutcome::Applied(tool) => format_cli_approval_decision(decision, tool.as_str()),
        DecideOutcome::NotPending => owned("Approval request was already resolved or expired."),
        DecideOutcome::Failed(e) => concat2("Approval error: ", e.as_str()),
    }
}

/// How waiting for an approval answer during a turn ended.
#[derive(Debug, Clone, Copy, PartialEq, Eq)]
pub enum CliTurnSignal {
    /// An answer was handled; the turn goes on.
    ApprovalHandled,
    /// The session is to end.
    Quit,
}


/// A new conversation was asked for and the agent rebuilt (or not): the
/// agent is replaced by the rebuilt one, or dropped, and the TUI is told.
pub fn handle_new_conversation<A>(built: Result<A, String>, agent: &mut Option<A>) -> (res: String)
    ensures
        match built {
            Ok(a) => *final(agent) == Some(a) && res@ == "Started a new conversation."@,
            Err(e) => *final(agent) == None::<A>
                && res@ == "Started a new conversation, but the agent is not ready.\n\nLast error: "@ + e@,
        },
{
    match built {
        Ok(rebuilt) => {
            *agent = Some(rebuilt);
            owned("Started a new conversation.")
        },
        Err(e) => {
            *agent = None;
            concat2(
                "Started a new conversation, but the agent is not ready.\n\nLast error: ",
                e.as_str(),
            )
        },
    }
}

/// The model settings that a model switch reads and changes.
pub struct ModelSettings {
    pub default_model: Option<String>,
    pub chat_provider: Option<String>,
}

/// The views of an optional text.
pub open spec fn opt_view(o: Option<String>) -> Option<Seq<char>> {
    match o {
        Some(s) => Some(s@),
        None => None,
    }
}

/// The chat route that a switch to `name` will store: the current route
/// with its model replaced, where the current route names a provider.
pub fn switch_route(settings: &ModelSettings, name: &str) -> (res: Option<String>)
    ensures
        opt_view(res) == match settings.chat_provider {
            Some(current) => rewrite_route(current@, name@),
            None => None,
        },
{
    match &settings.chat_provider {
        Some(current) => rewrite_chat_provider_model(current.as_str(), name),
        None => None,
    }
}

/// The settings after a model switch to `name` was saved: `name` is the
/// default model, and the new route, if there is one, replaces the old.
pub fn apply_model_switch(settings: &mut ModelSettings, name: String, route: Option<String>)
    ensures
        final(settings).default_model == Some(name),
        final(settings).chat_provider == match route {
            Some(r) => Some(r),
            None => old(settings).chat_provider,
        },
{
    settings.default_model = Some(name);
    if let Some(r) = route {
        settings.chat_provider = Some(r);
    }
}

/// The model switch to `name` was saved and the agent rebuilt (or not):
/// the agent is replaced, or dropped, and the TUI is told.
pub fn model_switch_message<A>(name: &str, built: Result<A, String>, agent: &mut Option<A>) -> (res: String)
    ensures
        match built {
            Ok(a) => *final(agent) == Some(a) && res@ == "Switched to model: "@ + name@,
            Err(e) => *final(agent) == None::<A> && res@ == "Model switch failed: "@ + e@,
        },
{
    match built {
        Ok(a) => {
            *agent = Some(a);
            concat2("Switched to model: ", name)
        },
        Err(e) => {
            *agent = None;
            concat2("Model switch failed: ", e.as_str())
        },
    }
}

/// What the TUI is told when the model switch could not be saved.
pub fn model_switch_failed_message(err: &str) -> (res: String)
    ensures
        res@ == "Model switch failed: "@ + err@,
{
    concat2("Model switch failed: ", err)
}

/// After `/login` reloaded the configuration, the agent was rebuilt (or
/// not): the agent is replaced, or dropped, and the TUI is told.
pub fn login_message<A>(built: Result<A, String>, agent: &mut Option<A>) -> (res: String)
    ensures
        match built {
            Ok(a) => *final(agent) == Some(a) && res@ == "Login state refreshed. Agent is ready."@,
            Err(e) => *final(agent) == None::<A> && res@ == login_text() + "\n\nLast error: "@ + e@,
        },
{
    match built {
        Ok(a) => {
            *agent = Some(a);
            owned("Login state refreshed. Agent is ready.")
        },
        Err(e) => {
            *agent = None;
            concat3(login_instructions(), "\n\nLast error: ", e.as_str())
        },
    }
}

/// What the TUI is told when `/login` could not reload the configuration.
pub fn login_reload_failed_message(err: &str) -> (res: String)
    ensures
        res@ == login_text() + "\n\nConfig reload failed: "@ + err@,
{
    concat3(login_instructions(), "\n\nConfig reload failed: ", err)
}

/// `/logout` cleared the session (or not): the agent is dropped on
/// success, and the TUI is told.
pub fn logout_message<A>(cleared: Result<(), String>, agent: &mut Option<A>) -> (res: String)
    ensures
        match cleared {
            Ok(_) => *final(agent) == None::<A> && res@ == "Logged out. Session cleared."@,
            Err(e) => *final(agent) == *old(agent) && res@ == "Logout failed: "@ + e@,
        },
{
    match cleared {
        Ok(_) => {
            *agent = None;
            owned("Logged out. Session cleared.")
        },
        Err(e) => concat2("Logout failed: ", e.as_str()),
    }
}


/// The configuration values that `/status` and `/config` show, as text.
pub struct ConfigSummary {
    pub default_model: Option<String>,
    pub workspace_dir: String,
    pub action_dir: String,
    pub api_url: Option<String>,
    pub inference_url: Option<String>,
    /// The default temperature, formatted with `{}`.
    pub default_temperature: String,
    pub output_language: Option<String>,
    /// The schema version, formatted with `{}`.
    pub schema_version: String,
}

/// The lines of `/status`; `auth` is whether the session is logged in, or
/// the error that finding out gave.
pub open spec fn status_lines(c: ConfigSummary, auth: Result<bool, String>) -> Seq<Seq<char>> {
    seq!["\u{2500}\u{2500} Status \u{2500}\u{2500}"@] + match c.default_model {
        Some(m) => seq!["Model: "@ + m@],
        None => Seq::empty(),
    } + seq![
        match auth {
            Ok(true) => "Auth: logged in"@,
            Ok(false) => "Auth: not logged in"@,
            Err(_) => "Auth: unknown"@,
        },
        "Workspace: "@ + c.workspace_dir@,
        "Action dir: "@ + c.action_dir@,
    ]
}

/// The text of `/status`.
pub fn format_status(config: &ConfigSummary, auth: &Result<bool, String>) -> (res: String)
    ensures
        res@ == join_lines(status_lines(*config, *auth)),
{
    let mut lines: Vec<String> = Vec::new();
    lines.push(owned("\u{2500}\u{2500} Status \u{2500}\u{2500}"));
    if let Some(model) = &config.default_model {
        lines.push(concat2("Model: ", model.as_str()));
    }
    match auth {
        Ok(true) => lines.push(owned("Auth: logged in")),
        Ok(false) => lines.push(owned("Auth: not logged in")),
        Err(_) => lines.push(owned("Auth: unknown")),
    }
    lines.push(concat2("Workspace: ", config.workspace_dir.as_str()));
    lines.push(concat2("Action dir: ", config.action_dir.as_str()));
    assert(views(lines@) =~= status_lines(*config, *auth));
    join_lines_str(&lines)
}

/// An optional text, or `default` where it is absent.
pub open spec fn or_text(o: Option<String>, default: Seq<char>) -> Seq<char> {
    match o {
        Some(s) => s@,
        None => default,
    }
}

fn or_str<'a>(o: &'a Option<String>, default: &'a str) -> (res: &'a str)
    ensures
        res@ == or_text(*o, default@),
{
    match o {
        Some(s) => s.as_str(),
        None => default,
    }
}

/// The lines of `/config`.
pub open spec fn config_lines(c: ConfigSummary) -> Seq<Seq<char>> {
    seq![
        "\u{2500}\u{2500} Config \u{2500}\u{2500}"@,
        "Workspace: "@ + c.workspace_dir@,
        "Action dir: "@ + c.action_dir@,
        "Default model: "@ + or_text(c.default_model, "not set"@),
        "API URL: "@ + or_text(c.api_url, "default"@),
        "Inference URL: "@ + or_text(c.inference_url, "default"@),
        "Temperature: "@ + c.default_temperature@,
        "Output language: "@ + or_text(c.output_language, "default"@),
        "Schema version: "@ + c.schema_version@,
    ]
}

/// The text of `/config`.
pub fn format_config(config: &ConfigSummary) -> (res: String)
    ensures
        res@ == join_lines(config_lines(*config)),
{
    let mut lines: Vec<String> = Vec::new();
    lines.push(owned("\u{2500}\u{2500} Config \u{2500}\u{2500}"));
    lines.push(concat2("Workspace: ", config.workspace_dir.as_str()));
    lines.push(concat2("Action dir: ", config.action_dir.as_str()));
    lines.push(concat2("Default model: ", or_str(&config.default_model, "not set")));
    lines.push(concat2("API URL: ", or_str(&config.api_url, "default")));
    lines.push(concat2("Inference URL: ", or_str(&config.inference_url, "default")));
    lines.push(concat2("Temperature: ", config.default_temperature.as_str()));
    lines.push(concat2("Output language: ", or_str(&config.output_language, "default")));
    lines.push(concat2("Schema version: ", config.schema_version.as_str()));
    assert(views(lines@) =~= config_lines(*config));
    join_lines_str(&lines)
}

/// A conversation thread as `/threads` lists it.
pub struct ThreadSummary {
    pub title: String,
    pub message_count: u64,
}

/// The line of `/threads` for one thread.
pub open spec fn thread_line(t: ThreadSummary) -> Seq<char> {
    let title = if t.title@.len() == 0 {
        "(untitled)"@
    } else {
        t.title@
    };
    "  "@ + pad_right(title, 38) + " "@ + decimal(t.message_count as nat) + " msgs"@
}

/// The text of `/threads`: `listing` is what listing the threads gave, or
/// the error of the task that ran it.
pub open spec fn threads_text(listing: Result<Result<Seq<ThreadSummary>, String>, String>) -> Seq<char> {
    match listing {
        Ok(Ok(ts)) => if ts.len() == 0 {
            "No conversation threads found."@
        } else {
            join_lines(
                seq![
                    "\u{2500}\u{2500} Threads ("@ + decimal(ts.len()) + ") \u{2500}\u{2500}"@,
                ] + ts.map_values(|t: ThreadSummary| thread_line(t)),
            )
        },
        Ok(Err(e)) => "Failed to list threads: "@ + e@,
        Err(e) => "Thread listing failed: "@ + e@,
    }
}

/// The listing inside a nested result, as a sequence.
pub open spec fn threads_seq(listing: Result<Result<Vec<ThreadSummary>, String>, String>) -> Result<
    Result<Seq<ThreadSummary>, String>,
    String,
> {
    match listing {
        Ok(Ok(v)) => Ok(Ok(v@)),
        Ok(Err(e)) => Ok(Err(e)),
        Err(e) => Err(e),
    }
}

/// The text of `/threads`.
pub fn format_thread_list(listing: &Result<Result<Vec<ThreadSummary>, String>, String>) -> (res: String)
    ensures
        res@ == threads_text(threads_seq(*listing)),
{
    match listing {
        Ok(Ok(threads)) => {
            if threads.len() == 0 {
                return owned("No conversation threads found.");
            }
            let ghost body = threads@.map_values(|t: ThreadSummary| thread_line(t));
            let mut lines: Vec<String> = Vec::new();
            let count = decimal_str(threads.len() as u128);
            lines.push(concat3("\u{2500}\u{2500} Threads (", count.as_str(), ") \u{2500}\u{2500}"));
            let ghost head = views(lines@);
            assert(head == seq![
                "\u{2500}\u{2500} Threads ("@ + decimal(threads@.len()) + ") \u{2500}\u{2500}"@,
            ]);
            let n = threads.len();
            let mut i: usize = 0;
            while i < n
                invariant
                    n == threads@.len(),
                    body == threads@.map_values(|t: ThreadSummary| thread_line(t)),
                    i <= n,
                    *listing == Ok::<Result<Vec<ThreadSummary>, String>, String>(Ok(*threads)),
                    head == seq![
                        "\u{2500}\u{2500} Threads ("@ + decimal(threads@.len()) + ") \u{2500}\u{2500}"@,
                    ],
                    views(lines@) == head + body.take(i as int),
                decreases n - i,
            {
                let t = &threads[i];
                let title = if t.title.unicode_len() == 0 {
                    owned("(untitled)")
                } else {
                    t.title.clone()
                };
                let mut line = owned("  ");
                let padded = pad_right_str(title.as_str(), 38);
                line.append(padded.as_str());
                line.append(" ");
                let c = decimal_str(t.message_count as u128);
                line.append(c.as_str());
                line.append(" msgs");
                assert(line@ == body[i as int]);
                let ghost before = views(lines@);
                let ghost l = line@;
                lines.push(line);
                assert(views(lines@) =~= before.push(l));
                assert(body.take(i + 1) =~= body.take(i as int).push(l));
                i = i + 1;
            }
            assert(body.take(n as int) =~= body);
            join_lines_str(&lines)
        },
        Ok(Err(e)) => concat2("Failed to list threads: ", e.as_str()),
        Err(e) => concat2("Thread listing failed: ", e.as_str()),
    }
}

/// Names with the count that the memory service reported for them.
pub struct NameList {
    pub names: Vec<String>,
    pub count: u64,
}

/// A listing: a header line, then one indented line per name.
pub open spec fn listing_lines(header: Seq<char>, names: Seq<Seq<char>>) -> Seq<Seq<char>> {
    seq![header] + names.map_values(|n: Seq<char>| "  "@ + n)
}

fn listing_text(header: String, names: &Vec<String>) -> (res: String)
    ensures
        res@ == join_lines(listing_lines(header@, views(names@))),
{
    let ghost body = views(names@).map_values(|n: Seq<char>| "  "@ + n);
    let mut lines: Vec<String> = Vec::new();
    lines.push(header);
    let ghost head = views(lines@);
    let n = names.len();
    let mut i: usize = 0;
    while i < n
        invariant
            n == names@.len(),
            body == views(names@).map_values(|n: Seq<char>| "  "@ + n),
            i <= n,
            head == seq![header@],
            views(lines@) == head + body.take(i as int),
        decreases n - i,
    {
        let line = concat2("  ", names[i].as_str());
        assert(line@ == body[i as int]);
        let ghost before = views(lines@);
        let ghost l = line@;
        lines.push(line);
        assert(views(lines@) =~= before.push(l));
        assert(body.take(i + 1) =~= body.take(i as int).push(l));
        i = i + 1;
    }
    assert(body.take(n as int) =~= body);
    assert(views(lines@) =~= listing_lines(header@, views(names@)));
    join_lines_str(&lines)
}

/// The text of `/memory`: the namespaces (if the memory system answered
/// with data), or the error.
pub open spec fn namespaces_text(outcome: Result<Option<(Seq<Seq<char>>, u64)>, String>) -> Seq<char> {
    match outcome {
        Ok(Some((names, count))) => if names.len() == 0 {
            "No memory namespaces found."@
        } else {
            join_lines(
                listing_lines(
                    "\u{2500}\u{2500} Memory namespaces ("@ + decimal(count as nat) + ") \u{2500}\u{2500}"@,
                    names,
                ),
            )
        },
        Ok(None) => "Memory system not available."@,
        Err(e) => "Memory listing failed: "@ + e@,
    }
}

/// A listing outcome over views.
pub open spec fn name_list_view(outcome: Result<Option<NameList>, String>) -> Result<
    Option<(Seq<Seq<char>>, u64)>,
    String,
> {
    match outcome {
        Ok(Some(d)) => Ok(Some((views(d.names@), d.count))),
        Ok(None) => Ok(None),
        Err(e) => Err(e),
    }
}

/// The text of `/memory`.
pub fn format_memory_namespaces(outcome: &Result<Option<NameList>, String>) -> (res: String)
    ensures
        res@ == namespaces_text(name_list_view(*outcome)),
{
    match outcome {
        Ok(Some(data)) => {
            if data.names.len() == 0 {
                return owned("No memory namespaces found.");
            }
            let c = decimal_str(data.count as u128);
            let header = concat3("\u{2500}\u{2500} Memory namespaces (", c.as_str(), ") \u{2500}\u{2500}");
            listing_text(header, &data.names)
        },
        Ok(None) => owned("Memory system not available."),
        Err(e) => concat2("Memory listing failed: ", e.as_str()),
    }
}

/// The text of `/files`: the memory files (if the memory system answered
/// with data), or the error.
pub open spec fn files_text(outcome: Result<Option<(Seq<Seq<char>>, u64)>, String>) -> Seq<char> {
    match outcome {
        Ok(Some((names, count))) => if names.len() == 0 {
            "No memory files found."@
        } else {
            join_lines(
                listing_lines(
                    "\u{2500}\u{2500} Memory files ("@ + decimal(count as nat) + ") \u{2500}\u{2500}"@,
                    names,
                ),
            )
        },
        Ok(None) => "No memory files found."@,
        Err(e) => "File listing failed: "@ + e@,
    }
}

/// The text of `/files`.
pub fn format_memory_files(outcome: &Result<Option<NameList>, String>) -> (res: String)
    ensures
        res@ == files_text(name_list_view(*outcome)),
{
    match outcome {
        Ok(Some(data)) => {
            if data.names.len() == 0 {
                return owned("No memory files found.");
            }
            let c = decimal_str(data.count as u128);
            let header = concat3("\u{2500}\u{2500} Memory files (", c.as_str(), ") \u{2500}\u{2500}");
            listing_text(header, &data.names)
        },
        Ok(None) => owned("No memory files found."),
        Err(e) => concat2("File listing failed: ", e.as_str()),
    }
}


/// One day of the usage history; the cost is already formatted (`{:.4}`).
pub struct UsageDay {
    pub date: String,
    pub cost: String,
    pub input_tokens: u64,
    pub output_tokens: u64,
    pub total_tokens: u64,
}

/// The tokens of all days together.
pub open spec fn token_sum(days: Seq<UsageDay>) -> nat
    decreases days.len(),
{
    if days.len() == 0 {
        0
    } else {
        token_sum(days.drop_last()) + days.last().total_tokens as nat
    }
}

/// The tokens of all days together, where that fits in a `u64`.
pub fn total_tokens(days: &Vec<UsageDay>) -> (res: Option<u64>)
    ensures
        match res {
            Some(t) => t as nat == token_sum(days@),
            None => token_sum(days@) > u64::MAX,
        },
{
    let n = days.len();
    let mut total: u64 = 0;
    let mut i: usize = 0;
    while i < n
        invariant
            n == days@.len(),
            i <= n,
            total as nat == token_sum(days@.take(i as int)),
        decreases n - i,
    {
        assert(days@.take(i + 1).drop_last() =~= days@.take(i as int));
        let t = days[i].total_tokens;
        if total > u64::MAX - t {
            proof {
                lemma_token_sum_prefix(days@, i + 1);
            }
            return None;
        }
        total = total + t;
        i = i + 1;
    }
    assert(days@.take(n as int) =~= days@);
    Some(total)
}

proof fn lemma_token_sum_prefix(days: Seq<UsageDay>, k: int)
    requires
        0 <= k <= days.len(),
    ensures
        token_sum(days.take(k)) <= token_sum(days),
    decreases days.len() - k,
{
    if k < days.len() {
        lemma_token_sum_prefix(days, k + 1);
        assert(days.take(k + 1).drop_last() =~= days.take(k));
    } else {
        assert(days.take(k) =~= days);
    }
}

/// The line of `/usage` for one day.
pub open spec fn usage_line(d: UsageDay) -> Seq<char> {
    "  "@ + d.date@ + "  $"@ + d.cost@ + "  "@ + decimal(d.input_tokens as nat) + "i/"@ + decimal(
        d.output_tokens as nat,
    ) + "o tokens"@
}

/// The text of `/usage`: `history` is the last days' usage (or the error
/// of reading it), where usage is tracked; `total_cost` is the cost of all
/// days together, formatted (`{:.4}`).
pub open spec fn usage_text(history: Option<Result<Seq<UsageDay>, String>>, total_cost: Seq<char>) -> Seq<char> {
    match history {
        None => "Usage tracking not initialized."@,
        Some(Err(e)) => "Usage query failed: "@ + e@,
        Some(Ok(days)) => if days.len() == 0 {
            "No usage data recorded yet."@
        } else {
            join_lines(
                seq![
                    "\u{2500}\u{2500} Usage (last 7 days) \u{2500}\u{2500}  $"@ + total_cost + "  "@
                        + decimal(token_sum(days)) + " tokens"@,
                ] + days.map_values(|d: UsageDay| usage_line(d)),
            )
        },
    }
}

/// The usage history over sequences.
pub open spec fn history_seq(history: Option<Result<Vec<UsageDay>, String>>) -> Option<Result<Seq<UsageDay>, String>> {
    match history {
        None => None,
        Some(Err(e)) => Some(Err(e)),
        Some(Ok(v)) => Some(Ok(v@)),
    }
}

/// The text of `/usage`.
pub fn format_usage(history: &Option<Result<Vec<UsageDay>, String>>, total_cost: &str) -> (res: String)
    requires
        match history {
            Some(Ok(days)) => token_sum(days@) <= u64::MAX,
            _ => true,
        },
    ensures
        res@ == usage_text(history_seq(*history), total_cost@),
{
    match history {
        None => owned("Usage tracking not initialized."),
        Some(Err(e)) => concat2("Usage query failed: ", e.as_str()),
        Some(Ok(days)) => {
            if days.len() == 0 {
                return owned("No usage data recorded yet.");
            }
            let tokens = match total_tokens(days) {
                Some(t) => t,
                None => 0,
            };
            let ghost body = days@.map_values(|d: UsageDay| usage_line(d));
            let mut header = concat2("\u{2500}\u{2500} Usage (last 7 days) \u{2500}\u{2500}  $", total_cost);
            header.append("  ");
            let t = decimal_str(tokens as u128);
            header.append(t.as_str());
            header.append(" tokens");
            let mut lines: Vec<String> = Vec::new();
            lines.push(header);
            let ghost head = views(lines@);
            let n = days.len();
            let mut i: usize = 0;
            while i < n
                invariant
                    n == days@.len(),
                    body == days@.map_values(|d: UsageDay| usage_line(d)),
                    *history == Some(Ok::<Vec<UsageDay>, String>(*days)),
                    head == seq![
                        "\u{2500}\u{2500} Usage (last 7 days) \u{2500}\u{2500}  $"@ + total_cost@ + "  "@
                            + decimal(token_sum(days@)) + " tokens"@,
                    ],
                    i <= n,
                    views(lines@) == head + body.take(i as int),
                decreases n - i,
            {
                let d = &days[i];
                let mut line = concat3("  ", d.date.as_str(), "  $");
                line.append(d.cost.as_str());
                line.append("  ");
                let a = decimal_str(d.input_tokens as u128);
                line.append(a.as_str());
                line.append("i/");
                let b = decimal_str(d.output_tokens as u128);
                line.append(b.as_str());
                line.append("o tokens");
                assert(line@ == body[i as int]);
                let ghost before = views(lines@);
                let ghost l = line@;
                lines.push(line);
                assert(views(lines@) =~= before.push(l));
                assert(body.take(i + 1) =~= body.take(i as int).push(l));
                i = i + 1;
            }
            assert(body.take(n as int) =~= body);
            join_lines_str(&lines)
        },
    }
}

/// A tool that the agent can call.
pub struct ToolInfo {
    pub name: String,
    pub description: String,
}

/// The line of `/tools` for one tool.
pub open spec fn tool_line(t: ToolInfo) -> Seq<char> {
    "  "@ + pad_right(t.name@, 20) + " "@ + t.description@
}

/// The text of `/tools`.
pub open spec fn tools_text(tools: Seq<ToolInfo>) -> Seq<char> {
    if tools.len() == 0 {
        "No tools available."@
    } else {
        join_lines(
            seq!["\u{2500}\u{2500} Tools ("@ + decimal(tools.len()) + ") \u{2500}\u{2500}"@]
                + tools.map_values(|t: ToolInfo| tool_line(t)),
        )
    }
}

/// The text of `/tools` for the agent's tools.
pub fn list_agent_tools(tools: &Vec<ToolInfo>) -> (res: String)
    ensures
        res@ == tools_text(tools@),
{
    if tools.len() == 0 {
        return owned("No tools available.");
    }
    let ghost body = tools@.map_values(|t: ToolInfo| tool_line(t));
    let c = decimal_str(tools.len() as u128);
    let mut lines: Vec<String> = Vec::new();
    lines.push(concat3("\u{2500}\u{2500} Tools (", c.as_str(), ") \u{2500}\u{2500}"));
    let ghost head = views(lines@);
    let n = tools.len();
    let mut i: usize = 0;
    while i < n
        invariant
            n == tools@.len(),
            body == tools@.map_values(|t: ToolInfo| tool_line(t)),
            head == seq!["\u{2500}\u{2500} Tools ("@ + decimal(tools@.len()) + ") \u{2500}\u{2500}"@],
            i <= n,
            views(lines@) == head + body.take(i as int),
        decreases n - i,
    {
        let t = &tools[i];
        let padded = pad_right_str(t.name.as_str(), 20);
        let mut line = concat3("  ", padded.as_str(), " ");
        line.append(t.description.as_str());
        assert(line@ == body[i as int]);
        let ghost before = views(lines@);
        let ghost l = line@;
        lines.push(line);
        assert(views(lines@) =~= before.push(l));
        assert(body.take(i + 1) =~= body.take(i as int).push(l));
        i = i + 1;
    }
    assert(body.take(n as int) =~= body);
    join_lines_str(&lines)
}

/// A character's code with ASCII capitals folded to lower case.
pub open spec fn ascii_fold(c: char) -> u32 {
    if 65 <= (c as u32) && (c as u32) <= 90 {
        (c as u32 + 32) as u32
    } else {
        c as u32
    }
}

/// Whether two texts are equal up to ASCII case (`str::eq_ignore_ascii_case`).
pub open spec fn eq_ignore_ascii_case(a: Seq<char>, b: Seq<char>) -> bool {
    a.len() == b.len() && forall|i: int| 0 <= i < a.len() ==> ascii_fold(a[i]) == ascii_fold(b[i])
}

fn fold(c: char) -> (res: u32)
    ensures
        res == ascii_fold(c),
{
    let x = c as u32;
    if 65 <= x && x <= 90 {
        x + 32
    } else {
        x
    }
}

/// Whether `a` and `b` are equal up to ASCII case.
pub fn str_eq_ignore_ascii_case(a: &str, b: &str) -> (res: bool)
    ensures
        res == eq_ignore_ascii_case(a@, b@),
{
    let n = a.unicode_len();
    if n != b.unicode_len() {
        return false;
    }
    let mut i: usize = 0;
    while i < n
        invariant
            n == a@.len() == b@.len(),
            i <= n,
            forall|k: int| 0 <= k < i ==> ascii_fold(a@[k]) == ascii_fold(b@[k]),
        decreases n - i,
    {
        if fold(a.get_char(i)) != fold(b.get_char(i)) {
            return false;
        }
        i = i + 1;
    }
    true
}

/// Whether the value of `OPENHUMAN_APPROVAL_GATE` asks to turn the approval
/// gate off: `0` or `false` (any case), around whitespace.
pub open spec fn gate_off_value(value: Option<String>) -> bool {
    match value {
        Some(v) => trim(v@) == "0"@ || eq_ignore_ascii_case(trim(v@), "false"@),
        None => false,
    }
}

/// Whether the environment value `value` asks to turn the approval gate off.
pub fn approval_gate_override_requested(value: &Option<String>) -> (res: bool)
    ensures
        res == gate_off_value(*value),
{
    match value {
        Some(v) => {
            let t = trim_str(v.as_str());
            str_eq(t.as_str(), "0") || str_eq_ignore_ascii_case(t.as_str(), "false")
        },
        None => false,
    }
}

/// The name that a freshly built CLI agent gets, from the process id and
/// the time in nanoseconds since the Unix epoch.
pub open spec fn session_name(pid: u32, nanos: u128) -> Seq<char> {
    "orchestrator_cli_"@ + decimal(pid as nat) + "_"@ + decimal(nanos as nat)
}

/// The name that a freshly built CLI agent gets.
pub fn cli_session_name(pid: u32, nanos: u128) -> (res: String)
    ensures
        res@ == session_name(pid, nanos),
{
    let p = decimal_str(pid as u128);
    let t = decimal_str(nanos);
    let mut r = concat3("orchestrator_cli_", p.as_str(), "_");
    r.append(t.as_str());
    r
}

/// The id of the CLI's chat thread: `cli-chat-` and a freshly drawn
/// UUID (in its `{}` form).
pub fn cli_thread_id(uuid: &str) -> (res: String)
    ensures
        res@ == "cli-chat-"@ + uuid@,
{
    concat2("cli-chat-", uuid)
}

/// The request id of one agent turn: `cli-turn-` and a freshly drawn UUID.
pub fn turn_request_id(uuid: &str) -> (res: String)
    ensures
        res@ == "cli-turn-"@ + uuid@,
{
    concat2("cli-turn-", uuid)
}

/// The session id of the approval gate: `session-` and a freshly drawn UUID.
pub fn approval_session_id(uuid: &str) -> (res: String)
    ensures
        res@ == "session-"@ + uuid@,
{
    concat2("session-", uuid)
}

/// Whether a poll of the TUI's input or command channel ends the session:
/// the TUI dropped its end.
pub fn ends_session(p: ChannelPoll) -> (res: bool)
    ensures
        res == (p == ChannelPoll::Disconnected),
{
    match p {
        ChannelPoll::Disconnected => true,
        _ => false,
    }
}


/// While an approval is pending, `/exit` and `/quit` end the session
/// whatever the approval parser made of them, as they do outside an
/// approval; any other line is applied as the parsed answer, or gets the
/// reminder where it is not one.
pub proof fn lemma_exit_while_approval_pending(
    reply: Seq<char>,
    parsed: Option<ApprovalDecision>,
    agent_ready: bool,
)
    ensures
        reply == "/exit"@ ==> input_decision(reply, agent_ready) == SessionInput::EndSession,
        reply == "/quit"@ ==> input_decision(reply, agent_ready) == SessionInput::EndSession,
        reply != "/exit"@ && reply != "/quit"@ ==> input_decision(reply, agent_ready) == (if agent_ready {
            SessionInput::RunTurn
        } else {
            SessionInput::AgentNotReady
        }),
        reply == "/exit"@ ==> reply_step(reply, parsed) == ApprovalReplyStep::Quit,
        reply == "/quit"@ ==> reply_step(reply, parsed) == ApprovalReplyStep::Quit,
        input_decision(reply, agent_ready) == SessionInput::EndSession ==> reply_step(reply, parsed)
            == ApprovalReplyStep::Quit,
        reply != "/exit"@ && reply != "/quit"@ ==> reply_step(reply, parsed) == match parsed {
            Some(d) => ApprovalReplyStep::Decide(d),
            None => ApprovalReplyStep::NotUnderstood,
        },
{
}

/// The prompt for a request names the tool and the summary of the first
/// pending row with that request id.
pub proof fn lemma_prompt_first_match(rows: Seq<(Seq<char>, Seq<char>, Seq<char>)>, id: Seq<char>, k: int)
    requires
        0 <= k < rows.len(),
        rows[k].0 == id,
        forall|j: int| 0 <= j < k ==> rows[j].0 != id,
    ensures
        prompt_for(rows, id) == "Approval required for tool '"@ + rows[k].1 + "': "@ + rows[k].2
            + "\nReply yes/approve to allow once, or no/deny to block."@,
    decreases k,
{
    if k > 0 {
        lemma_prompt_first_match(rows.drop_first(), id, k - 1);
    }
}

/// Where no pending row has the request id, the prompt is the generic one.
pub proof fn lemma_prompt_no_match(rows: Seq<(Seq<char>, Seq<char>, Seq<char>)>, id: Seq<char>)
    requires
        forall|j: int| 0 <= j < rows.len() ==> rows[j].0 != id,
    ensures
        prompt_for(rows, id) == "Approval required. Reply yes/approve to allow once, or no/deny to block."@,
    decreases rows.len(),
{
    if rows.len() > 0 {
        lemma_prompt_no_match(rows.drop_first(), id);
    }
}

/// A route is rewritten only where the model is not blank and the route
/// names a provider before a `:`; the result keeps that provider and ends
/// in `:` and the trimmed model.
pub proof fn lemma_rewrite_route_shape(current: Seq<char>, model: Seq<char>)
    ensures
        trim(model).len() == 0 ==> rewrite_route(current, model) is None,
        !trim(current).contains(':') ==> rewrite_route(current, model) is None,
        rewrite_route(current, model) matches Some(r) ==> ({
            let p = r.take(r.len() - trim(model).len() - 1);
            &&& trim(model).len() > 0
            &&& r.len() > trim(model).len() + 1
            &&& r.skip(r.len() - trim(model).len()) == trim(model)
            &&& r[r.len() - trim(model).len() - 1] == ':'
            &&& p.len() > 0
            &&& !p.contains(':')
            &&& p == trim(before_colon(trim(current))->0)
        }),
{
    let c = trim(current);
    if !c.contains(':') {
        assert forall|j: int| 0 <= j < c.len() implies c[j] != ':' by {
            if c[j] == ':' {
                assert(c.contains(':'));
            }
        }
        lemma_before_colon_none(c);
    }
    if let Some(r) = rewrite_route(current, model) {
        let b = before_colon(c)->0;
        let p = trim(b);
        let m = trim(model);
        assert(r == p + seq![':'] + m);
        assert(r.take(r.len() - m.len() - 1) =~= p);
        assert(r.skip(r.len() - m.len()) =~= m);
        lemma_before_colon_no_colon(c);
        lemma_trim_contains(b);
        if p.contains(':') {
            assert(b.contains(':'));
        }
    }
}

} // verus!
