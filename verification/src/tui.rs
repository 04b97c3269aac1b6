//! The chat TUI's state and its key handling: what each key press does to
//! the input line, the command menu and the model picker, and which
//! commands, replies and messages it hands to the session.
use vstd::prelude::*;
use crate::text::{
    utf8_len,
    chars_eq_str, chars_of, chars_range, concat2, concat3, join_lines, join_lines_str,
    lemma_trim_idempotent, lowercase, owned, pad_right, pad_right_str, push_char, skip_ws,
    split_lines, split_nl, str_eq, str_starts_with, string_of, to_lowercase, trim, trim_bounds,
    trim_start, trim_str, utf8_width, views,
};

verus! {

/// A request from the TUI to the agent session.
#[derive(Debug, PartialEq, Eq)]
pub enum AgentCmd {
    NewConversation,
    SwitchModel(String),
    Login,
    Logout,
    Status,
    ListThreads,
    ListMemory,
    ListFiles,
    ShowConfig,
    ShowUsage,
    ListTools,
}

/// An `AgentCmd` with its model name as a sequence of characters.
pub enum AgentCmdView {
    NewConversation,
    SwitchModel(Seq<char>),
    Login,
    Logout,
    Status,
    ListThreads,
    ListMemory,
    ListFiles,
    ShowConfig,
    ShowUsage,
    ListTools,
}

impl View for AgentCmd {
    type V = AgentCmdView;

    open spec fn view(&self) -> AgentCmdView {
        match self {
            AgentCmd::NewConversation => AgentCmdView::NewConversation,
            AgentCmd::SwitchModel(m) => AgentCmdView::SwitchModel(m@),
            AgentCmd::Login => AgentCmdView::Login,
            AgentCmd::Logout => AgentCmdView::Logout,
            AgentCmd::Status => AgentCmdView::Status,
            AgentCmd::ListThreads => AgentCmdView::ListThreads,
            AgentCmd::ListMemory => AgentCmdView::ListMemory,
            AgentCmd::ListFiles => AgentCmdView::ListFiles,
            AgentCmd::ShowConfig => AgentCmdView::ShowConfig,
            AgentCmd::ShowUsage => AgentCmdView::ShowUsage,
            AgentCmd::ListTools => AgentCmdView::ListTools,
        }
    }
}

/// The views of a sequence of `(name, description)` pairs.
pub open spec fn pair_views(v: Seq<(&str, &str)>) -> Seq<(Seq<char>, Seq<char>)> {
    v.map_values(|p: (&str, &str)| (p.0@, p.1@))
}

/// The slash commands that the menu offers, with their descriptions.
pub open spec fn cmd_table() -> Seq<(Seq<char>, Seq<char>)> {
    seq![
        ("help"@, "Show available commands"@),
        ("model"@, "Switch AI model"@),
        ("new"@, "Start new conversation"@),
        ("login"@, "Authenticate with API token"@),
        ("logout"@, "Clear saved credentials"@),
        ("status"@, "Show auth status & current config"@),
        ("threads"@, "List conversation threads"@),
        ("memory"@, "Browse AI memory"@),
        ("files"@, "View attached files"@),
        ("config"@, "Show current configuration"@),
        ("usage"@, "Display token usage"@),
        ("tools"@, "List available tools"@),
        ("exit"@, "Quit openhuman"@),
    ]
}

/// The slash commands of the menu, in order.
pub fn cmds() -> (v: Vec<(&'static str, &'static str)>)
    ensures
        pair_views(v@) == cmd_table(),
{
    let mut v: Vec<(&'static str, &'static str)> = Vec::new();
    v.push(("help", "Show available commands"));
    v.push(("model", "Switch AI model"));
    v.push(("new", "Start new conversation"));
    v.push(("login", "Authenticate with API token"));
    v.push(("logout", "Clear saved credentials"));
    v.push(("status", "Show auth status & current config"));
    v.push(("threads", "List conversation threads"));
    v.push(("memory", "Browse AI memory"));
    v.push(("files", "View attached files"));
    v.push(("config", "Show current configuration"));
    v.push(("usage", "Display token usage"));
    v.push(("tools", "List available tools"));
    v.push(("exit", "Quit openhuman"));
    assert(pair_views(v@) =~= cmd_table());
    v
}

/// The models that the model picker offers.
pub open spec fn model_table() -> Seq<Seq<char>> {
    seq!["gpt-4o"@, "gpt-4o-mini"@, "gemini-2.5-pro"@]
}

/// The models of the model picker, in order.
pub fn models() -> (v: Vec<String>)
    ensures
        views(v@) == model_table(),
{
    let mut v: Vec<String> = Vec::new();
    v.push(owned("gpt-4o"));
    v.push(owned("gpt-4o-mini"));
    v.push(owned("gemini-2.5-pro"));
    assert(views(v@) =~= model_table());
    v
}

/// The commands of the table whose name starts with `prefix`, in order.
pub open spec fn cmds_with_prefix(prefix: Seq<char>) -> Seq<(Seq<char>, Seq<char>)> {
    cmd_table().filter(|e: (Seq<char>, Seq<char>)| prefix.is_prefix_of(e.0))
}

/// What the menu filters by: the input without one leading `/`.
pub open spec fn menu_prefix(input: Seq<char>) -> Seq<char> {
    if input.len() > 0 && input[0] == '/' {
        input.drop_first()
    } else {
        input
    }
}

/// The commands that the menu shows for `input`: all of them where the
/// filter is empty, else those whose name starts with the lowercased filter.
pub open spec fn filtered(input: Seq<char>) -> Seq<(Seq<char>, Seq<char>)> {
    if menu_prefix(input).len() == 0 {
        cmd_table()
    } else {
        cmds_with_prefix(lowercase(menu_prefix(input)))
    }
}

/// The commands whose name starts with `prefix` (already lowercased).
pub fn cmds_with_lower_prefix(prefix: &str) -> (v: Vec<(&'static str, &'static str)>)
    ensures
        pair_views(v@) == cmds_with_prefix(prefix@),
{
    let table = cmds();
    let ghost all = pair_views(table@);
    let ghost pred = |e: (Seq<char>, Seq<char>)| prefix@.is_prefix_of(e.0);
    let mut res: Vec<(&'static str, &'static str)> = Vec::new();
    let n = table.len();
    let mut i: usize = 0;
    while i < n
        invariant
            n == table@.len(),
            all == pair_views(table@),
            all == cmd_table(),
            pred == (|e: (Seq<char>, Seq<char>)| prefix@.is_prefix_of(e.0)),
            i <= n,
            pair_views(res@) == all.take(i as int).filter(pred),
        decreases n - i,
    {
        let e = table[i];
        reveal(Seq::filter);
        assert(all.take(i + 1).drop_last() =~= all.take(i as int));
        assert(all.take(i + 1).last() == all[i as int]);
        if str_starts_with(e.0, prefix) {
            res.push(e);
            assert(pair_views(res@) =~= all.take(i as int).filter(pred).push(all[i as int]));
        }
        i = i + 1;
    }
    assert(all.take(n as int) =~= all);
    res
}

/// The commands that the menu shows for the input `input`.
pub fn filtered_cmds(input: &str) -> (v: Vec<(&'static str, &'static str)>)
    ensures
        pair_views(v@) == filtered(input@),
{
    let n = input.unicode_len();
    let prefix: String = if n > 0 && input.get_char(0) == '/' {
        let p = input.substring_char(1, n);
        assert(p@ =~= input@.drop_first());
        owned(p)
    } else {
        owned(input)
    };
    if prefix.unicode_len() == 0 {
        return cmds();
    }
    let lower = to_lowercase(prefix.as_str());
    cmds_with_lower_prefix(lower.as_str())
}

/// The words that answer a pending approval.
pub open spec fn is_reply_word(t: Seq<char>) -> bool {
    ||| t == "yes"@
    ||| t == "y"@
    ||| t == "approve"@
    ||| t == "allow"@
    ||| t == "no"@
    ||| t == "n"@
    ||| t == "deny"@
    ||| t == "reject"@
}

/// Whether the (trimmed, lowercased) text `t` is an approval answer.
pub fn is_approval_word(t: &str) -> (res: bool)
    ensures
        res == is_reply_word(t@),
{
    str_eq(t, "yes") || str_eq(t, "y") || str_eq(t, "approve") || str_eq(t, "allow") || str_eq(
        t,
        "no",
    ) || str_eq(t, "n") || str_eq(t, "deny") || str_eq(t, "reject")
}

/// Whether `text` answers a pending approval: its trimmed, lowercased form
/// is one of the answer words.
pub fn is_approval_reply(text: &str) -> (res: bool)
    ensures
        res == is_reply_word(lowercase(trim(text@))),
        trim(text@).len() > 0 && trim(text@)[0] == '/' ==> !res,
{
    let t = trim_str(text);
    let lower = to_lowercase(t.as_str());
    let res = is_approval_word(lower.as_str());
    proof {
        if t@.len() > 0 && t@[0] == '/' {
            assert(lower@[0] == '/');
            lemma_reply_words_start_with_letters(lower@);
        }
    }
    res
}

proof fn lemma_reply_words_start_with_letters(t: Seq<char>)
    requires
        t.len() > 0,
        t[0] == '/',
    ensures
        !is_reply_word(t),
{
    reveal_strlit("yes");
    reveal_strlit("y");
    reveal_strlit("approve");
    reveal_strlit("allow");
    reveal_strlit("no");
    reveal_strlit("n");
    reveal_strlit("deny");
    reveal_strlit("reject");
}

/// Enter in the input line (menu and picker closed) on an input whose
/// trimmed text starts with `/`: a slash command.
pub open spec fn slash_enter(a: AppView, k: KeyPress) -> bool {
    &&& !a.model_popup
    &&& !a.menu
    &&& k.code == Key::Enter
    &&& trim(a.input).len() > 0
    &&& trim(a.input)[0] == '/'
}


/// One line of the conversation: who said it and what.
pub struct ChatMsg {
    pub sender: String,
    pub content: String,
}

impl View for ChatMsg {
    type V = (Seq<char>, Seq<char>);

    open spec fn view(&self) -> (Seq<char>, Seq<char>) {
        (self.sender@, self.content@)
    }
}

/// A key as the TUI tells keys apart.
#[derive(Debug, Clone, Copy, PartialEq, Eq)]
pub enum Key {
    Char(char),
    Backspace,
    Delete,
    Enter,
    Esc,
    Tab,
    Left,
    Right,
    Up,
    Down,
    Home,
    End,
    PageUp,
    PageDown,
    Other,
}

/// A key press: the key and whether Control was held.
#[derive(Debug, Clone, Copy, PartialEq, Eq)]
pub struct KeyPress {
    pub code: Key,
    pub ctrl: bool,
}

/// What the TUI loop does after a key press.
#[derive(Debug, PartialEq, Eq)]
pub enum Action {
    Continue,
    Quit,
    Send(String),
}

/// An `Action` with its message as a sequence of characters.
pub enum ActionView {
    Continue,
    Quit,
    Send(Seq<char>),
}

impl View for Action {
    type V = ActionView;

    open spec fn view(&self) -> ActionView {
        match self {
            Action::Continue => ActionView::Continue,
            Action::Quit => ActionView::Quit,
            Action::Send(m) => ActionView::Send(m@),
        }
    }
}

/// Everything a key press hands out: the action, the command for the agent
/// (if any) and the text for the approval channel (if any).
pub struct KeyOutcome {
    pub action: Action,
    pub cmd: Option<AgentCmd>,
    pub approval: Option<String>,
}

/// A `KeyOutcome` over views.
pub struct OutcomeView {
    pub action: ActionView,
    pub cmd: Option<AgentCmdView>,
    pub approval: Option<Seq<char>>,
}

impl View for KeyOutcome {
    type V = OutcomeView;

    open spec fn view(&self) -> OutcomeView {
        OutcomeView {
            action: self.action@,
            cmd: match self.cmd {
                Some(c) => Some(c@),
                None => None,
            },
            approval: match self.approval {
                Some(a) => Some(a@),
                None => None,
            },
        }
    }
}

/// The state of the chat TUI.
pub struct App {
    msgs: Vec<ChatMsg>,
    input: Vec<char>,
    cursor: usize,
    menu: bool,
    menu_idx: usize,
    thinking: bool,
    model_popup: bool,
    model_idx: usize,
    models: Vec<String>,
    scroll_offset: usize,
    model_name: String,
}

/// The TUI state as mathematical values. `cursor` counts characters of
/// `input` before the cursor.
#[verifier::ext_equal]
pub struct AppView {
    pub msgs: Seq<(Seq<char>, Seq<char>)>,
    pub input: Seq<char>,
    pub cursor: nat,
    pub menu: bool,
    pub menu_idx: nat,
    pub thinking: bool,
    pub model_popup: bool,
    pub model_idx: nat,
    pub models: Seq<Seq<char>>,
    pub scroll_offset: nat,
    pub model_name: Seq<char>,
}

impl AppView {
    /// The cursor stands inside the input, the model list is not empty and
    /// the picked model is one of it.
    pub open spec fn wf(self) -> bool {
        &&& self.cursor <= self.input.len()
        &&& self.models.len() > 0
        &&& self.model_idx < self.models.len()
    }

    /// One more character fits in the input.
    pub open spec fn has_room(self) -> bool {
        self.input.len() + 1 < usize::MAX
    }
}

impl App {
    /// Every `App` is well formed.
    #[verifier::type_invariant]
    spec fn inv(&self) -> bool {
        self@.wf()
    }
}

/// The views of a sequence of messages.
pub open spec fn msg_views(v: Seq<ChatMsg>) -> Seq<(Seq<char>, Seq<char>)> {
    v.map_values(|m: ChatMsg| m@)
}

impl View for App {
    type V = AppView;

    closed spec fn view(&self) -> AppView {
        AppView {
            msgs: msg_views(self.msgs@),
            input: self.input@,
            cursor: self.cursor as nat,
            menu: self.menu,
            menu_idx: self.menu_idx as nat,
            thinking: self.thinking,
            model_popup: self.model_popup,
            model_idx: self.model_idx as nat,
            models: views(self.models@),
            scroll_offset: self.scroll_offset as nat,
            model_name: self.model_name@,
        }
    }
}

/// `x + d`, saturating at `usize::MAX`.
pub open spec fn sat_add(x: nat, d: nat) -> nat {
    if x + d <= usize::MAX {
        x + d
    } else {
        usize::MAX as nat
    }
}

/// `x - d`, saturating at 0.
pub open spec fn sat_sub(x: nat, d: nat) -> nat {
    if x >= d {
        (x - d) as nat
    } else {
        0
    }
}

/// A key press that hands nothing out.
pub open spec fn idle() -> OutcomeView {
    OutcomeView { action: ActionView::Continue, cmd: None, approval: None }
}

/// Key handling while the model picker is open.
pub open spec fn popup_step(a: AppView, code: Key) -> (AppView, OutcomeView) {
    match code {
        Key::Esc => (AppView { model_popup: false, ..a }, idle()),
        Key::Up => (AppView { model_idx: sat_sub(a.model_idx, 1), ..a }, idle()),
        Key::Down => {
            let up = sat_add(a.model_idx, 1);
            let last = (a.models.len() - 1) as nat;
            (AppView { model_idx: if up <= last { up } else { last }, ..a }, idle())
        },
        Key::Enter => (
            AppView { model_popup: false, model_idx: 0, ..a },
            OutcomeView {
                cmd: if a.model_idx < a.models.len() {
                    Some(AgentCmdView::SwitchModel(a.models[a.model_idx as int]))
                } else {
                    None
                },
                ..idle()
            },
        ),
        _ => (a, idle()),
    }
}

/// `c` typed at the cursor. (A line so long that no index could follow
/// one more character is left as it is; no machine holds such a line.)
pub open spec fn insert_char(a: AppView, c: char) -> AppView {
    if a.has_room() {
        AppView { input: a.input.insert(a.cursor as int, c), cursor: a.cursor + 1, ..a }
    } else {
        a
    }
}

/// The character before the cursor deleted, where there is one.
pub open spec fn delete_before(a: AppView) -> AppView {
    if a.cursor > 0 {
        AppView { input: a.input.remove(a.cursor - 1), cursor: (a.cursor - 1) as nat, ..a }
    } else {
        a
    }
}

/// The input that picking the menu entry `name` leaves: `/name `.
pub open spec fn picked_input(name: Seq<char>) -> Seq<char> {
    seq!['/'] + name + seq![' ']
}

/// Key handling while the command menu is open.
pub open spec fn menu_step(a: AppView, code: Key) -> AppView {
    match code {
        Key::Esc => AppView { menu: false, ..a },
        Key::Char(c) => {
            if c == '/' {
                AppView { menu: false, ..a }
            } else {
                AppView { menu_idx: 0, ..insert_char(a, c) }
            }
        },
        Key::Up => AppView { menu_idx: sat_sub(a.menu_idx, 1), ..a },
        Key::Down => {
            let f = filtered(a.input);
            if f.len() == 0 {
                a
            } else {
                let down = sat_add(a.menu_idx, 1);
                let last = (f.len() - 1) as nat;
                AppView { menu_idx: if down <= last { down } else { last }, ..a }
            }
        },
        Key::Tab => AppView { menu: false, menu_idx: 0, ..a },
        Key::Enter => {
            let f = filtered(a.input);
            let b = if a.menu_idx < f.len() {
                let inp = picked_input(f[a.menu_idx as int].0);
                AppView { input: inp, cursor: inp.len(), ..a }
            } else {
                a
            };
            AppView { menu: false, menu_idx: 0, ..b }
        },
        Key::Backspace => {
            let b = delete_before(a);
            AppView {
                menu_idx: 0,
                menu: if b.input.len() == 0 || b.input == seq!['/'] {
                    false
                } else {
                    b.menu
                },
                ..b
            }
        },
        _ => a,
    }
}


/// One line of the `/help` listing: `/name` padded to 12, then the
/// description.
pub open spec fn help_line(e: (Seq<char>, Seq<char>)) -> Seq<char> {
    seq!['/'] + pad_right(e.0, 12) + seq![' '] + e.1
}

/// The `/help` listing: one line per command.
pub open spec fn help_text() -> Seq<char> {
    join_lines(cmd_table().map_values(|e: (Seq<char>, Seq<char>)| help_line(e)))
}

/// A message from the TUI itself.
pub open spec fn sys_msg(content: Seq<char>) -> (Seq<char>, Seq<char>) {
    ("system"@, content)
}

/// What `/new` answers while a turn is running.
pub open spec fn busy_text() -> Seq<char> {
    "Cannot start a new conversation while a turn is in progress. Please wait."@
}

/// What an unknown slash command is answered with.
pub open spec fn unknown_text(name: Seq<char>) -> Seq<char> {
    "Unknown command /"@ + name + ". Try /help."@
}

/// `s` without all its leading slashes.
pub open spec fn strip_slashes(s: Seq<char>) -> Seq<char>
    decreases s.len(),
{
    if s.len() > 0 && s[0] == '/' {
        strip_slashes(s.drop_first())
    } else {
        s
    }
}

/// The command that a slash command names, for those that go to the agent.
pub open spec fn command_for(name: Seq<char>) -> Option<AgentCmdView> {
    if name == "login"@ {
        Some(AgentCmdView::Login)
    } else if name == "logout"@ {
        Some(AgentCmdView::Logout)
    } else if name == "status"@ {
        Some(AgentCmdView::Status)
    } else if name == "threads"@ {
        Some(AgentCmdView::ListThreads)
    } else if name == "memory"@ {
        Some(AgentCmdView::ListMemory)
    } else if name == "files"@ {
        Some(AgentCmdView::ListFiles)
    } else if name == "config"@ {
        Some(AgentCmdView::ShowConfig)
    } else if name == "usage"@ {
        Some(AgentCmdView::ShowUsage)
    } else if name == "tools"@ {
        Some(AgentCmdView::ListTools)
    } else {
        None
    }
}

/// Enter outside the menu and the picker: the input is taken (trimmed) and
/// cleared, then quit, a local command, a command for the agent, or a
/// message to send; an approval answer also goes to the approval channel.
pub open spec fn enter_step(a: AppView) -> (AppView, OutcomeView) {
    let text = trim(a.input);
    let b = AppView { input: Seq::empty(), cursor: 0, menu: false, ..a };
    if text.len() == 0 {
        (b, idle())
    } else if text == "/exit"@ || text == "/quit"@ {
        (b, OutcomeView { action: ActionView::Quit, ..idle() })
    } else if text == "/help"@ {
        (AppView { msgs: b.msgs.push(sys_msg(help_text())), ..b }, idle())
    } else if text == "/model"@ {
        (AppView { model_popup: true, model_idx: 0, ..b }, idle())
    } else if text == "/new"@ {
        if b.thinking {
            (AppView { msgs: b.msgs.push(sys_msg(busy_text())), ..b }, idle())
        } else {
            (
                AppView { msgs: Seq::empty(), scroll_offset: 0, ..b },
                OutcomeView { cmd: Some(AgentCmdView::NewConversation), ..idle() },
            )
        }
    } else {
        let approval = if is_reply_word(lowercase(trim(text))) {
            Some(text)
        } else {
            None
        };
        if text[0] == '/' {
            let name = trim_start(strip_slashes(text));
            match command_for(name) {
                Some(cmd) => (
                    AppView { thinking: true, ..b },
                    OutcomeView { action: ActionView::Continue, cmd: Some(cmd), approval },
                ),
                None => (
                    AppView { msgs: b.msgs.push(sys_msg(unknown_text(name))), ..b },
                    OutcomeView { action: ActionView::Continue, cmd: None, approval },
                ),
            }
        } else {
            (b, OutcomeView { action: ActionView::Send(text), cmd: None, approval })
        }
    }
}

/// Key handling outside the menu and the picker.
pub open spec fn normal_step(a: AppView, k: KeyPress) -> (AppView, OutcomeView) {
    match k.code {
        Key::Char(c) => {
            if c == '/' && a.input.len() == 0 {
                (AppView { menu: true, menu_idx: 0, ..a }, idle())
            } else {
                let b = insert_char(a, c);
                if b.input == seq!['/'] {
                    (AppView { menu: true, menu_idx: 0, ..b }, idle())
                } else {
                    (b, idle())
                }
            }
        },
        Key::Up => {
            if a.input.len() == 0 {
                (AppView { scroll_offset: sat_add(a.scroll_offset, 1), ..a }, idle())
            } else {
                (a, idle())
            }
        },
        Key::Down => {
            if a.input.len() == 0 {
                (AppView { scroll_offset: sat_sub(a.scroll_offset, 1), ..a }, idle())
            } else {
                (a, idle())
            }
        },
        Key::PageUp => (AppView { scroll_offset: sat_add(a.scroll_offset, 10), ..a }, idle()),
        Key::PageDown => (AppView { scroll_offset: sat_sub(a.scroll_offset, 10), ..a }, idle()),
        Key::Backspace => {
            let b = delete_before(a);
            (AppView { menu: if b.input.len() == 0 { false } else { b.menu }, ..b }, idle())
        },
        Key::Delete => {
            if a.cursor < a.input.len() {
                (AppView { input: a.input.remove(a.cursor as int), ..a }, idle())
            } else {
                (a, idle())
            }
        },
        Key::Left => {
            if a.cursor > 0 {
                (AppView { cursor: (a.cursor - 1) as nat, ..a }, idle())
            } else {
                (a, idle())
            }
        },
        Key::Right => {
            if a.cursor < a.input.len() {
                (AppView { cursor: a.cursor + 1, ..a }, idle())
            } else {
                (a, idle())
            }
        },
        Key::Home => (AppView { cursor: 0, ..a }, idle()),
        Key::End => (AppView { cursor: a.input.len(), ..a }, idle()),
        Key::Enter => enter_step(a),
        Key::Tab => (AppView { menu: !a.menu, menu_idx: 0, ..a }, idle()),
        Key::Esc => (AppView { menu: false, model_popup: false, ..a }, idle()),
        Key::Other => (a, idle()),
    }
}

/// Ctrl+C, which quits whatever is open.
pub open spec fn is_quit_key(k: KeyPress) -> bool {
    k.ctrl && k.code == Key::Char('c')
}

/// What a key press does: Ctrl+C quits, leaving the state as it is; else
/// the picker takes it if it is open, else the
/// menu if it is open, else the input line.
pub open spec fn key_step(a: AppView, k: KeyPress) -> (AppView, OutcomeView) {
    if is_quit_key(k) {
        (a, OutcomeView { action: ActionView::Quit, ..idle() })
    } else if a.model_popup {
        popup_step(a, k.code)
    } else if a.menu {
        (menu_step(a, k.code), idle())
    } else {
        normal_step(a, k)
    }
}


/// The state the TUI starts in, showing `model` as the current model.
pub open spec fn initial_view(model: Seq<char>) -> AppView {
    AppView {
        msgs: Seq::empty(),
        input: Seq::empty(),
        cursor: 0,
        menu: false,
        menu_idx: 0,
        thinking: false,
        model_popup: false,
        model_idx: 0,
        models: model_table(),
        scroll_offset: 0,
        model_name: model,
    }
}

/// The `/help` listing.
pub fn cmds_help_text() -> (res: String)
    ensures
        res@ == help_text(),
{
    let table = cmds();
    let ghost all = pair_views(table@);
    let mut lines: Vec<String> = Vec::new();
    let n = table.len();
    let mut i: usize = 0;
    while i < n
        invariant
            n == table@.len(),
            all == pair_views(table@),
            all == cmd_table(),
            i <= n,
            views(lines@) == all.take(i as int).map_values(
                |e: (Seq<char>, Seq<char>)| help_line(e),
            ),
        decreases n - i,
    {
        let (name, desc) = table[i];
        let mut line = String::new();
        push_char(&mut line, '/');
        let padded = pad_right_str(name, 12);
        line.append(padded.as_str());
        push_char(&mut line, ' ');
        line.append(desc);
        assert(all[i as int] == (name@, desc@));
        assert(line@ == help_line(all[i as int]));
        let ghost old_lines = lines@;
        let ghost l = line@;
        lines.push(line);
        assert(views(lines@) =~= views(old_lines).push(l));
        assert(all.take(i + 1).map_values(|e: (Seq<char>, Seq<char>)| help_line(e)) =~= all.take(
            i as int,
        ).map_values(|e: (Seq<char>, Seq<char>)| help_line(e)).push(help_line(all[i as int])));
        i = i + 1;
    }
    assert(all.take(n as int) =~= all);
    join_lines_str(&lines)
}

impl App {
    /// Shows the `/help` listing as a message from the TUI.
    pub fn cmds_list(&mut self)
        ensures
            final(self)@ == (AppView { msgs: old(self)@.msgs.push(sys_msg(help_text())), ..old(self)@ }),
    {
        let help = cmds_help_text();
        self.push_msg("system", help);
    }

    /// The conversation so far.
    pub fn messages(&self) -> (res: &Vec<ChatMsg>)
        ensures
            msg_views(res@) == self@.msgs,
    {
        &self.msgs
    }

    /// The text in the input line.
    pub fn input_string(&self) -> (res: String)
        ensures
            res@ == self@.input,
    {
        string_of(&self.input)
    }

    /// The cursor's position in the input line, in characters.
    pub fn cursor(&self) -> (res: usize)
        ensures
            res as nat == self@.cursor,
    {
        self.cursor
    }

    /// Whether the command menu is open.
    pub fn menu_open(&self) -> (res: bool)
        ensures
            res == self@.menu,
    {
        self.menu
    }

    /// The selected entry of the command menu.
    pub fn menu_index(&self) -> (res: usize)
        ensures
            res as nat == self@.menu_idx,
    {
        self.menu_idx
    }

    /// Whether a turn is running.
    pub fn thinking(&self) -> (res: bool)
        ensures
            res == self@.thinking,
    {
        self.thinking
    }

    /// Whether the model picker is open.
    pub fn model_popup_open(&self) -> (res: bool)
        ensures
            res == self@.model_popup,
    {
        self.model_popup
    }

    /// The selected entry of the model picker.
    pub fn model_index(&self) -> (res: usize)
        ensures
            res as nat == self@.model_idx,
    {
        self.model_idx
    }

    /// How far the conversation is scrolled up, in lines.
    pub fn scroll_offset(&self) -> (res: usize)
        ensures
            res as nat == self@.scroll_offset,
    {
        self.scroll_offset
    }

    /// The model that the status bar names.
    pub fn model_name(&self) -> (res: &String)
        ensures
            res@ == self@.model_name,
    {
        &self.model_name
    }

    /// A fresh TUI state showing `initial_model` as the current model.
    pub fn new(initial_model: &str) -> (app: App)
        ensures
            app@ == initial_view(initial_model@),
            app@.wf(),
    {
        let app = App {
            msgs: Vec::new(),
            input: Vec::new(),
            cursor: 0,
            menu: false,
            menu_idx: 0,
            thinking: false,
            model_popup: false,
            model_idx: 0,
            models: models(),
            scroll_offset: 0,
            model_name: owned(initial_model),
        };
        assert(msg_views(app.msgs@) =~= Seq::empty());
        app
    }

    fn push_msg(&mut self, sender: &str, content: String)
        ensures
            final(self)@ == (AppView { msgs: old(self)@.msgs.push((sender@, content@)), ..old(self)@ }),
    {
        proof {
            use_type_invariant(&*self);
        }
        let ghost before = self.msgs@;
        let mut msgs: Vec<ChatMsg> = Vec::new();
        std::mem::swap(&mut msgs, &mut self.msgs);
        msgs.push(ChatMsg { sender: owned(sender), content });
        assert(msg_views(msgs@) =~= msg_views(before).push((sender@, content@)));
        self.msgs = msgs;
    }

    /// Takes the input line out, leaving it empty with the cursor at 0.
    fn take_input(&mut self) -> (v: Vec<char>)
        ensures
            v@ == old(self)@.input,
            final(self)@ == (AppView { input: Seq::empty(), cursor: 0, ..old(self)@ }),
    {
        proof {
            use_type_invariant(&*self);
        }
        self.cursor = 0;
        let mut v: Vec<char> = Vec::new();
        std::mem::swap(&mut v, &mut self.input);
        v
    }

    /// Puts `v` in the input line with the cursor at `cursor`.
    fn put_input(&mut self, v: Vec<char>, cursor: usize)
        requires
            cursor <= v@.len(),
        ensures
            final(self)@ == (AppView { input: v@, cursor: cursor as nat, ..old(self)@ }),
    {
        proof {
            use_type_invariant(&*self);
        }
        self.cursor = 0;
        self.input = v;
        self.cursor = cursor;
    }

    fn popup_key(&mut self, code: Key) -> (out: KeyOutcome)
        requires
            old(self)@.wf(),
            old(self)@.model_popup,
        ensures
            final(self)@ == popup_step(old(self)@, code).0,
            out@ == popup_step(old(self)@, code).1,
    {
        match code {
            Key::Esc => {
                self.model_popup = false;
            },
            Key::Up => {
                self.model_idx = self.model_idx.saturating_sub(1);
            },
            Key::Down => {
                let up = self.model_idx.saturating_add(1);
                let last = self.models.len() - 1;
                self.model_idx = if up <= last {
                    up
                } else {
                    last
                };
            },
            Key::Enter => {
                let cmd = if self.model_idx < self.models.len() {
                    Some(AgentCmd::SwitchModel(self.models[self.model_idx].clone()))
                } else {
                    None
                };
                self.model_popup = false;
                self.model_idx = 0;
                return KeyOutcome { action: Action::Continue, cmd, approval: None };
            },
            _ => {},
        }
        KeyOutcome { action: Action::Continue, cmd: None, approval: None }
    }

    fn delete_before_cursor(&mut self)
        requires
            old(self)@.wf(),
        ensures
            final(self)@ == delete_before(old(self)@),
    {
        if self.cursor > 0 {
            let cur = self.cursor - 1;
            let mut v = self.take_input();
            v.remove(cur);
            self.put_input(v, cur);
        }
    }

    fn insert_at_cursor(&mut self, c: char)
        requires
            old(self)@.wf(),
        ensures
            final(self)@ == insert_char(old(self)@, c),
    {
        if self.input.len() < usize::MAX - 1 {
            let cur = self.cursor;
            let mut v = self.take_input();
            v.insert(cur, c);
            self.put_input(v, cur + 1);
        }
    }

    fn menu_key(&mut self, code: Key)
        requires
            old(self)@.wf(),
            !old(self)@.model_popup,
            old(self)@.menu,
        ensures
            final(self)@ == menu_step(old(self)@, code),
    {
        match code {
            Key::Esc => {
                self.menu = false;
            },
            Key::Char(c) => {
                if c == '/' {
                    self.menu = false;
                } else {
                    self.insert_at_cursor(c);
                    self.menu_idx = 0;
                }
            },
            Key::Up => {
                self.menu_idx = self.menu_idx.saturating_sub(1);
            },
            Key::Down => {
                let typed = string_of(&self.input);
                let f = filtered_cmds(typed.as_str());
                if f.len() > 0 {
                    let down = self.menu_idx.saturating_add(1);
                    let last = f.len() - 1;
                    self.menu_idx = if down <= last {
                        down
                    } else {
                        last
                    };
                }
            },
            Key::Tab => {
                self.menu = false;
                self.menu_idx = 0;
            },
            Key::Enter => {
                let typed = string_of(&self.input);
                let f = filtered_cmds(typed.as_str());
                if self.menu_idx < f.len() {
                    let (name, _) = f[self.menu_idx];
                    assert(pair_views(f@)[self.menu_idx as int] == (name@, f@[self.menu_idx as int].1@));
                    let mut inp: Vec<char> = Vec::new();
                    inp.push('/');
                    let mut name_chars = chars_of(name);
                    inp.append(&mut name_chars);
                    inp.push(' ');
                    assert(inp@ =~= picked_input(name@));
                    let len = inp.len();
                    self.put_input(inp, len);
                }
                self.menu = false;
                self.menu_idx = 0;
            },
            Key::Backspace => {
                self.delete_before_cursor();
                self.menu_idx = 0;
                if self.input.len() == 0 || (self.input.len() == 1 && self.input[0] == '/') {
                    assert(self.input.len() == 0 || self@.input =~= seq!['/']);
                    self.menu = false;
                }
            },
            _ => {},
        }
    }
}


proof fn lemma_strip_slashes_skip(s: Seq<char>, i: int)
    requires
        0 <= i < s.len(),
        s[i] == '/',
    ensures
        strip_slashes(s.subrange(i, s.len() as int)) == strip_slashes(s.subrange(i + 1, s.len() as int)),
{
    assert(s.subrange(i, s.len() as int).drop_first() == s.subrange(i + 1, s.len() as int));
}

/// The command name of a slash command: `text` without its leading slashes
/// and the whitespace after them.
pub fn slash_command_name(text: &Vec<char>) -> (name: Vec<char>)
    ensures
        name@ == trim_start(strip_slashes(text@)),
{
    let n = text.len();
    let mut i: usize = 0;
    assert(text@.subrange(0, n as int) == text@);
    while i < n && text[i] == '/'
        invariant
            n == text@.len(),
            i <= n,
            strip_slashes(text@) == strip_slashes(text@.subrange(i as int, n as int)),
        decreases n - i,
    {
        proof {
            lemma_strip_slashes_skip(text@, i as int);
        }
        i = i + 1;
    }
    assert(strip_slashes(text@.subrange(i as int, n as int)) == text@.subrange(i as int, n as int));
    let j = skip_ws(text, i);
    chars_range(text, j, n)
}

/// The agent command that the slash command `name` stands for, if any.
pub fn command_named(name: &Vec<char>) -> (cmd: Option<AgentCmd>)
    ensures
        match cmd {
            Some(c) => command_for(name@) == Some(c@),
            None => command_for(name@) is None,
        },
{
    if chars_eq_str(name, "login") {
        Some(AgentCmd::Login)
    } else if chars_eq_str(name, "logout") {
        Some(AgentCmd::Logout)
    } else if chars_eq_str(name, "status") {
        Some(AgentCmd::Status)
    } else if chars_eq_str(name, "threads") {
        Some(AgentCmd::ListThreads)
    } else if chars_eq_str(name, "memory") {
        Some(AgentCmd::ListMemory)
    } else if chars_eq_str(name, "files") {
        Some(AgentCmd::ListFiles)
    } else if chars_eq_str(name, "config") {
        Some(AgentCmd::ShowConfig)
    } else if chars_eq_str(name, "usage") {
        Some(AgentCmd::ShowUsage)
    } else if chars_eq_str(name, "tools") {
        Some(AgentCmd::ListTools)
    } else {
        None
    }
}

impl App {
    fn enter_key(&mut self) -> (out: KeyOutcome)
        requires
            old(self)@.wf(),
        ensures
            final(self)@ == enter_step(old(self)@).0,
            out@ == enter_step(old(self)@).1,
            trim(old(self)@.input).len() > 0 && trim(old(self)@.input)[0] == '/' ==> out.approval is None,
    {
        let (a, b) = trim_bounds(&self.input);
        let text_chars = chars_range(&self.input, a, b);
        let text = string_of(&text_chars);
        assert(text@ == trim(old(self)@.input));
        self.put_input(Vec::new(), 0);
        self.menu = false;
        if text_chars.len() == 0 {
            return KeyOutcome { action: Action::Continue, cmd: None, approval: None };
        }
        if chars_eq_str(&text_chars, "/exit") || chars_eq_str(&text_chars, "/quit") {
            return KeyOutcome { action: Action::Quit, cmd: None, approval: None };
        }
        if chars_eq_str(&text_chars, "/help") {
            self.cmds_list();
            return KeyOutcome { action: Action::Continue, cmd: None, approval: None };
        }
        if chars_eq_str(&text_chars, "/model") {
            self.model_popup = true;
            self.model_idx = 0;
            return KeyOutcome { action: Action::Continue, cmd: None, approval: None };
        }
        if chars_eq_str(&text_chars, "/new") {
            if self.thinking {
                self.push_msg(
                    "system",
                    owned(
                        "Cannot start a new conversation while a turn is in progress. Please wait.",
                    ),
                );
                return KeyOutcome { action: Action::Continue, cmd: None, approval: None };
            }
            self.msgs = Vec::new();
            self.scroll_offset = 0;
            assert(msg_views(self.msgs@) =~= Seq::empty());
            return KeyOutcome {
                action: Action::Continue,
                cmd: Some(AgentCmd::NewConversation),
                approval: None,
            };
        }
        proof {
            lemma_trim_idempotent(old(self)@.input);
        }
        let approval = if is_approval_reply(text.as_str()) {
            Some(text.clone())
        } else {
            None
        };
        if text_chars[0] == '/' {
            let name = slash_command_name(&text_chars);
            match command_named(&name) {
                Some(cmd) => {
                    self.thinking = true;
                    KeyOutcome { action: Action::Continue, cmd: Some(cmd), approval }
                },
                None => {
                    let name_text = string_of(&name);
                    self.push_msg(
                        "system",
                        concat3("Unknown command /", name_text.as_str(), ". Try /help."),
                    );
                    KeyOutcome { action: Action::Continue, cmd: None, approval }
                },
            }
        } else {
            KeyOutcome { action: Action::Send(text), cmd: None, approval }
        }
    }

    fn normal_key(&mut self, key: KeyPress) -> (out: KeyOutcome)
        requires
            old(self)@.wf(),
            !old(self)@.model_popup,
            !old(self)@.menu,
        ensures
            final(self)@ == normal_step(old(self)@, key).0,
            out@ == normal_step(old(self)@, key).1,
            key.code == Key::Enter && trim(old(self)@.input).len() > 0 && trim(old(self)@.input)[0]
                == '/' ==> out.approval is None,
    {
        match key.code {
            Key::Char(c) => {
                if c == '/' && self.input.len() == 0 {
                    self.menu = true;
                    self.menu_idx = 0;
                } else {
                    self.insert_at_cursor(c);
                    if self.input.len() == 1 && self.input[0] == '/' {
                        assert(self@.input =~= seq!['/']);
                        self.menu = true;
                        self.menu_idx = 0;
                    } else {
                        assert(self@.input != seq!['/']);
                    }
                }
            },
            Key::Up => {
                if self.input.len() == 0 {
                    self.scroll_offset = self.scroll_offset.saturating_add(1);
                }
            },
            Key::Down => {
                if self.input.len() == 0 {
                    self.scroll_offset = self.scroll_offset.saturating_sub(1);
                }
            },
            Key::PageUp => {
                self.scroll_offset = self.scroll_offset.saturating_add(10);
            },
            Key::PageDown => {
                self.scroll_offset = self.scroll_offset.saturating_sub(10);
            },
            Key::Backspace => {
                self.delete_before_cursor();
                if self.input.len() == 0 {
                    self.menu = false;
                }
            },
            Key::Delete => {
                if self.cursor < self.input.len() {
                    let cur = self.cursor;
                    let mut v = self.take_input();
                    v.remove(cur);
                    self.put_input(v, cur);
                }
            },
            Key::Left => {
                if self.cursor > 0 {
                    self.cursor = self.cursor - 1;
                }
            },
            Key::Right => {
                if self.cursor < self.input.len() {
                    self.cursor = self.cursor + 1;
                }
            },
            Key::Home => {
                self.cursor = 0;
            },
            Key::End => {
                self.cursor = self.input.len();
            },
            Key::Enter => {
                return self.enter_key();
            },
            Key::Tab => {
                self.menu = !self.menu;
                self.menu_idx = 0;
            },
            Key::Esc => {
                self.menu = false;
                self.model_popup = false;
            },
            Key::Other => {},
        }
        KeyOutcome { action: Action::Continue, cmd: None, approval: None }
    }
}

/// Handles one key press: updates the TUI state and says what the TUI loop
/// does next, which command goes to the agent and which text goes to the
/// approval channel.
pub fn handle_key(key: KeyPress, app: &mut App) -> (out: KeyOutcome)
    ensures
        final(app)@.wf(),
        final(app)@ == key_step(old(app)@, key).0,
        out@ == key_step(old(app)@, key).1,
        slash_enter(old(app)@, key) ==> out.approval is None,
{
    proof {
        use_type_invariant(&*app);
    }
    if key.ctrl {
        if let Key::Char('c') = key.code {
            return KeyOutcome { action: Action::Quit, cmd: None, approval: None };
        }
    }
    if app.model_popup {
        return app.popup_key(key.code);
    }
    if app.menu {
        app.menu_key(key.code);
        return KeyOutcome { action: Action::Continue, cmd: None, approval: None };
    }
    app.normal_key(key)
}


/// The prefix of the session's answer to a model switch.
pub open spec fn switched_prefix() -> Seq<char> {
    "Switched to model: "@
}

/// A response from the session arrives: it is shown as the assistant's,
/// the view scrolls to the bottom, the turn ends, and an answer to a model
/// switch names the new model.
pub open spec fn response_step(a: AppView, r: Seq<char>) -> AppView {
    AppView {
        msgs: a.msgs.push(("ai"@, r)),
        model_name: if switched_prefix().is_prefix_of(r) {
            r.skip(switched_prefix().len() as int)
        } else {
            a.model_name
        },
        scroll_offset: 0,
        thinking: false,
        ..a
    }
}

/// A message is sent: it is shown as the user's, the view scrolls to the
/// bottom and a turn starts.
pub open spec fn sent_step(a: AppView, m: Seq<char>) -> AppView {
    AppView { msgs: a.msgs.push(("you"@, m)), scroll_offset: 0, thinking: true, ..a }
}

impl App {
    /// Takes in a response from the session.
    pub fn apply_response(&mut self, response: String)
        ensures
            final(self)@ == response_step(old(self)@, response@),
            final(self)@.wf(),
    {
        proof {
            use_type_invariant(&*self);
        }
        let prefix = "Switched to model: ";
        let n = response.unicode_len();
        let p = prefix.unicode_len();
        if str_starts_with(response.as_str(), prefix) {
            let rest = response.substring_char(p, n);
            self.model_name = owned(rest);
        }
        self.push_msg("ai", response);
        self.scroll_offset = 0;
        self.thinking = false;
    }

    /// Records a message that the user sent.
    pub fn record_sent(&mut self, msg: String)
        ensures
            final(self)@ == sent_step(old(self)@, msg@),
            final(self)@.wf(),
    {
        proof {
            use_type_invariant(&*self);
        }
        self.push_msg("you", msg);
        self.scroll_offset = 0;
        self.thinking = true;
    }
}

/// The colours that the TUI's text uses.
#[derive(Debug, Clone, Copy, PartialEq, Eq)]
pub enum TermColor {
    Green,
    Yellow,
    Cyan,
    Gray,
    DarkGray,
    White,
    Black,
    /// The TUI's own cyan, `Rgb(0, 200, 200)`.
    Accent,
}

/// The SGR code that `ansi_str` uses for a colour.
pub open spec fn ansi_code(color: TermColor) -> Seq<char> {
    match color {
        TermColor::Green => "32"@,
        TermColor::Yellow => "33"@,
        TermColor::Cyan => "36"@,
        TermColor::Gray | TermColor::DarkGray => "90"@,
        TermColor::White => "97"@,
        _ => "0"@,
    }
}

/// `s` wrapped in the ANSI escape for `color` and a reset.
pub open spec fn ansi(s: Seq<char>, color: TermColor) -> Seq<char> {
    "\x1b["@ + ansi_code(color) + "m"@ + s + "\x1b[0m"@
}

/// `s` wrapped in the ANSI escape for `color` and a reset.
pub fn ansi_str(s: &str, color: TermColor) -> (res: String)
    ensures
        res@ == ansi(s@, color),
{
    let code = match color {
        TermColor::Green => "32",
        TermColor::Yellow => "33",
        TermColor::Cyan => "36",
        TermColor::Gray | TermColor::DarkGray => "90",
        TermColor::White => "97",
        _ => "0",
    };
    let mut r = owned("\x1b[");
    r.append(code);
    r.append("m");
    r.append(s);
    r.append("\x1b[0m");
    r
}

/// The tag that a message's first line starts with.
pub open spec fn sender_tag(sender: Seq<char>) -> Seq<char> {
    if sender == "you"@ {
        ansi("you"@, TermColor::Accent)
    } else if sender == "ai"@ || sender == "assistant"@ {
        ansi("ai"@, TermColor::Green)
    } else if sender == "system"@ {
        ansi("sys"@, TermColor::Gray)
    } else {
        ansi(sender, TermColor::Gray)
    }
}

/// The screen lines of one message: its first line after the tag, the
/// others indented.
pub open spec fn msg_lines(m: (Seq<char>, Seq<char>)) -> Seq<Seq<char>> {
    let pieces = split_nl(m.1);
    Seq::new(
        pieces.len(),
        |i: int|
            if i == 0 {
                " "@ + sender_tag(m.0) + " "@ + pieces[0]
            } else {
                "   "@ + pieces[i]
            },
    )
}

/// The screen lines of the conversation.
pub open spec fn all_msg_lines(msgs: Seq<(Seq<char>, Seq<char>)>) -> Seq<Seq<char>>
    decreases msgs.len(),
{
    if msgs.len() == 0 {
        Seq::empty()
    } else {
        all_msg_lines(msgs.drop_last()) + msg_lines(msgs.last())
    }
}

fn tag_of(sender: &str) -> (res: String)
    ensures
        res@ == sender_tag(sender@),
{
    if str_eq(sender, "you") {
        ansi_str("you", TermColor::Accent)
    } else if str_eq(sender, "ai") || str_eq(sender, "assistant") {
        ansi_str("ai", TermColor::Green)
    } else if str_eq(sender, "system") {
        ansi_str("sys", TermColor::Gray)
    } else {
        ansi_str(sender, TermColor::Gray)
    }
}

fn lines_of_msg(m: &ChatMsg, out: &mut Vec<String>)
    ensures
        views(final(out)@) == views(old(out)@) + msg_lines(m@),
{
    let tag = tag_of(m.sender.as_str());
    let pieces = split_lines(m.content.as_str());
    let ghost target = msg_lines(m@);
    let ghost start = views(out@);
    let n = pieces.len();
    let mut i: usize = 0;
    while i < n
        invariant
            n == pieces@.len(),
            views(pieces@) == split_nl(m.content@),
            target == msg_lines(m@),
            tag@ == sender_tag(m.sender@),
            start == views(old(out)@),
            i <= n,
            views(out@) == start + target.take(i as int),
        decreases n - i,
    {
        let line = if i == 0 {
            let mut l = owned(" ");
            l.append(tag.as_str());
            l.append(" ");
            l.append(pieces[0].as_str());
            l
        } else {
            concat2("   ", pieces[i].as_str())
        };
        assert(line@ == target[i as int]);
        let ghost before = views(out@);
        let ghost l = line@;
        out.push(line);
        assert(views(out@) =~= before.push(l));
        assert(target.take(i + 1) =~= target.take(i as int).push(target[i as int]));
        i = i + 1;
    }
    assert(target.take(n as int) =~= target);
}

impl App {
    /// The lines that the conversation pane shows, oldest first.
    pub fn msgs_to_lines(&self) -> (res: Vec<String>)
        ensures
            views(res@) == all_msg_lines(self@.msgs),
    {
        let mut out: Vec<String> = Vec::new();
        let n = self.msgs.len();
        let mut i: usize = 0;
        while i < n
            invariant
                n == self.msgs@.len(),
                i <= n,
                views(out@) == all_msg_lines(msg_views(self.msgs@).take(i as int)),
            decreases n - i,
        {
            let ghost all = msg_views(self.msgs@);
            assert(all.take(i + 1).drop_last() =~= all.take(i as int));
            lines_of_msg(&self.msgs[i], &mut out);
            i = i + 1;
        }
        assert(msg_views(self.msgs@).take(n as int) =~= msg_views(self.msgs@));
        out
    }
}


/// The part of the conversation's lines that the pane shows: `total`
/// lines, `visible` rows, scrolled up by `scroll` lines (at most to the
/// top). Gives `(start, end)`.
pub open spec fn visible_window(total: nat, visible: nat, scroll: nat) -> (nat, nat) {
    let max_offset = sat_sub(total, visible);
    let offset = if scroll <= max_offset {
        scroll
    } else {
        max_offset
    };
    let start = sat_sub(total, visible + offset);
    let end = if start + visible <= total {
        start + visible
    } else {
        total
    };
    (start, end)
}

/// The range of conversation lines that a pane of `visible` rows shows.
pub fn visible_range(total: usize, visible: usize, scroll: usize) -> (r: (usize, usize))
    requires
        total + visible <= usize::MAX,
    ensures
        (r.0 as nat, r.1 as nat) == visible_window(total as nat, visible as nat, scroll as nat),
        r.0 <= r.1 <= total,
        r.1 - r.0 <= visible,
{
    let max_offset = total.saturating_sub(visible);
    let offset = if scroll <= max_offset {
        scroll
    } else {
        max_offset
    };
    let start = total.saturating_sub(visible + offset);
    let end = if start + visible <= total {
        start + visible
    } else {
        total
    };
    (start, end)
}

/// The status bar under the conversation.
pub open spec fn status_text(model_name: Seq<char>) -> Seq<char> {
    " "@ + ansi("\u{25cf}"@, TermColor::Green) + "  Model: "@ + model_name
        + "  |  Ctrl+C to quit  |  /  for menu "@
}

/// The text of the input box and its colour.
pub open spec fn input_text(a: AppView) -> (Seq<char>, TermColor) {
    if a.model_popup {
        (" Select a model...  (\u{2191}\u{2193} navigate, Enter select, Esc cancel)"@, TermColor::Yellow)
    } else if a.thinking {
        (" "@ + a.input + " \u{25d0} thinking..."@, TermColor::Yellow)
    } else if a.input.len() == 0 && a.msgs.len() == 0 {
        (" Type a message or  /  for commands"@, TermColor::DarkGray)
    } else {
        (" "@ + a.input, TermColor::White)
    }
}

/// The entries of the command menu, each with whether it is the selected one.
pub open spec fn menu_entries(a: AppView) -> Seq<(Seq<char>, bool)> {
    let f = filtered(a.input);
    Seq::new(f.len(), |i: int| (help_line(f[i]), i == a.menu_idx))
}

/// The entries of the model picker, each with whether it is the selected one.
pub open spec fn model_entries(a: AppView) -> Seq<(Seq<char>, bool)> {
    Seq::new(a.models.len(), |i: int| (a.models[i], i == a.model_idx))
}

/// The views of a sequence of `(text, selected)` entries.
pub open spec fn entry_views(v: Seq<(String, bool)>) -> Seq<(Seq<char>, bool)> {
    v.map_values(|e: (String, bool)| (e.0@, e.1))
}

impl App {
    /// The status bar text.
    pub fn status_line(&self) -> (res: String)
        ensures
            res@ == status_text(self@.model_name),
    {
        let mut r = owned(" ");
        let dot = ansi_str("\u{25cf}", TermColor::Green);
        r.append(dot.as_str());
        r.append("  Model: ");
        r.append(self.model_name.as_str());
        r.append("  |  Ctrl+C to quit  |  /  for menu ");
        r
    }

    /// The text of the input box and its colour.
    pub fn input_line(&self) -> (res: (String, TermColor))
        ensures
            (res.0@, res.1) == input_text(self@),
    {
        if self.model_popup {
            (
                owned(" Select a model...  (\u{2191}\u{2193} navigate, Enter select, Esc cancel)"),
                TermColor::Yellow,
            )
        } else if self.thinking {
            let typed = string_of(&self.input);
            (concat3(" ", typed.as_str(), " \u{25d0} thinking..."), TermColor::Yellow)
        } else if self.input.len() == 0 && self.msgs.len() == 0 {
            (owned(" Type a message or  /  for commands"), TermColor::DarkGray)
        } else {
            let typed = string_of(&self.input);
            (concat2(" ", typed.as_str()), TermColor::White)
        }
    }

    /// Whether the terminal cursor is shown in the input box.
    pub fn cursor_visible(&self) -> (res: bool)
        ensures
            res == (!self@.menu && !self@.model_popup),
    {
        !self.menu && !self.model_popup
    }

    /// The number of bytes of input before the cursor (saturating at
    /// `usize::MAX`, which no input held in memory reaches).
    pub fn cursor_byte_offset(&self) -> (res: usize)
        ensures
            res as nat == sat_add(utf8_width(self@.input.take(self@.cursor as int)), 0),
    {
        proof {
            use_type_invariant(self);
        }
        let mut total: usize = 0;
        let mut i: usize = 0;
        while i < self.cursor
            invariant
                self@.wf(),
                i <= self.cursor,
                total as nat == sat_add(utf8_width(self@.input.take(i as int)), 0),
            decreases self.cursor - i,
        {
            let c = self.input[i];
            let w: usize = if (c as u32) < 0x80 {
                1
            } else if (c as u32) < 0x800 {
                2
            } else if (c as u32) < 0x10000 {
                3
            } else {
                4
            };
            proof {
                let s = self@.input;
                assert(s.take(i + 1).drop_last() =~= s.take(i as int));
                assert(w as nat == utf8_len(s[i as int]));
            }
            total = total.saturating_add(w);
            i = i + 1;
        }
        total
    }

    /// The entries of the command menu.
    pub fn menu_items(&self) -> (res: Vec<(String, bool)>)
        ensures
            entry_views(res@) == menu_entries(self@),
    {
        let typed = string_of(&self.input);
        let f = filtered_cmds(typed.as_str());
        let ghost fv = pair_views(f@);
        let mut res: Vec<(String, bool)> = Vec::new();
        let n = f.len();
        let mut i: usize = 0;
        while i < n
            invariant
                n == f@.len(),
                fv == pair_views(f@),
                fv == filtered(self@.input),
                i <= n,
                entry_views(res@) == menu_entries(self@).take(i as int),
            decreases n - i,
        {
            let (name, desc) = f[i];
            let mut line = String::new();
            push_char(&mut line, '/');
            let padded = pad_right_str(name, 12);
            line.append(padded.as_str());
            push_char(&mut line, ' ');
            line.append(desc);
            assert(fv[i as int] == (name@, desc@));
            assert(line@ == help_line(fv[i as int]));
            let ghost before = entry_views(res@);
            let ghost e = (line@, i == self.menu_idx);
            res.push((line, i == self.menu_idx));
            assert(entry_views(res@) =~= before.push(e));
            assert(menu_entries(self@)[i as int] == e);
            assert(menu_entries(self@).take(i + 1) =~= menu_entries(self@).take(i as int).push(e));
            i = i + 1;
        }
        assert(menu_entries(self@).take(n as int) =~= menu_entries(self@));
        res
    }

    /// The entries of the model picker.
    pub fn model_items(&self) -> (res: Vec<(String, bool)>)
        ensures
            entry_views(res@) == model_entries(self@),
    {
        let mut res: Vec<(String, bool)> = Vec::new();
        let n = self.models.len();
        let mut i: usize = 0;
        while i < n
            invariant
                n == self.models@.len(),
                i <= n,
                entry_views(res@) == model_entries(self@).take(i as int),
            decreases n - i,
        {
            let ghost before = entry_views(res@);
            let m = self.models[i].clone();
            let ghost e = (m@, i == self.model_idx);
            res.push((m, i == self.model_idx));
            assert(entry_views(res@) =~= before.push(e));
            assert(model_entries(self@).take(i + 1) =~= model_entries(self@).take(i as int).push(e));
            i = i + 1;
        }
        assert(model_entries(self@).take(n as int) =~= model_entries(self@));
        res
    }
}

/// A rectangle of terminal cells.
#[derive(Debug, Clone, Copy, PartialEq, Eq)]
pub struct Area {
    pub x: u16,
    pub y: u16,
    pub width: u16,
    pub height: u16,
}

/// Where a popup of at most `max_width` columns and `items` rows of
/// content (plus its border) stands inside `area`: centred, two rows down,
/// kept two cells clear of each side.
pub open spec fn popup_area(area: Area, max_width: nat, items: nat) -> Area {
    let room_w = sat_sub(area.width as nat, 4);
    let room_h = sat_sub(area.height as nat, 4);
    let w = if max_width <= room_w {
        max_width
    } else {
        room_w
    };
    let h = if items + 2 <= room_h {
        items + 2
    } else {
        room_h
    };
    Area {
        x: (area.x + (area.width - w) / 2) as u16,
        y: (area.y + 2) as u16,
        width: w as u16,
        height: h as u16,
    }
}

/// The rectangle of a popup inside `area`.
pub fn popup_rect(area: Area, max_width: u16, items: usize) -> (r: Area)
    requires
        items + 2 <= u16::MAX,
        area.x + area.width <= u16::MAX,
        area.y + 2 <= u16::MAX,
    ensures
        r == popup_area(area, max_width as nat, items as nat),
{
    let room_w = area.width.saturating_sub(4);
    let room_h = area.height.saturating_sub(4);
    let w = if max_width <= room_w {
        max_width
    } else {
        room_w
    };
    let rows = items as u16 + 2;
    let h = if rows <= room_h {
        rows
    } else {
        room_h
    };
    Area { x: area.x + (area.width - w) / 2, y: area.y + 2, width: w, height: h }
}

/// The column of the terminal cursor: after the box's left border and
/// space, moved right by the input's bytes before the cursor (counted
/// modulo 65536, as a cast to `u16` counts them), and kept left of the
/// box's right edge.
pub open spec fn cursor_col(inner_x: nat, area_right: nat, bytes: nat) -> nat {
    let cx = inner_x + 1 + bytes % 65536;
    let limit = sat_sub(area_right, 1);
    if cx <= limit {
        cx
    } else {
        limit
    }
}

/// The column of the terminal cursor in the input box.
pub fn cursor_column(inner_x: u16, area_right: u16, bytes: usize) -> (col: u16)
    requires
        inner_x + 1 + bytes % 65536 <= u16::MAX,
    ensures
        col as nat == cursor_col(inner_x as nat, area_right as nat, bytes as nat),
{
    let b = (bytes % 65536) as u16;
    let cx = inner_x + 1 + b;
    let limit = area_right.saturating_sub(1);
    if cx <= limit {
        cx
    } else {
        limit
    }
}


/// Typing a character and then pressing Backspace leaves the input and the
/// cursor as they were, outside the model picker (and except for `/` in
/// the open menu, which closes the menu instead of being typed).
pub proof fn lemma_type_then_backspace(a: AppView, c: char)
    requires
        a.wf(),
        a.has_room(),
        !a.model_popup,
        !(a.menu && c == '/'),
    ensures
        ({
            let typed = key_step(a, KeyPress { code: Key::Char(c), ctrl: false }).0;
            let back = key_step(typed, KeyPress { code: Key::Backspace, ctrl: false }).0;
            back.input == a.input && back.cursor == a.cursor
        }),
{
    assert(!is_quit_key(KeyPress { code: Key::Char(c), ctrl: false }));
    assert(!is_quit_key(KeyPress { code: Key::Backspace, ctrl: false }));
    let typed = key_step(a, KeyPress { code: Key::Char(c), ctrl: false }).0;
    if !a.menu && c == '/' && a.input.len() == 0 {
        assert(typed.menu && typed.input.len() == 0 && typed.cursor == 0);
    } else {
        assert(typed.input == a.input.insert(a.cursor as int, c));
        assert(typed.cursor == a.cursor + 1);
        assert(typed.input.remove(a.cursor as int) =~= a.input);
    }
}

/// Moving the cursor left and then right puts it back, where it can move
/// left (outside the menu and the picker).
pub proof fn lemma_left_then_right(a: AppView)
    requires
        a.wf(),
        !a.model_popup,
        !a.menu,
        a.cursor > 0,
    ensures
        key_step(
            key_step(a, KeyPress { code: Key::Left, ctrl: false }).0,
            KeyPress { code: Key::Right, ctrl: false },
        ).0 == a,
{
    let l = key_step(a, KeyPress { code: Key::Left, ctrl: false }).0;
    assert(l == AppView { cursor: (a.cursor - 1) as nat, ..a });
    let r = key_step(l, KeyPress { code: Key::Right, ctrl: false }).0;
    assert(r == AppView { cursor: a.cursor, ..a });
}

/// Every key press keeps the state well formed: the cursor stays within
/// the input and the picked model within the model list.
pub proof fn lemma_key_step_wf(a: AppView, k: KeyPress)
    requires
        a.wf(),
    ensures
        key_step(a, k).0.wf(),
{
}

/// Enter outside the menu and the picker always empties the input line
/// and puts the cursor at its start.
pub proof fn lemma_enter_clears_input(a: AppView)
    requires
        !a.model_popup,
        !a.menu,
    ensures
        key_step(a, KeyPress { code: Key::Enter, ctrl: false }).0.input.len() == 0,
        key_step(a, KeyPress { code: Key::Enter, ctrl: false }).0.cursor == 0,
{
}

/// Sending a message never hands its text to the agent as a command, and
/// what is sent is the trimmed input, which does not start with `/`.
pub proof fn lemma_sent_text_is_trimmed_input(a: AppView, k: KeyPress)
    requires
        key_step(a, k).1.action is Send,
    ensures
        key_step(a, k).1.action == ActionView::Send(trim(a.input)),
        key_step(a, k).1.cmd is None,
        trim(a.input).len() > 0,
        trim(a.input)[0] != '/',
{
}

/// The session's answer to a model switch makes the TUI show that model.
pub proof fn lemma_switch_answer_names_model(a: AppView, name: Seq<char>)
    ensures
        response_step(a, switched_prefix() + name).model_name == name,
        response_step(a, switched_prefix() + name).thinking == false,
{
    let r = switched_prefix() + name;
    assert(switched_prefix().is_prefix_of(r)) by {
        assert(r.subrange(0, switched_prefix().len() as int) =~= switched_prefix());
    }
    assert(r.skip(switched_prefix().len() as int) =~= name);
}

proof fn lemma_filter_from<A>(s: Seq<A>, pred: spec_fn(A) -> bool, i: int)
    requires
        0 <= i < s.filter(pred).len(),
    ensures
        s.contains(s.filter(pred)[i]),
    decreases s.len(),
{
    reveal(Seq::filter);
    if s.len() > 0 {
        let sub = s.drop_last().filter(pred);
        if i < sub.len() {
            lemma_filter_from(s.drop_last(), pred, i);
            assert(s.filter(pred)[i] == sub[i]);
            let j = choose|j: int| 0 <= j < s.drop_last().len() && s.drop_last()[j] == sub[i];
            assert(s[j] == sub[i]);
        } else {
            assert(s.filter(pred)[i] == s.last());
            assert(s[s.len() - 1] == s.last());
        }
    }
}

/// Every command that the menu shows is one of the menu's commands, and
/// with a filter typed, its name starts with the lowercased filter.
pub proof fn lemma_filtered_entries(input: Seq<char>, i: int)
    requires
        0 <= i < filtered(input).len(),
    ensures
        cmd_table().contains(filtered(input)[i]),
        menu_prefix(input).len() > 0 ==> lowercase(menu_prefix(input)).is_prefix_of(
            filtered(input)[i].0,
        ),
{
    broadcast use vstd::seq_lib::group_filter_ensures;

    if menu_prefix(input).len() > 0 {
        let pred = |e: (Seq<char>, Seq<char>)| lowercase(menu_prefix(input)).is_prefix_of(e.0);
        assert(filtered(input) == cmd_table().filter(pred));
        assert(pred(filtered(input)[i]));
        lemma_filter_from(cmd_table(), pred, i);
    } else {
        assert(cmd_table()[i] == filtered(input)[i]);
    }
}

/// Surrounding whitespace never changes whether a line answers an approval.
pub proof fn lemma_approval_reply_ignores_padding(text: Seq<char>)
    ensures
        is_reply_word(lowercase(trim(trim(text)))) == is_reply_word(lowercase(trim(text))),
{
    lemma_trim_idempotent(text);
}


/// The state after the responses `rs` arrive, in order.
pub open spec fn responses_step(a: AppView, rs: Seq<Seq<char>>) -> AppView
    decreases rs.len(),
{
    if rs.len() == 0 {
        a
    } else {
        response_step(responses_step(a, rs.drop_last()), rs.last())
    }
}

/// The model named by the last of `rs` that answers a model switch, or
/// `start` where none does.
pub open spec fn shown_model(start: Seq<char>, rs: Seq<Seq<char>>) -> Seq<char>
    decreases rs.len(),
{
    if rs.len() == 0 {
        start
    } else if switched_prefix().is_prefix_of(rs.last()) {
        rs.last().skip(switched_prefix().len() as int)
    } else {
        shown_model(start, rs.drop_last())
    }
}

/// Responses arriving one after another: each is added to the
/// conversation as the assistant's, in order; after any of them the turn
/// is over and the view is at the bottom; the status bar names the model
/// of the last answer to a model switch (or the one shown before); and the
/// input line, the menu and the picker are left as they were.
pub proof fn lemma_responses(a: AppView, rs: Seq<Seq<char>>)
    requires
        a.wf(),
    ensures
        responses_step(a, rs).wf(),
        responses_step(a, rs).msgs == a.msgs + rs.map_values(|r: Seq<char>| ("ai"@, r)),
        responses_step(a, rs).model_name == shown_model(a.model_name, rs),
        status_text(responses_step(a, rs).model_name) == status_text(shown_model(a.model_name, rs)),
        rs.len() > 0 ==> !responses_step(a, rs).thinking && responses_step(a, rs).scroll_offset == 0,
        responses_step(a, rs).input == a.input,
        responses_step(a, rs).cursor == a.cursor,
        responses_step(a, rs).menu == a.menu,
        responses_step(a, rs).model_popup == a.model_popup,
    decreases rs.len(),
{
    if rs.len() > 0 {
        lemma_responses(a, rs.drop_last());
        let f = |r: Seq<char>| ("ai"@, r);
        assert(rs.map_values(f) =~= rs.drop_last().map_values(f).push(f(rs.last())));
        assert(a.msgs + rs.map_values(f) =~= (a.msgs + rs.drop_last().map_values(f)).push(f(rs.last())));
    } else {
        assert(a.msgs + rs.map_values(|r: Seq<char>| ("ai"@, r)) =~= a.msgs);
    }
}


/// A key press never changes the model list or the model that the status
/// bar names.
pub proof fn lemma_key_step_keeps_model(a: AppView, k: KeyPress)
    ensures
        key_step(a, k).0.model_name == a.model_name,
        key_step(a, k).0.models == a.models,
{
}

/// What reaches the TUI loop: a key press or a response from the session.
pub enum TuiEvent {
    Press(KeyPress),
    Response(Seq<char>),
}

/// The state after the events `es`, in order.
pub open spec fn run_events(a: AppView, es: Seq<TuiEvent>) -> AppView
    decreases es.len(),
{
    if es.len() == 0 {
        a
    } else {
        let b = run_events(a, es.drop_last());
        match es.last() {
            TuiEvent::Press(k) => key_step(b, k).0,
            TuiEvent::Response(r) => response_step(b, r),
        }
    }
}

/// The responses among the events `es`, in order.
pub open spec fn event_responses(es: Seq<TuiEvent>) -> Seq<Seq<char>>
    decreases es.len(),
{
    if es.len() == 0 {
        Seq::empty()
    } else {
        let r = event_responses(es.drop_last());
        match es.last() {
            TuiEvent::Press(_) => r,
            TuiEvent::Response(x) => r.push(x),
        }
    }
}

/// Key presses and responses in any interleaving keep the state well
/// formed and the model list as it was, and the status bar names the model
/// of the last answer to a model switch among the responses (or the one
/// shown at the start).
pub proof fn lemma_events_show_last_switch(a: AppView, es: Seq<TuiEvent>)
    requires
        a.wf(),
    ensures
        run_events(a, es).wf(),
        run_events(a, es).models == a.models,
        run_events(a, es).model_name == shown_model(a.model_name, event_responses(es)),
        status_text(run_events(a, es).model_name) == status_text(
            shown_model(a.model_name, event_responses(es)),
        ),
    decreases es.len(),
{
    if es.len() > 0 {
        lemma_events_show_last_switch(a, es.drop_last());
        let b = run_events(a, es.drop_last());
        let rs = event_responses(es.drop_last());
        match es.last() {
            TuiEvent::Press(k) => {
                lemma_key_step_wf(b, k);
                lemma_key_step_keeps_model(b, k);
            },
            TuiEvent::Response(x) => {
                assert(rs.push(x).drop_last() =~= rs);
            },
        }
    }
}


/// A key press without Control.
pub open spec fn plain(code: Key) -> KeyPress {
    KeyPress { code, ctrl: false }
}

/// Outside the menu and the picker, PageDown scrolls the conversation down
/// by a page of 10 lines (stopping at the bottom) and PageUp up by 10;
/// neither touches anything else or hands anything out, and PageUp then
/// PageDown comes back to where it was.
pub proof fn lemma_page_keys_scroll(a: AppView)
    requires
        !a.model_popup,
        !a.menu,
        a.scroll_offset <= usize::MAX,
    ensures
        key_step(a, plain(Key::PageDown)).0.scroll_offset == (if a.scroll_offset >= 10 {
            a.scroll_offset - 10
        } else {
            0
        }),
        key_step(a, plain(Key::PageUp)).0.scroll_offset == (if a.scroll_offset + 10 <= usize::MAX {
            a.scroll_offset + 10
        } else {
            usize::MAX as nat
        }),
        key_step(a, plain(Key::PageDown)).0 == (AppView {
            scroll_offset: key_step(a, plain(Key::PageDown)).0.scroll_offset,
            ..a
        }),
        key_step(a, plain(Key::PageUp)).0 == (AppView {
            scroll_offset: key_step(a, plain(Key::PageUp)).0.scroll_offset,
            ..a
        }),
        key_step(a, plain(Key::PageDown)).1.cmd is None,
        key_step(a, plain(Key::PageDown)).1.approval is None,
        key_step(a, plain(Key::PageDown)).1.action == ActionView::Continue,
        key_step(a, plain(Key::PageUp)).1.cmd is None,
        key_step(a, plain(Key::PageUp)).1.action == ActionView::Continue,
        a.scroll_offset + 10 <= usize::MAX ==> key_step(
            key_step(a, plain(Key::PageUp)).0,
            plain(Key::PageDown),
        ).0 == a,
{
}

/// Outside the menu and the picker, with nothing typed, Up scrolls the
/// conversation up one line and Down down one line (stopping at the
/// bottom); with text typed, neither changes anything.
pub proof fn lemma_arrow_keys_scroll(a: AppView)
    requires
        !a.model_popup,
        !a.menu,
        a.scroll_offset <= usize::MAX,
    ensures
        a.input.len() == 0 ==> key_step(a, plain(Key::Down)).0 == (AppView {
            scroll_offset: if a.scroll_offset >= 1 {
                (a.scroll_offset - 1) as nat
            } else {
                0
            },
            ..a
        }),
        a.input.len() == 0 && a.scroll_offset < usize::MAX ==> key_step(a, plain(Key::Up)).0 == (
        AppView { scroll_offset: a.scroll_offset + 1, ..a }),
        a.input.len() > 0 ==> key_step(a, plain(Key::Up)).0 == a && key_step(a, plain(Key::Down)).0
            == a,
        key_step(a, plain(Key::Up)).1.cmd is None,
        key_step(a, plain(Key::Down)).1.cmd is None,
{
}

/// The line editing keys outside the menu and the picker: Backspace
/// deletes the character before the cursor, Delete the one under it, Left
/// and Right move by one character within the line, Home and End go to its
/// ends, and typing puts the character at the cursor and moves past it.
/// None of them hands anything out or touches the conversation.
pub proof fn lemma_editing_keys(a: AppView, c: char)
    requires
        a.wf(),
        !a.model_popup,
        !a.menu,
    ensures
        a.cursor > 0 ==> key_step(a, plain(Key::Backspace)).0.input == a.input.subrange(
            0,
            a.cursor - 1,
        ) + a.input.subrange(a.cursor as int, a.input.len() as int)
            && key_step(a, plain(Key::Backspace)).0.cursor == a.cursor - 1,
        a.cursor == 0 ==> key_step(a, plain(Key::Backspace)).0.input == a.input
            && key_step(a, plain(Key::Backspace)).0.cursor == 0,
        a.cursor < a.input.len() ==> key_step(a, plain(Key::Delete)).0.input == a.input.subrange(
            0,
            a.cursor as int,
        ) + a.input.subrange(a.cursor + 1int, a.input.len() as int)
            && key_step(a, plain(Key::Delete)).0.cursor == a.cursor,
        a.cursor == a.input.len() ==> key_step(a, plain(Key::Delete)).0 == a,
        key_step(a, plain(Key::Left)).0 == (AppView {
            cursor: if a.cursor > 0 {
                (a.cursor - 1) as nat
            } else {
                0
            },
            ..a
        }),
        key_step(a, plain(Key::Right)).0 == (AppView {
            cursor: if a.cursor < a.input.len() {
                a.cursor + 1
            } else {
                a.cursor
            },
            ..a
        }),
        key_step(a, plain(Key::Home)).0 == (AppView { cursor: 0, ..a }),
        key_step(a, plain(Key::End)).0 == (AppView { cursor: a.input.len(), ..a }),
        a.has_room() && !(c == '/' && a.input.len() == 0) ==> key_step(a, plain(Key::Char(c))).0.input
            == a.input.subrange(0, a.cursor as int) + seq![c] + a.input.subrange(
            a.cursor as int,
            a.input.len() as int,
        ) && key_step(a, plain(Key::Char(c))).0.cursor == a.cursor + 1,
        c == '/' && a.input.len() == 0 ==> key_step(a, plain(Key::Char(c))).0 == (AppView {
            menu: true,
            menu_idx: 0,
            ..a
        }),
        key_step(a, plain(Key::Backspace)).0.msgs == a.msgs,
        key_step(a, plain(Key::Delete)).0.msgs == a.msgs,
        key_step(a, plain(Key::Char(c))).0.msgs == a.msgs,
        key_step(a, plain(Key::Char(c))).1.cmd is None,
        key_step(a, plain(Key::Char(c))).1.approval is None,
        key_step(a, plain(Key::Backspace)).1.cmd is None,
        key_step(a, plain(Key::Delete)).1.cmd is None,
{
    let b = key_step(a, plain(Key::Backspace)).0;
    if a.cursor > 0 {
        assert(b.input =~= a.input.subrange(0, a.cursor - 1) + a.input.subrange(
            a.cursor as int,
            a.input.len() as int,
        ));
    }
    let d = key_step(a, plain(Key::Delete)).0;
    if a.cursor < a.input.len() {
        assert(d.input =~= a.input.subrange(0, a.cursor as int) + a.input.subrange(
            a.cursor + 1int,
            a.input.len() as int,
        ));
    }
    let t = key_step(a, plain(Key::Char(c))).0;
    if a.has_room() && !(c == '/' && a.input.len() == 0) {
        assert(t.input =~= a.input.subrange(0, a.cursor as int) + seq![c] + a.input.subrange(
            a.cursor as int,
            a.input.len() as int,
        ));
    }
}

/// Only Enter in the open model picker hands out a model switch, and it
/// switches to the highlighted model; every other key in the picker hands
/// nothing out, and Esc closes the picker without a switch.
pub proof fn lemma_model_switch_only_on_picker_enter(a: AppView, k: KeyPress)
    ensures
        key_step(a, k).1.cmd matches Some(AgentCmdView::SwitchModel(m)) ==> a.model_popup
            && k.code == Key::Enter && m == a.models[a.model_idx as int],
        a.model_popup && k.code != Key::Enter ==> key_step(a, k).1.cmd is None
            && key_step(a, k).1.approval is None,
        a.model_popup && k == plain(Key::Esc) ==> !key_step(a, k).0.model_popup
            && key_step(a, k).0.input == a.input && key_step(a, k).0.model_name == a.model_name,
        a.wf() && a.model_popup && k == plain(Key::Enter) ==> key_step(a, k).1.cmd == Some(
            AgentCmdView::SwitchModel(a.models[a.model_idx as int]),
        ) && !key_step(a, k).0.model_popup,
{
}

/// Every command of the menu whose name starts with the lowercased filter
/// (every command, where the filter is empty) is listed; in particular the
/// full name of a command lists that command.
pub proof fn lemma_filter_complete(input: Seq<char>, e: (Seq<char>, Seq<char>))
    requires
        cmd_table().contains(e),
        menu_prefix(input).len() == 0 || lowercase(menu_prefix(input)).is_prefix_of(e.0),
    ensures
        filtered(input).contains(e),
{
    broadcast use vstd::seq_lib::group_filter_ensures;

    let i = choose|i: int| 0 <= i < cmd_table().len() && cmd_table()[i] == e;
    if menu_prefix(input).len() > 0 {
        let pred = |x: (Seq<char>, Seq<char>)| lowercase(menu_prefix(input)).is_prefix_of(x.0);
        assert(pred(cmd_table()[i]));
        cmd_table().lemma_filter_contains(pred, i);
    } else {
        assert(filtered(input)[i] == e);
    }
}

/// Typing a command's full name in the menu lists that command.
pub proof fn lemma_full_name_listed(input: Seq<char>, e: (Seq<char>, Seq<char>))
    requires
        cmd_table().contains(e),
        lowercase(menu_prefix(input)) == e.0,
    ensures
        filtered(input).contains(e),
{
    assert(e.0.is_prefix_of(e.0)) by {
        assert(e.0.subrange(0, e.0.len() as int) =~= e.0);
    }
    lemma_filter_complete(input, e);
}

/// In the command menu: Up and Down move the highlight by one within the
/// listed commands, Tab and Esc close the menu, and no key there hands
/// anything out.
pub proof fn lemma_menu_keys(a: AppView, k: KeyPress)
    requires
        !a.model_popup,
        a.menu,
        !is_quit_key(k),
    ensures
        key_step(a, k).1.cmd is None,
        key_step(a, k).1.approval is None,
        key_step(a, k).1.action == ActionView::Continue,
        k.code == Key::Up ==> key_step(a, k).0 == (AppView {
            menu_idx: if a.menu_idx > 0 {
                (a.menu_idx - 1) as nat
            } else {
                0
            },
            ..a
        }),
        k.code == Key::Down && a.menu_idx + 1 < filtered(a.input).len() ==> key_step(a, k).0 == (
        AppView { menu_idx: a.menu_idx + 1, ..a }),
        k.code == Key::Down && filtered(a.input).len() > 0 ==> key_step(a, k).0.menu_idx < filtered(
            a.input,
        ).len(),
        k.code == Key::Tab || k.code == Key::Esc ==> !key_step(a, k).0.menu && key_step(a, k).0.input
            == a.input,
{
}


/// In the model picker, Down highlights the next model (staying on the
/// last) and Up the previous one (staying on the first).
pub proof fn lemma_picker_arrows(a: AppView)
    requires
        a.wf(),
        a.model_popup,
        a.models.len() <= usize::MAX,
    ensures
        key_step(a, plain(Key::Down)).0 == (AppView {
            model_idx: if a.model_idx + 1 < a.models.len() {
                a.model_idx + 1
            } else {
                a.model_idx
            },
            ..a
        }),
        key_step(a, plain(Key::Up)).0 == (AppView {
            model_idx: if a.model_idx > 0 {
                (a.model_idx - 1) as nat
            } else {
                0
            },
            ..a
        }),
{
}

/// Enter in the command menu puts the highlighted command into the input
/// line as `/name ` with the cursor at its end, and closes the menu; with
/// nothing highlighted it only closes the menu.
pub proof fn lemma_menu_enter_picks(a: AppView)
    requires
        !a.model_popup,
        a.menu,
    ensures
        a.menu_idx < filtered(a.input).len() ==> ({
            let name = filtered(a.input)[a.menu_idx as int].0;
            let b = key_step(a, plain(Key::Enter)).0;
            &&& b.input == seq!['/'] + name + seq![' ']
            &&& b.cursor == name.len() + 2
            &&& !b.menu
        }),
        a.menu_idx >= filtered(a.input).len() ==> key_step(a, plain(Key::Enter)).0 == (AppView {
            menu: false,
            menu_idx: 0,
            ..a
        }),
{
}

/// Outside the menu and the picker, Tab opens the menu (highlighting its
/// first entry) and Esc leaves it closed; neither touches the input.
pub proof fn lemma_tab_and_esc(a: AppView)
    requires
        !a.model_popup,
        !a.menu,
    ensures
        key_step(a, plain(Key::Tab)).0 == (AppView { menu: true, menu_idx: 0, ..a }),
        key_step(a, plain(Key::Esc)).0 == a,
        key_step(a, plain(Key::Tab)).1.cmd is None,
        key_step(a, plain(Key::Esc)).1.cmd is None,
{
}

/// The conversation pane: at the bottom it shows the last lines; scrolled
/// up by one more line (while not at the top) it shows the lines one
/// earlier; and it never shows more lines than fit or than there are.
pub proof fn lemma_visible_window(total: nat, visible: nat, scroll: nat)
    ensures
        visible_window(total, visible, 0).1 == total,
        visible_window(total, visible, 0).0 == (if total >= visible {
            total - visible
        } else {
            0
        }),
        scroll + visible < total ==> visible_window(total, visible, scroll + 1).0 + 1
            == visible_window(total, visible, scroll).0 && visible_window(total, visible, scroll + 1).1
            + 1 == visible_window(total, visible, scroll).1,
        visible_window(total, visible, scroll).1 - visible_window(total, visible, scroll).0 == (if total
            >= visible {
            visible
        } else {
            total
        }),
{
}

/// The answers to a pending approval are exactly `yes`, `y`, `approve`,
/// `allow`, `no`, `n`, `deny` and `reject`, after trimming and lowercasing.
pub proof fn lemma_reply_words(t: Seq<char>)
    ensures
        is_reply_word(t) <==> (t == "yes"@ || t == "y"@ || t == "approve"@ || t == "allow"@ || t
            == "no"@ || t == "n"@ || t == "deny"@ || t == "reject"@),
{
}

} // verus!
