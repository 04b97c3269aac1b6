# openhuman_chat

The `openhuman chat` terminal front end, with its logic verified in Verus.

- `src/` is the verified library:
  - `tui.rs`: the chat TUI's state (`App`) and `handle_key`, the state
    machine of the input line, the command menu and the model picker, and
    the text that the TUI draws (message lines, status bar, input box,
    menu and picker entries, popup and cursor placement).
  - `chat_cli.rs`: what `openhuman chat` does with its arguments, the
    session's decisions (ending it, running a turn, answering an approval)
    and every message it sends to the TUI.
  - `transport.rs`: the thin entry point of the command.
  - `text.rs`: trimming, padding, joining and splitting of text, with their
    specifications.
- `app/` is the terminal and runtime side: crossterm and ratatui drawing,
  the tokio session loop, and the interface to the host program's agent
  services (`ChatBackend`).
- `tests/` runs the library on concrete inputs.
