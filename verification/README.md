# wire

The rules behind a chat between Codex agents and their operator over Mattermost, written and
verified in Verus.

- `src/` is the library. Everything that is decided stands here with its contract: who speaks under
  which name (`session`, `provision`, `token`), what is asked of Mattermost and what its answers mean
  (`request`, `answer`, `chat`, `directory`, `preference`), how a session is reached (`admission`,
  `record`, `delivery`, `relay`, `arrival`, `intake`, `frame`), how its identity is written (`forge`,
  `identity`), how it is handed on (`handoff`), and what callers may ask and are shown (`server`). Work
  that waits for the outside is a value that says what is to be done next.
- `tests/` runs the library on given values.
- `app/` is the program: sockets, HTTP, the keyring, the command line and the tool server. It does what
  the library asks for and hands the outcome back.

Properties that relate several functions are public proof functions whose names begin with `law_`.
Calls of other crates stand behind small functions marked `external_body`; what is believed of them is
written above each.
