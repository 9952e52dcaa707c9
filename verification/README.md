# goose

The working parts of the goose agent, with their behaviour stated and proved in Verus.

- `src/session.rs`, `src/message.rs`: a chat session, what each event does to its messages, and
  how they are kept in a file.
- `src/developer/`: the developer tools. Editing files with an undo history, the shell, and the
  screen.
- `src/memory/`: the memory tools. What is remembered, how it is written to the file of a
  category, how it is read back, and what each action does to the files.
- `src/oauth/`: logging in through the browser, step by step, and keeping the token.
- `src/logging.rs`, `src/config.rs`: where logs go and under which names files are kept.
- `src/text.rs`, `src/text_laws.rs`, `src/encoding.rs`, `src/json.rs`, `src/protocol.rs`: what
  the others are built on.
- `app/`: files, processes, the network, the screen and the terminal around the library. It does
  the reading and the writing and leaves the decisions to the library.

Laws that relate several functions are public proof functions whose names start with `law_`.
