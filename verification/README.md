# simple_chat

A small TCP chat program with a Slint window. The decisions of the program
are a Verus-verified library; the window, the sockets, the threads and the
settings file are ordinary Rust around it.

- `src/` — the verified library:
  - `text` — whitespace trimming as `str::trim` does it, joining, lossy
    UTF-8 decoding;
  - `validators` — the IP (IPv4, IPv6 or a local host name), port and
    username checks of the input pages;
  - `configuration_manager` — the saved settings and what a load or a save
    makes of them;
  - `core_executor` — what each command from the window saves and which
    network operation it asks for, and the event each outcome sends back;
  - `network` — what a socket read means, line framing, where a message
    goes, and which clients stay after a broadcast;
  - `ui_manager` — the window's state and how pages, error marks, mode
    buttons, the chat history and the start animation change.
- `tests/` — tests of the library on concrete values.
- `app/` — the program: window, executor thread with its tokio runtime,
  networking, JSON settings file, logging.
