# Omni-KVM, verified

Two computers, one keyboard and mouse: each computer runs a daemon that
captures its own input and, through a USB board and a radio link, sends it
to the other computer while the focus is there. This crate is the daemon's
logic, verified with Verus; `app/` is the program around it.

## Layout

- `src/focus.rs` – the focus state machine (views, modes, where each input
  goes) and, in `src/focus/laws.rs`, what holds of every transition.
- `src/hub.rs` – the machine and the queue of work for the board side,
  filled in the order the machine decides.
- `src/input.rs`, `src/hotkey.rs`, `src/keymap.rs`, `src/keymap_macos.rs` –
  naming keys and buttons, the hotkey, the HID usages and modifier flags.
- `src/input_windows.rs`, `src/input_macos.rs` – what the input capture of
  each system decides for every key, modifier, button, wheel and movement
  event.
- `src/protocol.rs`, `src/board.rs`, `src/peer.rs` – the packets exchanged
  with the board and the other daemon, and finding them in the byte stream.
- `src/daemon.rs`, `src/daemon/session.rs` – the board side: choosing the
  board, merging movement, the timers and what the board reports.
- `app/` – `main`, the serial port, the hooks and the event tap, the
  pointer, the log, and the floating-point screen arithmetic.
- `tests/` – the tests, including a model check of the focus design
  (`tests/check.rs`).
