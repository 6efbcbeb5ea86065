# cosmic-greeter

A greeter for greetd, a lock screen, and the privileged service behind the greeter, with their logic
verified by Verus.

- `src/` is the library: every decision of the three programs, from plain values to plain values,
  with contracts that Verus proves. The greeter (`greeter.rs`) and the lock screen (`locker.rs`) are
  state machines. A message goes in; the new state and a list of tasks come out.
- `tests/` runs the library on concrete values.
- `app/` is the desktop around it: windows, D-Bus, PAM, files and processes. It turns events into
  messages and carries the tasks out.

What the library believes of other crates without proof stands in its trusted functions, each with a
comment that names the outside function and says what is claimed of it: `blur.rs`, `config.rs`,
`daemon.rs`, `displays.rs`, `frost.rs`, `localize.rs`, `pam_worker.rs`, `session.rs` and `time.rs`.

Properties that span several functions are public proof functions whose names begin with `law_`.
