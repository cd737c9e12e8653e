# rift-ergo

Helpers for the Rift window manager, with verified decision logic.

```sh
rift-ergo move-follow <workspace-name>
rift-ergo switch-workspace <workspace-name>
rift-ergo switch-workspace-both <workspace-name>
rift-ergo move-window-to-display <next|prev>
rift-ergo move-workspace-to-display <next|prev>
rift-ergo rehome [workspace-name]
```

## Layout

- `src/` is the library. It is written in Verus, and every function of it is verified.
- `tests/` runs the library, among other things against a simulated Rift.
- `app/` is the program: it connects to Rift, reads the policy, and performs what the library
  asks for.

## How a command works

A command is a function of the replies that it has had so far. Over them it comes to an end, or
names the next request, and it is asked again once the reply is there. `src/dialogue.rs` holds
this idea: a `Program` is the tree of requests that a command can make, `run` follows it along
replies, and each executable command is proved to do what its program does.

Waiting for Rift takes an unknown number of turns, so an operation (submit commands, wait for
an event, look at Rift's state) is a request too. `src/transaction.rs` says what one turn of it
does, and `src/session.rs` works the turns off.

`src/laws/` holds what is proved of the commands as a whole, for instance

- that a command that has succeeded ended with Rift's state showing the windows in place,
- in which order commands are submitted,
- that a state counts as settled only where no look of the last stretch found it broken,
- that every retry is bounded and no wait outlasts its batch,
- that windows and displays that are in place are left alone.

Coordinates are only compared, so the library holds each as an integer with the same place in
the order; sums of coordinates are made in `app/`.
