# slack_log

A client that logs in to Slack, keeps a connection open and turns what it hears into events.

* `src/` is the library, verified with Verus. It leaves the network and the terminal alone: an
  `Account` says what is to be done next, is told what came of it, keeps what has to be remembered
  in between, and hands its events to the streams of those who listen. `state.rs` says what an
  account does at each reply, `account.rs` does it, `laws.rs` proves what follows of single steps,
  and `runs.rs` what follows of whole runs.
* `app/` is the program around it: it posts the forms, opens the connections and reads the JSON.
* `tests/` runs the library on examples.
