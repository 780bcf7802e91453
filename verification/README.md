# messenger

End-to-end encrypted one-to-one messaging: a terminal client and the relay
between two of them.

* `src/` is the library, verified with Verus: the wire protocol and its AEAD
  context (`protocol`), X3DH, the Double Ratchet and safety numbers (`crypto`),
  what a client keeps, sends and shows (`client`), and what a relay answers and
  decides (`server`).
* `tests/` runs the library on concrete values, against the cryptographic
  crates that it calls.
* `app/` is ordinary Rust around the library: the command line, the JSON form of
  the messages, the databases, the connections and the screen.

The client and the relay are written as steps. A step of the library says what
is to be sent, written down or looked up next; `app/` does that and hands back
what came of it.

What users may rely on is stated as proof functions whose names begin with
`law_`. The functions marked `external_body` are where the library calls other
crates; their doc comments say what is taken on trust of each.
