# gateway_plugin

The provider side of a gateway's plugin runtime, verified with Verus.

A plugin declares a provider, and the gateway prepares it, chooses accounts for requests, calls the
plugin, reads its answers and keeps what it learns. The library holds the decisions in this: what a
plugin may declare, which account serves a request, which callbacks are let through, what an event or a
failure means, which conversations a process may carry on, how credentials are replaced, what is kept in
caches and for how long, and what the host's own tasks do. Each function states in its contract what it
returns for every input that its precondition admits; of an identifier that is drawn at random only the
form is stated.

The library does no input or output. A store's or a plugin's reply comes in as a plain value.

- `src/` is the library. `json`, `moment`, `identifier`, `address` and `digest` call outside crates; the
  contracts of the few functions that make those calls are trusted, and everything else is proved.
- `app/` is the host around it: sessions, stores, clocks and tasks.
- `tests/` runs the library on concrete values.
