# rillet-core

The verified heart of rillet, an actor framework with lock-free reads.

A service owns its state. Mutations are serialized through a command channel,
events flow between services over broadcast channels, and a service may
publish a view: an immutable snapshot of its state that readers load without
taking any lock. Commands may be operations, whose outcome arrives later.

- `src/` is the library, verified with Verus: views and their watchers, event
  channels, operations with their deadlines, cancellation, task sets, the
  decisions of the service loop, gauges, and the code generators behind
  `#[rillet::service]`, `#[rillet::handlers]` and the derives. Its types are
  exclusive: whoever changes one holds it by `&mut`. Where clones share one
  thing, as handles share an operation, completions a task set and tokens a
  cancellation, a table owns the things and each clone holds a number.
- `app/` is the framework around it: the same types shared between threads,
  the futures, and two demonstration programs.
- `tests/` runs the library, with the outside crates linked.

The generated code works on text: source code goes in as text and comes out as
text, so that every generated item is stated by a template and what fills it.
