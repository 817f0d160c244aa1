# assemble-core

Core types of a build tool, with their behaviour stated in contracts and proved by Verus.

- `src/` is the verified library:
  - `identifier` — project and task identifiers, their text forms and validity;
  - `lazy_evaluation`, `properties` — properties held in a store, and providers that read them
    when asked;
  - `project` — the project itself (identifier, directory, root and parent, build directory,
    tasks, properties, subprojects, extensions), project and task paths, the search for a project from a path, task requests and
    the project error type;
  - `startup` — project descriptors and the graph of the projects a build declares;
  - `flow` — attribute matching and artifacts;
  - `plugins` — plugins applied once per id, and extensions stored under unique names;
  - `logging` — log level selection, message prefixes and the state of the central logger;
  - `named`, `immutable`, `fingerprint`, `task`, `resources`, `startup_api`, `text` — smaller
    pieces and text helpers.
- `tests/` runs the library on concrete values.
- `app/` holds what performs I/O or needs outside derives: command-line argument types, the
  global logger and its background thread.
