# rustcrew

A multi-agent orchestration library whose logic is verified with Verus.

- `src/` is the verified library: tasks and agents, crews, the decisions of
  the dependency-respecting scheduler (which tasks may start, what a run's
  next step is, what starting and completing a task records), majority
  votes, tool policies, text chunking, the short-term memory store, the
  prompts sent to models and the reading of their replies, and the pure
  parts of each tool (names, endpoints, result texts).
- `app/` is the server around it: the asynchronous adapter, tool and memory
  interfaces, the executor that runs a crew's tasks concurrently, the HTTP
  handlers and the configuration read from the environment.
- `tests/` exercises the library, including full runs driven the way the
  executor drives them.
