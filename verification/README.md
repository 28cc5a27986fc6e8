# creche

Configure, run, and monitor single child processes or entire pipelines of
processes; redirect file descriptors to and from them; control their
environment variables.

The library (`src/`) is verified with Verus. It holds every decision of
process spawning as code with contracts:

- `creche` — `ChildBuilder` and `SpawnPlan`: the exact descriptor operations
  that the parent and the child perform around the fork. Descriptor
  configurations are applied in descending priority, in order of addition
  among equal priorities, so that redirects override pipes.
- `ioconfig` — the descriptor configurations (redirects, pipes to and from a
  child, interprocess pipes, redirects to owned descriptors) and the
  priority order, with its laws.
- `envconfig` — inheritance policies (blacklist, whitelist, clear), variables
  set on top, and the `name=value` entries of the resulting environment.
- `pipeline` — wiring stdout of each child to stdin of the next, and the
  order in which children are started and waited for.
- `error`, `pidfd`, `utils` — results of raw system calls, child status
  decoding, the values of the `clone3` arguments, arguments free of zero
  bytes, and positional tagging of sequences.

`app/` performs the system calls from these plans and values: pipes, the
null device, fork, dup2, exec, clone3, waits and signals. It also holds the
`clone3` and pipe flag sets (`app/flags.rs`).
