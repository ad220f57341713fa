# prism

The core of Prism, a desktop utility for looking after a workstation:
processes, startup applications, storage cleanup, network ports, SSH keys,
Docker, system information and a terminal with command suggestions.

The library in `src/` is written in Verus. Every function states what it
returns in its contract and Verus proves it; the laws of the library
(orderings that are sorted permutations, a terminal manager that finds what it
stored and forgets what it removed, a command walk that reads each command
once, cleanups that never report more than was there) are public proof
functions.

- `src/text.rs`, `src/paths.rs`: characters, lines, words, numbers and paths.
- `src/models.rs`: the values shown to the user, and the errors.
- `src/command_knowledge/`: reading `--help` output, ranking stored commands
  for a query, the applications of the search path, the knowledge base's
  location and schema changes.
- `src/terminal/`: terminal sessions, which one is active, and what a read of
  a session's output is reported as.
- `src/disk_cleanup.rs`: cleanup targets and usage insights, scans and cleanups.
- `src/startup.rs`: how startup entries are described, sorted and edited.
- `src/commands/`: ports, SSH keys, Docker and its registries, the native tools of Windows and macOS, and Windows settings.
- `src/providers/`: what the platform's tools print about the machine, the
  drives and network adapters shown and in which order, and application icons.

`app/` holds what runs around the library: it starts programs, reads files,
the system and the network, keeps SQLite databases and pseudo terminals, and
hands the library plain values. `tests/` exercise the library on concrete
values.
