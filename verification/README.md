# statix-agent

The Statix host agent: it keeps a session with the Statix server, reports the
state of the host, and runs jobs on the host, in LXC containers and in virtual
machines.

- `src/` is the library. What the agent decides stands there, written in Verus and
  proved: the session with the server (`agent`), jobs and their runners (`jobs`),
  the networks, ports and routes of projects (`networking`), the figures of the host
  (`metrics`), log lines (`logs`), and the texts, paths, digests and shell words that
  these are made of. Laws that hold across functions are public proof functions next
  to what they speak of; those on networks stand in `networking/laws.rs`.
- `app/` is the program around it. It reads files, runs commands and talks to the
  server, asks the library what comes next, and does that.
- `tests/` runs the library.
