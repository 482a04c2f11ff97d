# Persistent SSH workspaces

Shells on a remote host that outlive the connection that opened them. A workspace is
a tmux session; a recorder keeps its output in a journal from the first byte on; a
client reattaches to exactly the same incarnation and replays what it missed. The
library is verified with Verus.

- `src/journal*`: the journal of a workspace's output. Its laws say that what was
  recorded is what is read, wherever a recorder stops and while it goes on.
- `src/workspace*`, `src/shell.rs`, `src/rpc.rs`: workspaces on the remote host, and
  the requests of the daemon's protocol. Their laws say which calls an operation can
  make at all, and what becomes of the workspaces of a server that does as it is told.
- `src/replay.rs`, `src/native_replay.rs`, `src/transport*`, `src/connection.rs`,
  `src/terminal.rs`: the client's cursor, its transport and its connection.
- `src/ssh_recipe.rs`, `src/bookmark.rs`, `src/bootstrap.rs`, `src/local.rs`: what the
  client keeps locally to reconnect.
- `src/status.rs`, `src/popup.rs`, `src/settings.rs`: what the user sees and chooses.
- `src/harness_*.rs`, `src/usage_reporting.rs`: the publication of harness usage.
- `src/global_search.rs`, `src/outline.rs`: the text of search matches, and the
  repositories that were used last.
- `src/text.rs`, `src/number.rs`, `src/bytes.rs`, `src/paths.rs`: texts and bytes.

Nothing in `src/` acts on the system. An operation runs against a script
(`src/host.rs`): it asks for one call after the other and stops where the reply is
missing. The host performs the call, adds the reply and runs the operation again, so
that every decision is a function of the replies. `app/` holds that host, the recorder
and the launcher that tmux starts, and the loops around the client's state machines.
