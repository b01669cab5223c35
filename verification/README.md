# forgetty

The core of a terminal multiplexer, verified with Verus: sessions with
workspaces, tabs and split panes, the protocols of its daemon, and what its
windows show.

- `session`: panes, tabs and workspaces, the bytes kept of each pane, saving.
- `socket`: JSON-RPC requests and their answers, frames, streams to clients.
- `sync`: paired devices, the pairing code, streams to devices.
- `pty`: which process is started, and how.
- `terminal`: one pane on the screen: selection, search, keys, bells, drawing.
- `ui`: tabs and panes of a window, keys, the clipboard.
- `renderer`: colours, damage and text of a frame.
- `viewer`: pages for Markdown files and pictures.

The library does no I/O. Where a request needs something done, the library says
what (`effect_of`), and takes how it went (`dispatch`); a stream or a connection
is advanced by one step for each thing that happens. `app/` does the I/O: it owns
processes, sockets and files, and turns values into JSON and MessagePack.

Calls into other crates are wrapped in functions with a contract that Verus
takes for granted; the comment above each says what is claimed.
