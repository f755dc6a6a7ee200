# lan_transmission

The logic of a LAN file-transmission tool, verified with Verus.

- `src/discovery`: which local address is announced (private LAN ranges
  only), the announcement and reply messages, what the listener does with a
  received message, and the registry of peer devices with its 15-second
  timeout.
- `src/transfer`: the transfer service's state (pending requests, save
  paths, downloadable files), where an uploaded file is written and how a
  resumed upload is written, and how a download with a `Range` header is
  answered.
- `src/history`, `src/settings`: the rows the history store writes, the
  settings read from the store, and the checks on a save path.
- `src/commands.rs`: endpoint URLs, resuming an upload, the results reported
  to the user interface, and the listing of a folder's files.
- `src/text.rs`: decimal writing and reading, prefix tests and field
  splitting, with their lemmas.
- `src/system.rs`: the clock, random device ids, the host name and the
  network interfaces, read through trusted wrappers.

`app/` holds the sockets, the HTTP server, SQLite and the file system; it
hands plain values to the library and acts on what it returns.
