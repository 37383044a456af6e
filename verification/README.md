# karasync

The core of a project synchronisation server for an editor plugin, written
in Verus.

- `src/` is the verified library: message codes and the JSON replies the
  servers send (`code`, `json`, `structs`, `processing`, `hub`, `tasks`),
  frame checking (`hub::read_frame`, `rpc::classify_frame`), the state
  machine of a hub connection (`session`) and the registry of logged-in
  clients (`registry`), the SFTP upload and download walk (`transfer`), the project clone and
  push (`project`),
  start-up configuration (`config`), and small text helpers (`text`).
- `app/` runs them: sockets, SSH and SFTP, files, the log and the
  command line.
- `tests/` exercises the library on concrete values.
