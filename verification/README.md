# lvory

The logic of a desktop client for the sing-box proxy core, verified with Verus.

`src/` is the library. Every function in it carries a contract that Verus proves:

- `connection_logger`: recent connections (the latest 500) and per-key connection
  groups (count, first and last time, the last 10 connections), and reading a
  connection from a JSON log line of the core.
- `logger`, `traffic`, `history`: bounded histories of log messages (1000) and traffic
  samples (3600), listed newest first.
- `traceroute`: reading the hops from the output of `traceroute`/`tracert`,
  validating a target, and the command to run for it.
- `subscription`: the statements and parameters that store and update subscriptions,
  and the listing of subscriptions keyed by file name.
- `system_proxy`: the commands that set and clear the system proxy on each platform,
  and their outcomes.
- `core_manager`, `core_control`, `event_bus`: core releases, downloads and versions;
  the decisions of starting and stopping the core; the core's state.
- `config_manager`, `settings`, `node_history`, `log_cleanup`: the configuration in
  use and the checks of a configuration's text, the settings and their defaults, node
  traffic records, and old log files.
- `text`: white space, trimming, words, lines and decimal numbers, as `str` and the
  number types of the standard library define them.
- `json`, `pattern`, `clock`: the calls into `serde_json`, `regex` and `chrono`, with
  the contracts that the rest of the library relies on.

`app/` is the Tauri application around the library: the commands, the database, the
file system, processes, the network and events.
