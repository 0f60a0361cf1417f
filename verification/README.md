# system_manager

A manager for a fleet of machines: it installs an agent (the "ambassador")
on a node over ssh, answers an HTTP API whose errors come from a numbered
catalogue, and keeps one worker per agent that reports to it.

- `src/` is the verified library (Verus):
  - `address` – IP addresses as plain numbers;
  - `decimal` – decimal rendering of `u32`;
  - `error_codes` – the error-code catalogue: numbering, messages,
    documentation as triples and as CSV;
  - `http` – the answer envelope and the API's errors;
  - `node` – nodes, the node repository, and the installation plan (ssh
    commands, the `ssh-copy-id` dialogue, the install script);
  - `monitor` – deployment packages, service states, the worker registry
    and the worker's reaction to its stream;
  - `sys_info` – the agent's machine report, read through `sysinfo`.
- `app/` runs it: the actix-web server, the ssh and shell execution, the
  monitor server on tokio, and the agent (`ambassador` argument).
- `tests/` exercises the library.
