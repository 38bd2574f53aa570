# kurumi_deploy

A desktop deployment tool for Windows and Linux servers reached over SSH,
usually through a Linux jump server: port-forwarding tunnels, rolling backend
deployments with rollback, front-end deployments with snapshots, Docker
commands, terminals, SFTP browsing, remote desktop and an MCP service for AI
clients.

- `src/` is the verified library (Verus). It holds the configuration model
  and its checks, the decisions of every deployment (what is checked, which
  servers and projects take part, the exact scripts run on each server, the
  order of the rolling replacement and when it stops, the health-check
  retries, which front-end files are new, changed or extra on a server,
  the release history), the MCP permission rules, the tunnel supervisor, the
  Windows terminal start-up machine, host-key trust on first use, listing
  orders, output decoding and the parsing of server status output.
- `app/` is the Tauri application around it: windows and commands, SSH and
  SFTP sessions, files, timers, the HTTP server of the MCP service and the
  floating-point figures of the status panel.
- `tests/` exercises the library on concrete values.

Layout of `src/`: `text` (character-sequence helpers), `config`, `ssh`,
`deploy`, `backend`, `rollout`, `dirsync`, `frontend`, `remote_scripts`, `scripts`, `history`,
`mcp`, `tunnel`, `terminal`, `sftp`, `listing`, `rdp`, `events`, `sysinfo`,
`procfs`, `docker`.
