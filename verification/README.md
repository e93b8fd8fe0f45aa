# ChmlFrp toolbox daemon

A daemon that lets the ChmlFrp toolbox manage a Linux server: it keeps a connection to the backend
for each account, carries out the commands that come in, runs end-to-end tests through temporary
tunnels, and updates itself.

The rules by which it does so are a Verus library. Every function of the library has a contract, and
Verus proves that its body keeps it.

## Layout

- `src/` is the library. It works on plain values and decides; it opens no file and no socket. It
  reads the clock only to stamp a usage event, through a function that is taken on trust; every
  other time is handed to it. Longer jobs are state machines: each step takes what happened last and
  says what is to be done next.
  - `commands/` holds the registry of runs, the routing, and one module for each command. The
    end-to-end test is spread over `e2e_server` (who owns the resources, the protocol, setting up and
    taking down), `temp_tunnel` (creating and deleting the tunnel) and `frpc_process` (its
    configuration and what it prints). An update is spread over `daemon_update`, `packages`,
    `manual_install` and `command_line`.
  - `relay` is the connection to the backend, `frpc` gets hold of the frpc program, `telemetry` deals
    with usage events, `logs` with log files, `config` and `db` with what is stored.
  - `text`, `json`, `http`, `digest` and `ident` are what the rest is written in.
- `app/` is the program: arguments, files, sockets, processes, clocks, locks, and the figures that
  need floating point.
- `tests/` runs the library on examples.

## What is taken on trust

The outside crates that the library calls are behind small functions whose contracts are stated and
not proved: `serde_json` (reading a text or bytes), `sha2` (digests), `uuid` and `chrono` (identities
and the time), `regex` (matches) and `urlencoding`. Each says above its header what it claims.
