# proxy_tool

SSH tunnels between this machine and a server: reverse (`ssh -R`), local (`ssh -L`) and dynamic
(`ssh -D`), kept up by themselves, several of them over one connection. The library in `src/`
holds everything that decides or computes, with contracts that Verus proves. The program in
`app/` does the input and output: sockets, SSH, files, the clock, the log.

## The library

| module | what it holds |
|---|---|
| `model`, `profiles`, `scenarios`, `presets` | tunnels, servers, templates, errors and which of them are worth a retry |
| `engine` | the registry of tunnels; `tunnel`: attempts, waits and states of one tunnel; `attempt`: one attempt; `pool`: connections that tunnels share |
| `tunnel`, `direct`, `backend`, `socks`, `probe` | what a reverse tunnel, a local forward, a dynamic tunnel and their local ends do, event by event |
| `transport` | `frame`: the protocol of the server-side helper; `python_bridge`: the helper's channel; `russh_direct`: the standard forward; `shared`: what the tunnels of one connection share |
| `known_hosts`, `ssh`, `creds` | server keys, connecting, credentials |
| `crypto`, `secrets`, `cmd_recipes`, `store` | sealed and plain files |
| `commands`, `diag` | what the user interface calls, the log and the diagnostic bundle |
| `text`, `text_map`, `keyed`, `bytes`, `time` | texts, ordered maps, lists by id, bytes, durations |

Each module that talks to the world is a state machine: it takes an event and answers with what
is to be done. Its contract gives the next state and the answer for every event. Proof functions
whose names begin with `law_` state what holds across calls: that frames come back however they
are cut, that no data passes without its checksum, that a changed server key is never retried,
that a shared connection outlives the tunnel that leaves it.

## What is taken on trust

Functions marked `external_body` call other crates: AES-GCM, random bytes and UUIDs, SSH keys and
their fingerprints, the calendar, and two conversions of bytes to text. Their doc comments say
what is claimed of them.

## The program

`app/` reads commands from standard input, one on a line: a name and its arguments as JSON.

    tunnels_list
    save_profile {"id":"p1","name":"lab","host":"lab.example","port":22,"username":"me"}
    tunnel_start {"id":"…","password":"…","remember":true}
    quit

`--dir` names the data directory, `--autostart` starts the tunnels that are enabled, `--remote`
runs one command on the server that the environment names, `--socks` serves a SOCKS proxy alone.
