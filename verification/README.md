# workshop_hub

A hub that hands each logged-in user a Kubernetes pod running a workshop,
a sidecar that runs beside each workshop and reports how long it has been
idle, and an inspector that reports (and wipes) a netboot machine's hardware.

The decisions of all three are a library verified with Verus:

- `src/text.rs`, `src/textmap.rs`: decimal numerals, string helpers, and a
  small map keyed by text, with their mathematical models. The map stands
  in for the concurrent hash map and the label maps a plain service would
  use: the hub's table sits behind a mutex in `app/`, and a map keyed by
  text is one whose contents the proofs can follow.
- `src/clock.rs`: reading the wall clock.
- `src/hub/`: configuration, the pod and service manifests the hub creates,
  the bookkeeping of sessions (adoption, health checks, the pod limit,
  garbage collection), logging in (signing and checking the session
  token), and request routing.
- `src/sidecar/`: configuration checks, the health report, and activity
  tracking on proxied connections.
- `src/inspector.rs`: parsing of `lspci` and `lsblk` output and the wipe
  plan.

`app/` is the program around it: the Kubernetes and HTTP calls, the
cookie jar, the HTML pages, the proxies, configuration files, and the
command line. `tests/` exercise the library from outside.
