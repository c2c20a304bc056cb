# sidereal_client

The decision logic of the Sidereal game client, written in Verus and proved against its
contracts: settings read from the environment, the gateway session and its state machine,
control handover, the replication bookkeeping (entity adoption, motion ownership, hierarchy
guards, debug lanes and the debug overlay snapshot, prediction runtime sampling), the
bootstrap watchdog and its dialogs, the owned-asset manifest cache, the asset catalog, dependency closure,
download planning, streaming and bootstrap, the developer console, the pause menu, the
owned-ships panel and the render layer registry.

Layout:

- `src/` — the verified library, one module per concern; `lib.rs` also holds the launch plan.
- `tests/` — tests that run the library on concrete values.
- `app/` — the command-line entry: it reads the environment and arguments, asks the library
  for the launch plan, and holds the few helpers that compute on floating point.

The Bevy runtime that would run around this logic (windowing, rendering, ECS systems, the
Lightyear transport and the HTTP gateway client) is not part of this crate: its engine and
transport crates are not dependencies here. The library's functions take and return plain
values so that such a runtime can perform the I/O and hand them in.
Times are milliseconds; entity handles are their 64-bit bits; GUIDs are 128-bit values,
parsed and printed through the `uuid` crate.
