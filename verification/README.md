# bazed

The verified core of an editor's plugin host, written in Verus.

- `src/event_system.rs`: event types and the listeners registered under
  them; register, unregister, broadcast.
- `src/stew_rpc.rs`: a plugin's RPC session with the host: the functions
  it offers, the requests that wait for responses, the step of the receive
  loop, and how responses are read.
- `src/proto.rs`: the messages between plugins and the host.
- `src/stew.rs`: the host's registry of plugin functions by path.
- `src/popups.rs`: the popups a plugin has opened (held in a `DashMap`).
- `src/ids.rs`: random UUID identifiers.
- `src/table.rs`: small keyed tables with a map view.

`app/` holds what the verifier does not take: the serialisable wire types,
the asynchronous session that sends, receives and awaits, the C interface
between host and plugins, and listeners that wrap closures.
