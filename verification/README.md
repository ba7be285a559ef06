# eventz

An indexer for the events that Tezos smart contracts emit. It follows the
chain block by block, stores each block and its events in SQLite and pushes
every new event to connected clients (server-sent events and websocket).

- `src/` is the verified library: the configuration (`config`), the view of a
  block that the indexer reads and the selection of its events (`block`), the
  stored event (`model`) and the decisions of the synchronisation loop
  (`sync`: rows to write, messages to broadcast, next level, waiting time).
- `app/` is the program around it: configuration file, Tezos node client,
  SQLite, the loop itself and the web API.
- `tests/` exercises the library on concrete blocks.
