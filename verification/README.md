# redlight

A redis cache for the data of a chat gateway's events, with its logic
verified by Verus.

- `src/` is the verified library: the keys of the store and their text
  (`key`, `decimal`, `segments`), the keys of expired entries and how they
  are read (`meta`, `listen`), the commands each event queues into a
  pipeline (`pipe`, `cache/*`, `update`), the clean-up after an entry
  expired (`expire`), the gauges (`metrics`), reading back entries
  (`iter`), keeping gateway sessions across restarts (`resume`), and the
  laws that relate them (`laws`): what expiring or deleting an entry
  removes of what storing it added, that a configuration ignoring every
  kind queues nothing and that ignored roles make no difference, that
  distinct keys have distinct texts, and that removing several guilds at
  once removes what removing each would. Which keys the commands name is
  followed in `key_laws` and `removal_keys`: with roles not cached, no
  event and no removal names a role key. A small model of the store's sets
  and keys (`guild_laws`, `channel_laws`) shows that the guilds and the
  unavailable guilds never share an id, and that, where channels do not
  expire, an event keeps each channel entry stored exactly when its id is
  in the set of all channel ids.
  Contracts are stated over the commands a pipeline holds, each a list of
  byte strings.
- `app/` holds what talks to the store and the gateway: the connection
  pool, the conversion of gateway events into the library's entries, the
  listener for expire notifications, the metrics loop and the getters.
- `tests/` runs the library on concrete values, with the real `redis`
  pipeline and `rkyv` behind it.
