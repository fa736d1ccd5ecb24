# rari_cache

The caches of a web server, as a verified library.

- `handler`, `memory`, `memory_view`, `noop`: what a cache handler is, one that keeps a bounded
  number of entries in memory, and one that keeps nothing. `memory_view` says what the memory cache
  does as a function on its entries and the order of their use, and holds its laws.
- `registry`, `config`: handlers by name, and how a layer of the cache is set up.
- `entry`, `redb_handler`, `redb_run`, `redb_laws`: a cache in a file. A request is a state machine:
  it names one action at a time and takes in what came of it. `redb_laws` says what whole requests
  do to the store.
- `redis_handler`: a cache behind a server, in the same way.
- `test_handler`: a cache whose store is chosen while the program runs.
- `digest`, `og_cache`, `og_laws`: a cache of preview images, in a handler and in files.
- `json`, `module_cache`: a cache of modules, kept as JSON.
- `concurrent`, `keyed`, `recency`, `clock`, `text`, `error`, `reply`: what these rest on. The calls
  into other crates stand in `concurrent`, `recency` and `json`; `clock`, `digest` and `text` hold
  those into the standard library that need a contract of their own.

`app/` puts locks, tasks, files, connections and the environment around the library.
