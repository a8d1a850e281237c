# jas

The verified core of JAS, a self-hosted server that signs and installs iOS
apps on registered devices and keeps them refreshed.

- `src/` is the library, checked by Verus:
  - `config`: the configuration sections and their defaults, the fallback
    when `jas.toml` is missing or invalid, and the 32-byte secret key derived
    from its hex text;
  - `storage`: the scoped key/value cache behind the sideloading storage,
    with the database write that must follow each change;
  - `discovery`: choosing the address of an mDNS advertisement and the
    registered device it belongs to;
  - `jobs`, `login`, `pages`, `text`: what the web pages decide and print.
- `tests/` exercises the library on concrete values.
- `app/` holds the I/O around it: reading files and the environment, SQLite,
  and the mDNS daemon.

What is not here: the Leptos page components of the web UI. Their markup
needs `leptos` and `leptos_router`, which do not fit in the dependency budget
beside the server crates, and the server functions and types they call are
not part of these sources; what the pages decide and print is in `pages`,
`jobs`, `login` and `text`.
