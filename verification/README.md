# catch

A companion service for [Hurl](https://hurl.dev) test suites: an in-memory
key-value store, a file store, a script runner, and a recording HTTP proxy whose
calls can be copied out as `.hurl` files.

## Layout

- `src/` is the library, verified with Verus:
  - `kv_store.rs`: the key-value store (contexts of keys and values), with its
    laws (read-your-write, isolation of writes and removals, last write wins,
    contexts persist), and the reply a read gives over HTTP.
  - `proxy.rs`: recorded proxy calls, the target URL of a forwarded request,
    header filters, the JSON record of a call and its Hurl file.
  - `script.rs`, `runtime.rs`: recorded scripts, their names and JSON records,
    the script kinds a request may ask for, and how a run is answered.
  - `file_store.rs`: storage paths, the upload form, download headers, file
    listings and file sizes for display.
  - `stamp.rs`: the RFC 3339 timestamp of a clock reading and the version-4
    UUID of random bytes, under which proxied calls are recorded.
  - `config.rs`: the configuration from its settings, and the start-up banner.
  - `view.rs`: display decisions of the web pages.
  - `keyed.rs`, `order.rs`, `text.rs`, `json.rs`: the insertion-ordered map,
    string order and stable sorting, text operations, and JSON text.
- `tests/` runs the library on concrete values.
- `app/` is the HTTP server (actix-web), the pages (maud), the file system and
  process work, and the serde forms of the stored records.
