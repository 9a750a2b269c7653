# weather_core

The decisions of a weather engine, verified with Verus. The engine fetches reports from a
provider, keeps them, serves them over a socket and refreshes the configured stations in the
background.

- `src/` is the verified library. It works on plain values: it maps the provider's JSON
  documents, plans refreshes, decides what is served from the cache and what stands in for a
  failed fetch, pages and searches the catalog, keeps the resources that are handed out in
  chunks, and words every reply.
- `app/` is ordinary Rust around it: sockets, files, the HTTP client, and the tasks that carry
  out what the library decides.
- `tests/` runs the library.

Times are numbers of nanoseconds or milliseconds that the caller passes in, numbers of the
provider's documents are carried as the bits of a double, and failures are texts. What differs
between platforms, such as which paths are absolute, is passed in as well. So are the limits of
the wire format, and what the JSON library says of a response: why it cannot be decoded, and how
its message is written.

Where the library depends on another crate, the call stands in a small function of its own
with a stated contract: `src/url.rs` (addresses, by `reqwest`), `src/dates.rs` (calendar dates,
by `chrono`) and `src/clock.rs` (local dates, by `chrono` and `chrono-tz`).
