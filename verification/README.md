# trillium-cache

An HTTP cache for [trillium](https://trillium.rs), in two handler forms that share one caching
engine, with the engine verified in [Verus](https://github.com/verus-lang/verus).

- The client form is a handler for `trillium-client`. Mounted on the client that a proxy uses to
  reach its upstream, and marked as shared, it makes the proxy a shared cache in front of that
  origin. On any other client it is a user agent's cache.
- The server form sits before a trillium handler and caches that handler's own responses.

Both store what may be stored, serve it while it is fresh, revalidate it with conditional requests,
keep `Vary` variants apart, invalidate on unsafe methods, and serve stale responses when the origin
fails and the response permits it. The client form also serves stale responses at once while it
revalidates them in the background; the server form revalidates first.

## Layout

`src/` is the library. It decides, and its decisions are proved against contracts over plain
mathematical models: header fields are a map from lower-case names to lines, times are integers in
nanoseconds, a stored response is what was captured of its exchange.

| module | what it holds |
| --- | --- |
| `policy`, `options`, `directives`, `structured` | what is captured of an exchange, and which directives govern it |
| `storability` | which responses may be stored |
| `freshness`, `ratio`, `time`, `dates` | ages, lifetimes, and the windows for stale use |
| `validation`, `etag` | whether a stored response answers a request, revalidation requests, and what comes of them |
| `engine`, `client`, `server` | plans for a request and for a reply, and the two handlers that ask for them |
| `storage`, `urls`, `http` | cache keys, and what an unsafe request invalidates |
| `memory`, `limits`, `fs`, `hashing`, `tiered`, `tee` | buckets of variants, file names and commits, tiers, and storing a body while it is read |
| `headers`, `text`, `sharing` | header collections and text |
| `laws` | what is proved of the library as a whole |

What the library takes from other crates stands behind small functions with stated contracts: header
collections (`trillium-http`), the `Cache-Control` parser (`trillium-caching-headers`), HTTP dates
(`httpdate`), URLs (`url`), SHA-256 (`sha2`) and the concurrent cache (`moka`).

`app/` puts the library to work: it implements the handler traits, the storage backends in memory,
on disk and in two tiers, and the streaming bodies. It asks the library what to do and does it.

`tests/` runs the library on concrete values and drives both handlers through whole exchanges.

## Use

```rust
let client = Client::new(connector).with_handler(client::Cache::new(InMemoryStorage::new()).shared());

let app = (Cache::new(InMemoryStorage::new()), my_handler);
```

Put the client form last in the tuple of handlers, and the server form before the handler that it
caches.
