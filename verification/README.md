# url_shortener

A URL shortener. A POST of a path gives back a short path (`/` followed by the
hashids code of the next id from a counter); a GET of either path gives back
the other.

- `src/` is the library, verified with Verus: the string map and the key-value
  stores built on it (`store`, `kvstore`, `inmem_kvstore`, `kvservice`), the id
  source (`uniqueid`, over `atomic-counter`), the encoder (`hashids`, over
  `hash-ids`) and the request logic with its laws (`urlshortener`).
- `app/` is the HTTP server: hyper and tokio, one shortener shared by all
  connections behind an `Arc<Mutex<..>>`, and the conversion between HTTP
  requests and responses and the library's `Request` and `Reply`. The request's
  path is taken with its query string.
- `tests/` runs the library on concrete values.

Two design points:

- The stores keep their pairs in `StringMap`, a vector of pairs in which no key
  occurs twice, rather than in `std::collections::HashMap<String, String>`.
  vstd specifies `HashMap` only for key types that it knows to obey its key
  model, and `String` is not among them, so no contract over a
  `HashMap<String, String>` could be proved.
- The stores and the id source are plain owned values. Handles that share one
  store or one counter (clones of an `Arc<Mutex<..>>` or of an `Arc` counter)
  are made in `app/`, which serialises every request through one mutex around
  the shortener.
