# image_mirror

A server that mirrors images named by the URL-safe base64 of their URL, stores them
(optionally as thumbnails) as WebP files, and redirects requests to the stored copies.

- `src/` is the verified library: settings and their parsers, stored file names and
  paths, reading mirror URLs, the cached-images lookup, the address policy for remote
  fetches, the checks on remote responses, where an original is read from, decoding a
  downloaded image and scaling thumbnails, memory figures, signature checking, and the
  decisions taken while serving an image request.
- `app/main.rs` is the HTTP server, the processing worker, file and network I/O,
  decoding local image files, WebP encoding, and allocator housekeeping.
- `tests/` exercises the library.
