# shelfd

An OPDS catalog server for ebook archives: search and explore feeds, download
link resolution, Open Library metadata and covers.

- `src/` is the library, verified with Verus: feed generation (`opds`), the
  search, explore, cover, download, metadata and retry decisions (`service`),
  archive page reading (`scraper`), configuration (`config`), the cache rows
  (`db`), the calendar (`clock`) and text helpers (`text`, `numbers`,
  `encoding`, `sorting`).
- `app/` is the server around it: command line, HTTP endpoints, the SQLite
  cache, upstream requests and cover rendering.
- `tests/` exercises the library.
