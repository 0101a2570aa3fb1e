# rust_manga_scraper

A manga catalogue and chapter downloader whose logic is verified with Verus.

- `src/` is the library: chapter labels and file names, the page-image
  selection of chapter pages and the archive they are packed into, the
  catalogue a crawl builds (with its well-formedness invariant), title and
  chapter matching, metadata merging, retry and backoff decisions, Cloudflare
  and CAPTCHA handling steps, sessions and proxies, request counters, the SQL
  of the catalogue and the decisions of the HTTP endpoints. Every function has
  a contract; the laws that relate several of them are public proof functions
  (`lemma_*`).
- Calls into outside crates (regex, scraper, serde_json for the chapter
  pages' embedded arrays, url, zip, urlencoding, rand and the standard clock)
  stand behind trusted wrappers; each one's doc comment says what is assumed
  of it. The metadata providers' answers are parsed into the library's
  `JsonValue` by `app/`, and the library reads their fields with verified
  functions.
- `app/` does the input and output around the library: HTTP, the headless
  browser, the SQLite catalogue, configuration and session files, metrics
  with wall-clock times.
- `tests/` runs the library on concrete values.
