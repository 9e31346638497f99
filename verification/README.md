# wechat-article-exporter-desktop-lib

The core of a desktop tool that archives WeChat Official Account articles: it logs in to
the Official Account platform, synchronises the article lists of target accounts and
albums, downloads article pages with their assets, enriches them with reading data, and
exports them as Markdown or standalone HTML. Collection work is tracked as persistent
tasks whose items can be retried or cancelled.

## Layout

- `src/` — the library, written in Verus. Its functions are proved against their
  contracts, except a few small wrappers around the `url` and `base64` crates, character
  upper-casing, string collection and the system clock, whose contracts are trusted.
  Highlights:
  - `archive_store`: the task model (item statuses, roll-up of a task's status, retry and
    cancel), the database names of statuses, album listings and archive paths;
  - `article_export`: the HTML-to-Markdown conversion, the standalone HTML page and the
    mapping of remote assets to downloaded files;
  - `html`, `text`, `numbers`, `json_text`, `web_url`: the string, HTML and URL
    primitives the rest is stated over;
  - `official_account_login`, `article_list_sync`, `album_workflow`,
    `article_html_download`, `article_reading_enrichment`, `target_accounts`,
    `single_article_workflow`: the decisions of each workflow, from a request and the
    platform's reply to the next request, the records kept and the outcome;
  - `secret_store`: credential slots over a backend, with the laws of reading back what
    was saved.
- `tests/` — the test suite, run against the compiled library.
- `app/` — ordinary Rust around the library: the SQLite store, the file system, the HTTP
  transports, JSON parsing of the platform's replies and the platform credential store.
