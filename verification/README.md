# deepwell

The rules of Deepwell, Wikijump's API service, as a library verified with
Verus: the wikitext preprocessing that runs before FTML parses a page
(show-to regions, Wikidot comments, ListPages and CountPages modules, page
tokens and live templates), site membership and roles, password links,
watching and watcher email, page search, Mailgun sending, drafts, imported
history and background jobs.

- `src/` is the library. Every function states its result in its contract
  (only the HTML that FTML renders is left unstated: its element IDs are
  random), and the public proof functions state the laws that hold across
  calls. Calls into outside crates (hashing, encoding, random numbers, time
  formatting, word diffs, HTML parsing, UUIDs, page-name normalization,
  FTML's preprocessor, parser and renderer) stand behind small trusted wrappers whose contracts
  say what is assumed.
- `app/` holds the service side: the serde forms of the library's types and
  the loops that talk to Mailgun and Meilisearch (sending, searching and the
  retried index request), driven by the library's decisions, generic over
  the transport that makes each request.
- `tests/` runs the library on concrete inputs.

Positions that the public text functions take and return are byte offsets,
as `str` counts them; the specifications index characters and state the
byte offset of each character position (`text::byte_offset`).
