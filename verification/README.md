# stump

The verified core of the Stump media server (NoirPanther fork): the
decisions, text formats and data transformations of the server, written in
Verus with their contracts proved.

## Layout

- `src/` — the library, verified by Verus.
  - `text`, `xml`: character and byte helpers; a cursor over quick-xml's
    events and the XML writers the library emits with.
  - `session`, `database`, `pool`, `web`: session cookies and sliding expiry,
    database URL and forced-reset decisions, background connection slots,
    client shell and thumbnail fallbacks.
  - `offline_crypto`: per-device wrapping of books for offline reading
    (P-256 ECDH, HKDF-SHA256, AES-256-GCM), device registration checks.
  - `opf`, `comic_info`, `zip_edit`, `writeback`, `cover`: metadata writeback
    into epub OPF documents and ComicInfo files, replacing entries of a zip
    archive, the writeback job's counting, and placeholder cover text.
  - `filter`, `content_rules`, `shared_access`: search filters with
    Unicode case folding, per-user content access rules, shared-entity access.
  - `list`, `book_club`, `series`: list saves and patches, book club members
    and cursors, series merging, unmerging and marking as read.
- `tests/` — tests of the library.
- `app/` — the server process around the library: file and archive I/O,
  rendering covers, the connection semaphore, SQL rendering, serialized forms.
