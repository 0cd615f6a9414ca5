# document_manager

A document storage service: files are uploaded (or fetched from a URL), described by a row
of the `document` table, and kept either in the `content` table as Base64 text (private
documents) or on disk under a path derived from the document's UUID (public documents).
Searches answer each matching document with its inline data or the URL it is served under.

- `src/` is the verified library (Verus): file and URL naming, the on-disk layout derived
  from a UUID, Base64 storage text, the plans that saving writes, deletion records, the
  search over document and content rows, and the laws that tie them together (`laws.rs`).
- `app/` is the HTTP service around it (actix-web, diesel-async, reqwest): it reads requests,
  the database and the disk, asks the library what to do, and does it.
- `tests/` exercise the library on concrete values.
