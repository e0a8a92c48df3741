# mikack

A library for reading comics from online sources, with its logic verified by
Verus: the data model of comics, chapters and pages; how chapters are
numbered and flattened from groups; the page walk of a chapter; routing a URL
to its source; and reading lists of comics, chapters and groups out of
fetched HTML documents.

## Layout

- `src/` — the verified library.
  - `models.rs`, `headers.rs`, `filename.rs`, `text.rs`: comics, chapters,
    pages, page headers, page file names and the string helpers they use.
  - `grouping.rs`: attaching chapter lists to a comic and flattening grouped
    lists into one numbered list.
  - `pages.rs`: the page walk as a state machine; the caller performs the
    fetches it asks for.
  - `routes.rs`: which source, and which kind of page, a URL belongs to.
  - `dom.rs`, `extract.rs`, `listing.rs`, `links.rs`, `grouped.rs`: queries
    on parsed HTML documents and the list readers built on them.
  - `encoding.rs`: decoding page bodies served in legacy encodings.
  - `sources/`: the records some sources return and the links built from them.
  - `laws.rs`: properties that span several calls.
- `app/` — HTTP, JavaScript evaluation, the `node` runtime, serde forms of
  the models, and the extractors of the sources, built on the library.
- `tests/` — tests of the library on concrete values.
