# swash

Downloads the daily NationStates data dumps, parses them as a stream and
stores nations and regions in PostgreSQL.

- `src/` is the verified library: list parsing (`lists`), canonical names
  (`canon`), factbook decoding (`html`), the record types and their
  finalization (`models`), the `--date` check (`date`), the commit batching
  of a dump (`dump`) and where a record's element ends (`element`), with
  character helpers in `text`.
- `app/` is the program: command line, HTTP and file input, gzip and XML
  streaming, serde and the database.
- `tests/` exercises the library on concrete values.
