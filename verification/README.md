# minero

A small music library: it walks directories for MP3 files, stores their ID3
tags in SQLite (performers, albums and songs), lists the albums, and answers
searches such as `ar: Nirvana, al: Nevermind & ca: Lithium` (groups separated
by `&` must all hold; filters separated by `,` inside a group, one of them).

`src/` is the library, verified with Verus:

- `text` — whitespace/control classification, trimming and splitting as
  `str::trim` and `str::split` do them, with their specifications;
- `id3reader` — normalisation of tag fields and the `SongTag` built from them;
- `interpreter` — the search language: parsing, the SQL query with its
  parameters, and the search run against the database;
- `sqlite` — the connection the library runs its statements on, which keeps
  a (ghost) record of every statement run and of SQLite's answer;
- `db` — the schema, the SQL statements and their parameters, decoding of
  result rows, and the upsert and listing operations, each specified by the
  statements it runs and what it makes of the answers;
- `view`, `mine_route`, `minero` — what the interface shows and accepts.

`app/` is the program around it: the GTK windows, reading tags from files,
walking directories, and `main`.
