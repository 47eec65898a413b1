# itemdb

A small item / tag / date database tool over MySQL. The library (`src/`) holds
everything that decides what is sent to the database, verified with Verus:

- `myquery`: search kinds, the query builder, the SELECT statements a query
  stands for (`select`), the INSERT / DELETE statements (`insert`) and the
  value texts they use (`dbstring`), and reading dates of the data file.
- `mydb`, `mydb::get`: the named-schema form of the queries and lookups.
- `calendar`: calendar dates as plain values; `chrono` checks, writes and
  reads them.
- `text`, `sorted`: decimal text, joining, splitting and trimming of text,
  and "first entry per key, in key order" over sequences.
- `app`: the decisions of the command line program that do not touch the
  database.

`app/` is the program: the command line, standard input, the data file, and
running the library's statements with `sqlx`.
