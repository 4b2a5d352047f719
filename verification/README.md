# duckdb_opendal

The decision logic of a storage bridge between DuckDB and Apache OpenDAL, verified
with Verus: how options, URLs and globs are read, what a call may do, what a scan
shows, how usage adds up, and how a copy goes on after each reply of a service.

## Layout

- `src/` is the library. Every function in it has a contract, and everything but the
  calls into outside crates is proved.
  - `text`, `utf8`, `text_map`, `complaint`: texts, their order, a map ordered by
    text, and the first complaint about its entries.
  - `ffi`, `error`, `capability`: the boundary to C, failures, and what a service can
    do.
  - `config` and its sections, `units`, `io`, `layers`: strict and lenient options,
    and the layers that they ask for.
  - `uri`, `percent`, `operator_uri`, `schemes`: URLs of objects and operators.
  - `operator`, `stat`, `reader`, `writer`, `lister`, `mutate`: what each call is
    refused for and what it comes down to.
  - `entry`, `table`, `glob`, `du`: rows, scans, patterns and usage.
  - `copy`, `copy_laws`: copies as a state machine, and what holds of all its runs.
- `app/` is the C surface. It decodes pointers, asks the library, performs the I/O on
  a shared runtime, and hands the outcome back.
- `tests/` runs the library, on its own and against a service in memory.

## Conventions

Public proof functions named `law_..` state what the library promises as a whole.
A wrapper or an `assume_specification` stands for what an outside crate does; its
doc comment names the calls and says what is taken for granted of them.
