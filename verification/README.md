# dackdb

DuckDB for Excel VBA, with three levels of permission: reading, reading and changing
rows, and everything. What a user may do is decided by the DLL that they are given.

The decisions are made by a verified library; the calls into DuckDB and OLE
Automation are made by the program around it.

- `src/` is the library, verified with Verus.
  - `level` names the levels, `classify` says which kinds of statements each accepts.
  - `conn` opens databases with the settings of their level and keeps the open
    connections.
  - `query`, `append` and `schema` say, step by step, what the engine is to do for
    each function and what becomes of its answers; `task` is what a step is.
  - `value` turns the engine's values into variants, `inbound` takes variants and
    arrays in, `variant` builds tables, `oleaut` is what a variant holds.
  - `api` and `ffi` are the exported functions and what VBA gets from them.
  - `raw` is what the engine answers, `text` builds texts.
- `app/` holds the DLLs: memory that VBA sees, the engine's C API, floating point.
- `tests/` runs the library with scripted answers of the engine.

Contracts speak of what VBA sees of a value (`Shown`), of what is asked next
(`StepView`, `OpeningView`) and of the messages, word for word. The functions named
`law_...` state what holds over several calls: no text runs before every statement
in it was allowed, an array is written as a whole or not at all, a quoted name stays
a literal, a table read back is the table handed out.
