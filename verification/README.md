# imp

The verified core of a small JavaScript runtime built on QuickJS.

- `src/` is the library, checked by Verus: string views (`rs_string`),
  timers, readable-stream bookkeeping (`streams`), value printing
  (`convert`), argument coercion, durations, hashing and encodings, file
  modes and ranges (`fs`), directory walks (`walk`), paths, dates, abort
  signals, the module bundler and resolver. Calls into outside crates
  (`chrono`, `globset`, the `oxc` parser, digests, `base64`, `hex`, ...) go
  through small trusted wrappers whose contracts say what those crates do.
- `tests/` runs the library on concrete values.
- `app/` is the glue that talks to the script engine, the file system, the
  terminal and the clock; it hands plain values to the library and acts on
  what comes back.
