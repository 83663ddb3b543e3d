# liquid_verified

The core of a Liquid template engine, written in Verus: the value model and
variable lookup, the runtime's frames and registers, render-policy
bookkeeping (resource limits, scopes, errors), range and date values with
Ruby-flavoured `strftime`, several filters, and the error wording a host
embedding shows. Each public function states what it does in its
`requires`/`ensures`, and properties that span functions are proved as
`law_*` proof functions.

Layout:

- `src/` — the verified library; one module per concern (`value`, `find`,
  `stack`, `registers`, `policy`, `range`, `expression`, `datetime`,
  `strftime`, `date`, `filters`, `messages`, `recovery`, `partials`, `tags`,
  and the string helpers `text`, `strs`, `kstring`).
- `tests/` — tests run against the compiled library.
- `app/` — loading a template's context from YAML or JSON files.

Calendar arithmetic, date parsing and date formatting come from the `time`
crate, through small trusted wrappers whose contracts are stated in
`src/datetime.rs` and `src/date.rs`.
