# brain_ops

The rules of a memory store's wire handlers, verified with Verus: validation,
tenant walls, idempotency digests, pagination cursors, event projection,
membership of recall answers, schema narrowing and the assembly of responses.

- `src/` is the library. Each function states what it returns for every input;
  public proof functions state what holds across functions. Floating-point
  values are bit patterns (`single`), and what floating point decides reaches
  the library as an argument.
- `tests/` runs the library on concrete values.
- `app/` drives it: handlers that read, submit and publish through the
  `Backend` trait, the event bus, the floating-point decisions, and the stored
  forms of two types.

The library calls `blake3` for request digests and `smallvec` for evidence
lists that stay inline.
