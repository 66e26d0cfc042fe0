# vortex_row

Functions over columns of values, each written as a computation on one row and lifted to whole
columns, nulls and constants included. What every function promises is stated in its contract and
proved by Verus.

- `src/row`: what a row function is made of. Elements say how a column is decoded and read, sinks
  how rows are written, and outcomes how a row reports failure. `execute` runs a row computation over
  every row or over some, and `agreement` states when two runs come to the same. `lift` chooses which
  rows to run, and `laws` states what holds whatever it chose.
- `src/array`, `src/mask`, `src/dtype`, `src/error`: columns, selections of rows, logical types and
  errors.
- `src/interleave`: columns whose rows are picked from several others.
- `src/geometry`: the intersection of polygon columns.
- `src/tensor`: inner product and norm of tensor columns.
- `src/varbinview`: columns of strings.
- `app`: the same functions over floating-point values.
