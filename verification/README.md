# sundials_core

The core utilities of a SUNDIALS-style numerical library, written in Verus
with their behaviour stated in contracts and proved.

- `src/` is the verified library: the open-addressing string-keyed hash map
  and its laws, command-line option matching, C-style integer parsing and
  decimal text, error codes and messages, the context with its last error and
  handler stack, the logger's routing and file table, file-handle
  bookkeeping, the system memory helper's accounting, the fixed-interval
  adjoint checkpointing scheme and its checkpoint tree, version queries,
  integer math, and the bit-level tests of `pow`.
- `app/` is ordinary Rust around it: real files and standard streams, the
  environment, aborting the process, and the floating-point kernels (real
  powers and comparisons, dense, band and sparse LU factorizations, Givens QR,
  real-valued command-line options, and the serial and many-vector vectors
  with their generic operation table).
- `tests/` exercises the library from outside.

Where the library needs something from its surroundings (opening a file,
writing a record, running a caller's handler) it takes a closure and states
what it hands to it.
