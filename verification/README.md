# rslibc

A small C runtime for x86-64 Linux. The library in `src/` holds the runtime's
decisions, each proved against its contract with Verus:

- `errno`: kernel error numbers, reading a raw system call return, storing an
  error in `errno`.
- `io`, `fd`: the read/write/fsync calls a descriptor makes and how their
  returns are read; writing a whole buffer step by step.
- `file`: the C stream with its re-enterable lock, opening and closing.
- `stdio`: the `FILE` record handed to C code and its mode bits.
- `memory`: the heap allocator's list of block headers: finding a free block
  that fits, laying fresh blocks into mapped memory, freeing and coalescing.
  Fresh blocks are not linked into the list, so memory they held is not
  handed out again.
- `auxv`, `common`: the auxiliary vector and the runtime's shared state.
- `signal`, `thread`, `panicking`, `linux`, `env`, `ffi`: signal records,
  per-thread `errno`, the panic count, `brk`, and small records.

`app/` performs what the library decides: the raw system calls, the global
allocator behind a spin lock, the standard streams, start-up and the panic
path.
