# reenix

The logic of a small teaching kernel, written in Verus and verified.

- `src/` is the library. Each subsystem of the kernel has its module: `base`
  (error numbers, device ids, number parsing, cells), `mm` (page arithmetic,
  the slab map and the allocator's decisions), `drivers` (terminals, memory
  devices, the ATA disk's requests), `fs` (path resolution and the in-memory
  file system), `procs` (interrupt tables, queues, mutexes, threads) and
  `main` (the kernel shell). Every function carries a contract that Verus
  proves; the properties that tie several functions together are public proof
  functions named `lemma_*`.
- `tests/` runs the library on concrete values.
- `app/` is the part that touches the machine: port I/O, video memory,
  interrupt entry, DMA transfers and the shell's read loop. It asks the
  library what to do and does it.
