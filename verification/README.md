# efi

A high-level interface to UEFI, with its decisions verified by Verus.

- `src/` is the library. It decides what the firmware is asked for and what
  becomes of its answers, and it never calls the firmware itself.
  - `status`: status codes and results
  - `system`: initialization, boot mode and runtime mode, the live services
  - `pool`: blocks on the UEFI heap, and the objects in them
  - `map_query`: the exchange that retrieves the memory map
  - `memory_map`: the memory map and its iterators
  - `text`: text output, string by string
  - `console`: what a whole write sends to the console
- `app/` makes the calls, through the firmware bindings of the `efi_sys` crate,
  which have to be supplied.
- `tests/` runs the library against answers that a firmware might give.
