# Rustwright bindings

Rustwright drives Chromium from a native engine. This project is what stands around the
engine: the synchronous Rust interface, the C interface, the Node interface and the manifest
runner.

- `src/` is the library: everything that the interfaces decide and compute, on plain values,
  verified with Verus. The crate documentation in `src/lib.rs` lists the modules.
- `app/` is the ordinary Rust around it: calls into the engine, pointers, threads, files and
  the copies of the library's types that serde reads and writes.
- `tests/` runs the library on concrete values.

## How the pieces meet

The library never calls the engine. Where a function of the interfaces alternates between the
engine and decisions, the decisions are a state machine in the library and `app/` performs
what it asks for:

- a manifest case is a `runner::CaseRun`, which opens a page, asks for one step after the
  other and closes the page;
- listing pages under a cancellation signal goes through `pages::begin_listing`,
  `pages::next_turn` and `pages::after_wait`;
- a call of the C interface is read by a function of `requests`, and ended by
  `boundary::ffi_status` or `boundary::ffi_pointer`.

## What is trusted

The library believes what it states of `serde_json` (values, numbers, maps, parsing and
printing), and of a few functions of the standard library: `String::push`, the `Debug` form of
strings, `core::str::from_utf8` and `Duration::from_millis`. Each such statement stands above
the function that it is about.
