# kumo_userland

The user space of a capability microkernel, with its logic verified by Verus:
the shell and the terminal server, the block, framebuffer, serial, I2C and USB
drivers, the root server's boot, loader and supervision, the process heap, the
dispatch queues and the small programs.

## Layout

- `src/` is the library. Verus proves the contract of every function in it but
  the three named under "What is trusted"; the laws that hold across functions are public proof functions beside
  the functions they speak of.
  - `kumo_rt`, `kumo_dispatch`, `transport`, `abi`, `bytes`, `text`,
    `numerals`: what the programs share.
  - `kumoza`, `ttyd`, `persona_posix`, `persona_linux`: the shell's language,
    the terminal and the personas.
  - `drv_blk`, `drv_fb`, `drv_serial`, `drv_geni_i2c`, `drv_i2c_hid`,
    `drv_xhci`, `fatfs`, `svc_health`: drivers and servers.
  - `sora`: the root server.
  - `programs`, `wc`, `threads`, `i2cdetect`, `lua_repl`: the small programs.
- `tests/` runs the library from outside.
- `app/` makes the system calls, touches registers and memory, and drives the
  library.

## How effects are modelled

Work that alternates with the kernel or with hardware is a state machine. Its
`call` says what to do next, and its `advance` takes in what came back and
returns what the log says. `app/` performs the calls.

A read of a memory object, of a block or of a volume is a function argument.
The contracts say what is returned for every way in which it may answer.

## What is trusted

`text::push_char` and `text::checked_text` stand for `String::push` and
`core::str::from_utf8`. `kumo_rt::heap::first_fit` stands for
`linked_list_allocator::Heap::allocate_first_fit`. Implementations of the
traits `Transport`, `TtyWrite`, `TtyRead`, `TtyRpcTransport`, `Server` and
`RegionSource` are trusted to keep the contracts of those traits.
