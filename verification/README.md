# stardust

The logic of the Stardust OS kernel and its userland, as a Verus library with
machine-checked contracts.

- `src/` is the verified library.
  - `oracle` formats what the kernel writes to its serial debugger (decimal
    and hexadecimal numbers that read back to the value printed).
  - `security` holds capability tokens and the Capability Derivation Tree
    (validation, and the sealed tree that accepts only the genesis token).
  - `memory` is the bump frame allocator over the bootloader's memory map
    (aligned frames inside usable regions, never handed out twice), the page
    flags, and token-gated shared-memory grants.
  - `task` is the thread scheduler (spawn, dispatch, fresh identifiers), the
    kernel ELF loader with its higher-half relocation, and the boot-module
    loader.
  - `arch` decodes and checks system calls, computes the SYSCALL and APIC
    register values and the TLB-shootdown interrupts; `smp` plans the start
    of the application processors; `hal` reads the framebuffer description.
  - `userland` is the USTAR archive parser, the user ELF loader, the
    `init.rc` protocol of the supervisor, the PS/2 packet assembly, the PCI
    scan's decoding, the desktop's state machine and drawing, and the
    supervisor's allocator, framebuffer and clipping arithmetic.
- `tests/` runs the library on concrete values.
- `app/` is the unverified plumbing around the library: boot requests, port
  and register access, page tables, interrupt and system-call entry, and the
  loops of the supervisor, the drivers and the desktop.
