# tdx_q35

The logic of a virtual machine monitor for trust domains on a q35 machine,
written in Rust and verified with Verus.

- `src/` is the library. Every function states in `requires` and `ensures` what
  it takes and what it gives, and Verus proves it. Public proof functions state
  what holds of several functions together.
  - `memory`: which guest pages are shared, and who is told of changes.
  - `kvm`: decisions of the KVM backend: machine types, memory slots and their
    conversion between private and shared, vCPU exits, CPUID of trust domains,
    interrupt routing, register lists, saved state.
  - `devices`: the firmware configuration device, the event timers, the power
    management block and the small legacy ports.
  - `pci`: the bus, its configuration space and the functions that are built in.
  - `vmm`: PCI segments and their description for the guest's firmware.
  - `arch`: identifiers and addresses of the platform.
- `app/` runs the library on a host: it opens files, makes system calls, starts
  threads, copies to guest memory and renders firmware tables.
- `tests/` calls the library from outside.

The library plans, and a caller carries out. A function that would talk to the
host takes what the host said as plain values, and returns what to do next.
What the outside world decides, such as the order in which a hash map is
walked, is left open in the contracts.

A few small functions wrap calls into other crates: reading little-endian
numbers (`byteorder`), parsing UUIDs (`uuid`), laying boot parameters over bytes
(`linux-loader` with `vm-memory`) and handling shared pointers (`std`). Their
contracts are taken as given; the doc comment of each says what it claims.
