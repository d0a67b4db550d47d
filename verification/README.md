# tarnos

The decisions of a small microkernel, verified with Verus: scheduling, IPC,
capabilities, system calls, ELF loading, FAT12, the virtio block driver, and
the tool that builds and judges boots.

- `src/` is the library. Every function is proved against its contract; the
  laws that relate several of them are the public proof functions named
  `law_*`, next to what they speak of.
- `tests/` runs the library, up to whole boots on a simulated machine.
- `app/` is the rest: entry stubs, page tables, ports and device registers,
  the runtime of the programs, and the build tool's commands. It performs what
  the library decides and hands back what the hardware answered.

| Module | What it holds |
|---|---|
| `abi` | Messages, rights, exit statuses and error codes as they cross the system call boundary |
| `kcore` | Ring buffer, bitmap, capability table, single-slot rendezvous |
| `ipc` | Endpoints with bounded queues, what a capability may name, and who is told when a partner is gone |
| `task` | Processes, the process table, its invariant and its history, the scheduler, the executor of kernel tasks |
| `arch` | System call dispatch, descriptor tables, interrupts, per-core state, PCI |
| `memory` | Frames, address spaces, user buffers, the kernel heap |
| `elf`, `fs` | Program images and the root filesystem |
| `driver` | Device traits, serial port, virtio block device |
| `boot`, `user` | What each boot creates, what each program does, and the machine code of those that come without an image |
| `harness` | How the system is built, started, and judged by its log |
