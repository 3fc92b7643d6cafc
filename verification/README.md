# kei

The decision-making core of the kei kernel, verified with Verus.

- `src/` is the verified library. Each module holds the logic of one kernel
  part as functions from plain values to plain values, with `requires` /
  `ensures` contracts over spec functions and views: framebuffer memory and
  colour maps (`framebuffer`, `fb_device`), the boot console and its Sixel
  renderer (`fb_console`, `fb_console_sixel`, `sixel`, `sixel_grid`), the
  VGA and serial consoles, the virtio-gpu command encoding and the boot GPU
  driver's plans (`virtio_gpu`, `raw_gpu`, `virtio_core`), ELF loading and
  relocation (`elf_load`, `tls`), file offsets and handle checks
  (`file_seek`), signal masks, poll bookkeeping, the kernel address space
  layout (`kspace`), component ordering and the RK3566 board pieces.
  Laws of the library are public `proof fn`s named `lemma_*`.
- `app/` performs what the library plans: register and memory accesses,
  global state, user memory copies, logging and the boot sequence.
- `tests/` runs the library on concrete values.
