# varmint

A virtual machine monitor for arm64 Linux guests on macOS Hypervisor.framework,
with its device models and machine logic verified by Verus.

- `src/` — the verified library: guest memory, the memory map and device tree,
  boot layout checks, exit classification, PSCI and trapped system registers,
  secondary CPU bookkeeping, the PL011 UART, virtio-mmio transport and queues,
  and the virtio block, network, GPU (2D, and the checks and bookkeeping of
  its 3D commands around the renderer), input, sound and console devices,
  the display frame and its statistics overlay, clipboard framing, the audio
  ring's render callback, configuration checks and vmnet helper replies.
- `tests/` — tests of the library on concrete values.
- `app/` — the program around it: configuration file, disk image, terminal,
  network helper process, pasteboard, window and the vCPU threads.
