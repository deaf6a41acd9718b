# machine_core

The guest-visible hardware of a chipset-less Amiga, written in Verus: every
device is executable Rust whose behaviour is stated in contracts and proved.
A board layer supplies a CPU core, storage, a display and time; this crate
decides what the guest sees.

## Devices

| Module | What |
|---|---|
| `bus` | the address space: chip RAM, a mirrored ROM window, open bus everywhere else |
| `chipset` | the custom-chip registers an operating system waits on, and the beam |
| `cia` | both CIAs: timers, time of day, keyboard handshake, ports, floppy lines |
| `blitter` | area and line blits with masks, shifts, fills and all 256 minterms |
| `autoconfig` | the Zorro II/III configuration chain |
| `fastram`, `graffity`, `hostblk`, `input`, `mirage` | the expansion cards on it |
| `cirrus` | the CL-GD542x graphics chip behind `graffity` |
| `gayle` | the A1200 IDE window, present and quiet |
| `display` | the pixels handed to a host, and Amiga colours |
| `block`, `memory`, `ring`, `be`, `slot` | what the devices share |

`board` holds the decisions of a board layer: watching a boot, the smoke
checks, sizing fast RAM, placing heap blocks, scaling a canvas, setting up a
framebuffer device, serial framing and finding the disk to serve.

## How it is specified

Each device has a view: a plain value that says what its registers, queues and
memories hold. A register read, a write, a tick or a host notification is a
spec function from one view to the next, and the executable function's
`ensures` says that it computes exactly that. What holds of a device as a
whole stands in public proof functions, most of them in a `laws` module beside
the device.

Block devices and guest RAM are supplied by the host through the traits
`BlockDevice` and `GuestMemory`. A block device is described by the record of
the transfers it was asked for; nothing is assumed of its answers.

Two functions of the standard library are trusted, both in `board::text`:
`String::push` and `core::str::from_utf8`.

## Layout

- `src/`: the verified library
- `tests/`: its tests
- `app/`: a UEFI program for QEMU's `q35`, and the parts of a bare-metal
  layer for QEMU's `virt`, which do the I/O the library decides on
