# eo9_stubs

The provider stubs of the Eo9 system as a verified library: disks, filesystems, displays,
network links, transports, clocks, policies and a keyboard service. Each provider answers
one interface of the system, and many of them stand over another provider.

## How it is laid out

- `src/` holds the providers' logic. Every function has a contract that Verus proves, and
  the functions named `law_...` state what holds of a provider as a whole.
- `app/` connects the logic to hosts. It performs what the library asks for, and hands back
  what came of it.
- `tests/` runs the library against devices, disks and peers in memory.

A provider that waits for something outside is a machine: a step takes what came and gives
what is wanted next. So the library itself never touches a device, a clock or a link.

| Area | Modules |
| --- | --- |
| Shared | `text`, `bytes`, `device`, `slot`, `refusal`, `restart`, `time`, `entropy_seeded` |
| Virtio | `virtio`, `virtio_start`, `disk_virtio`, `gpu_virtio`, `net_virtio` |
| Network controller | `rtl8125`, `rtl8125_programs`, `net_rtl8125` |
| Disks | `disk`, `disk_mem`, `disk_part` |
| Filesystems | `fs`, `fs_memfs`, `fs_eofs`, `fs_overlay`, `fs_readonly`, `fs_filtered`, `fs_policy_subtree` |
| Displays | `gfx`, `gfx_mem` |
| Links | `l2`, `frames`, `l2_echo`, `l2_ports`, `l2_switch`, `l2_bridge` |
| Transports | `l4`, `l4_loopback`, `l4_addressing`, `l4_over_l2`, `l4_wait`, `l4_filtered`, `stack`, `net_text` |
| Other policies | `policy_ports`, `pci_filtered` |
| Keyboard | `usb_kbd` |

## What is taken on trust

`stack` wraps the calls into [smoltcp](https://docs.rs/smoltcp), the TCP/IP engine; the
contract of each wrapper says what is claimed of the engine. `text` and `net_text` wrap
three functions of the standard library in the same way.
