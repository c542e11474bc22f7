//! Capability providers and middlewares of the Eo9 system, as verified logic.
//!
//! Every module holds the decisions of one provider: its state, its rules, its wire
//! formats and its error answers. Device registers, clocks, links and consoles are
//! reached by the caller: a provider that alternates with them is a step function from
//! a state and an event to the next state and the next action.
pub mod bytes;
pub mod device;
pub mod disk;
pub mod disk_mem;
pub mod disk_part;
pub mod disk_virtio;
pub mod entropy_seeded;
pub mod frames;
pub mod fs;
pub mod fs_eofs;
pub mod fs_filtered;
pub mod fs_memfs;
pub mod fs_overlay;
pub mod fs_policy_subtree;
pub mod fs_readonly;
pub mod gfx;
pub mod gfx_mem;
pub mod gpu_virtio;
pub mod l2;
pub mod l2_bridge;
pub mod l2_echo;
pub mod l2_ports;
pub mod l2_switch;
pub mod l4;
pub mod l4_addressing;
pub mod l4_filtered;
pub mod l4_loopback;
pub mod l4_over_l2;
pub mod l4_wait;
pub mod net_rtl8125;
pub mod net_text;
pub mod net_virtio;
pub mod pci_filtered;
pub mod policy_ports;
pub mod refusal;
pub mod restart;
pub mod rtl8125;
pub mod rtl8125_programs;
pub mod slot;
pub mod stack;
pub mod text;
pub mod time;
pub mod usb_kbd;
pub mod virtio;
pub mod virtio_start;
