//! Verified core logic of the kei kernel: framebuffer geometry and colour
//! maps, the Sixel image decoder, the boot framebuffer console, the
//! `/dev/fb0` ioctl logic, TLS layout planning, signal masks, seeking,
//! the VGA text console, component ordering, virtio-gpu command encoding,
//! ELF relocation parsing and a few board support stubs.

pub mod align;
pub mod bsp;
pub mod component;
pub mod console;
pub mod display;
pub mod elf_load;
pub mod errno;
pub mod fb_console;
pub mod fb_device;
pub mod file_seek;
pub mod fb_console_sixel;
pub mod framebuffer;
pub mod kspace;
pub mod pixel;
pub mod poll;
pub mod raw_gpu;
pub mod rootfs;
pub mod serial_console;
pub mod sigmask;
pub mod sixel;
pub mod sixel_grid;
pub mod tls;
pub mod vbe_dispi;
pub mod vga_text;
pub mod virtio_core;
pub mod virtio_gpu;
pub mod wire;

