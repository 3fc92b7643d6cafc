use kei::errno::Errno;
use kei::fb_device::{
    collect_fix_screen_info, collect_var_screen_info, handle_get_cmap, handle_set_cmap, ioctl, mappable, open,
    poll, read_at, set_cmap_range_ok, write_at, FbBitfield, FbCmapUser, FbIoctl, FBIOBLANK, FBIOGETCMAP,
    FBIOGET_FSCREENINFO, FBIOGET_VSCREENINFO, FBIOPAN_DISPLAY, FBIOPUTCMAP, FBIO_MOVE_CURSOR, POLLIN, POLLOUT,
};
use kei::framebuffer::{
    boot_framebuffer_geometry, BlitBackend, ColorMapEntry, FbError, FrameBuffer, FrameBufferBackend,
    FrameBufferSlot, IoMemRegion, MAX_CMAP_SIZE,
};
use kei::pixel::PixelFormat;

fn mmio_fb(size: usize) -> FrameBuffer {
    FrameBuffer::new_mmio(IoMemRegion::new(0xfd00_0000, size), 4, 2, 16, PixelFormat::BgrReserved)
}

fn entry(v: u16) -> ColorMapEntry {
    ColorMapEntry { red: v, green: v + 1, blue: v + 2, transp: v + 3 }
}

#[test]
fn new_framebuffers_start_cleared() {
    let fb = mmio_fb(32);
    assert_eq!(fb.buffer_size(), 32);
    assert_eq!(fb.read_bytes_at(0, 32), Ok(vec![0u8; 32]));
    assert!(fb.is_mmio());
    assert_eq!(fb.physical_address(), Some(0xfd00_0000));
    assert_eq!(fb.io_mem(), Some(IoMemRegion { paddr: 0xfd00_0000, size: 32 }));
    assert_eq!(fb.flush_all(), None);
}

#[test]
fn write_then_read_gives_bytes_back() {
    let mut fb = mmio_fb(32);
    assert_eq!(fb.write_bytes_at(5, &[1, 2, 3]), Ok(()));
    assert_eq!(fb.read_bytes_at(5, 3), Ok(vec![1, 2, 3]));
    assert_eq!(fb.read_bytes_at(4, 5), Ok(vec![0, 1, 2, 3, 0]));
    assert_eq!(fb.write_bytes_at(30, &[9, 9, 9]), Err(FbError::InvalidArgs));
    assert_eq!(fb.read_bytes_at(31, 2), Err(FbError::InvalidArgs));
}

#[test]
fn clear_zeroes_and_flushes_blit() {
    let base = 0xffff_8000_0010_0000usize;
    let mut fb = FrameBuffer::new_blit(BlitBackend::new(base, 16), 2, 2, 8, PixelFormat::BgrReserved);
    fb.write_bytes_at(0, &[7; 16]).unwrap();
    assert_eq!(fb.clear(), Some((0, 0, 2, 2)));
    assert_eq!(fb.read_bytes_at(0, 16), Ok(vec![0u8; 16]));
    assert_eq!(fb.physical_address(), Some(0x10_0000));
    assert_eq!(fb.flush(1, 1, 1, 1), Some((1, 1, 1, 1)));
    assert!(!fb.is_mmio());
}

#[test]
fn reads_give_back_the_last_write_there() {
    let mut fb = mmio_fb(32);
    assert_eq!(fb.write_bytes_at(8, &[1, 2, 3]), Ok(()));
    assert_eq!(fb.write_bytes_at(11, &[9, 9]), Ok(()));
    assert_eq!(fb.write_bytes_at(0, &[7; 8]), Ok(()));
    assert_eq!(fb.write_bytes_at(9, &[5; 40]), Err(FbError::InvalidArgs));
    assert_eq!(fb.read_bytes_at(8, 3), Ok(vec![1, 2, 3]));
    assert_eq!(fb.write_bytes_at(9, &[4]), Ok(()));
    assert_eq!(fb.read_bytes_at(8, 3), Ok(vec![1, 4, 3]));
}

#[test]
fn second_publish_hands_back_the_framebuffer_untouched() {
    let mut slot = FrameBufferSlot::new();
    assert!(slot.publish(mmio_fb(16)).is_ok());
    let mut second = mmio_fb(16);
    second.write_bytes_at(0, &[3, 1, 4]).unwrap();
    let back = slot.publish(second).unwrap_err();
    assert_eq!(back.read_bytes_at(0, 4), Ok(vec![3, 1, 4, 0]));
    assert_eq!(slot.get().unwrap().read_bytes_at(0, 4), Ok(vec![0; 4]));
}

#[test]
fn pixel_offsets() {
    let fb = mmio_fb(32);
    let mut o = fb.calc_offset(1, 1);
    assert_eq!(o.as_usize(), 4 + 16);
    o.x_add(2);
    assert_eq!(o.as_usize(), 28);
    o.y_add(-1);
    assert_eq!(o.as_usize(), 12);
}

#[test]
fn color_map_get_after_set() {
    let mut fb = mmio_fb(8);
    let entries = [entry(10), entry(20)];
    assert_eq!(fb.set_color_map(3, &entries), Ok(()));
    assert_eq!(fb.get_color_map(3, 2), Some(entries.to_vec()));
    assert_eq!(fb.get_color_map(0, 1), Some(vec![ColorMapEntry { red: 0, green: 0, blue: 0, transp: 0 }]));
    assert_eq!(fb.get_color_map(4, 2), None);
    assert_eq!(fb.set_color_map(MAX_CMAP_SIZE - 1, &entries), Err(FbError::InvalidArgs));
    assert_eq!(fb.set_color_map(0, &[entry(1)]), Ok(()));
    assert_eq!(fb.get_color_map(3, 2), Some(entries.to_vec()));
}

#[test]
fn slot_keeps_first_framebuffer() {
    let mut slot = FrameBufferSlot::new();
    assert!(slot.get().is_none());
    let mut first = mmio_fb(8);
    first.write_bytes_at(0, &[1; 8]).unwrap();
    assert_eq!(slot.publish(first).ok(), Some(None));
    assert_eq!(slot.get().unwrap().read_bytes_at(0, 8), Ok(vec![0u8; 8]));
    let second = mmio_fb(16);
    assert!(slot.publish(second).is_err());
    assert_eq!(slot.get().unwrap().buffer_size(), 8);
}

#[test]
fn boot_geometry_by_depth() {
    assert_eq!(boot_framebuffer_geometry(0x1000, 640, 480, 32), Some((PixelFormat::BgrReserved, 2560, 1_228_800)));
    assert_eq!(boot_framebuffer_geometry(0x1000, 10, 2, 16), Some((PixelFormat::Rgb565, 20, 40)));
    assert_eq!(boot_framebuffer_geometry(0, 640, 480, 32), None);
    assert_eq!(boot_framebuffer_geometry(0x1000, 640, 480, 12), None);
}

#[test]
fn var_and_fix_info() {
    let fb = FrameBuffer::new_mmio(IoMemRegion::new(0xe000_0000, 1280 * 800 * 4), 1280, 800, 5120, PixelFormat::BgrReserved);
    let v = collect_var_screen_info(&fb);
    assert_eq!((v.xres, v.yres, v.xres_virtual, v.yres_virtual), (1280, 800, 1280, 800));
    assert_eq!(v.bits_per_pixel, 32);
    assert_eq!(v.red, FbBitfield { offset: 16, length: 8, msb_right: 0 });
    assert_eq!(v.transp, FbBitfield { offset: 24, length: 8, msb_right: 0 });
    assert_eq!(v.pixclock, 10_000_000 / 1280 * 1000 / 800);
    assert_eq!(v.left_margin, (1280 / 8) & 0xf8);
    assert_eq!(v.right_margin, 32);
    let f = collect_fix_screen_info(&fb);
    assert_eq!(f.smem_start, 0xe000_0000);
    assert_eq!(f.smem_len, 1280 * 800 * 4);
    assert_eq!(f.line_length, 5120);
    let g = FbBitfield::from_pixel_format(PixelFormat::Rgb565);
    assert_eq!((g.0.offset, g.0.length, g.1.offset, g.1.length, g.2.length), (11, 5, 5, 6, 5));
}

#[test]
fn cmap_ioctls() {
    let mut fb = mmio_fb(8);
    let req = FbCmapUser { start: 2, len: 2, red: 0x100, green: 0x200, blue: 0x300, transp: 0 };
    assert!(set_cmap_range_ok(&req));
    assert_eq!(handle_set_cmap(&mut fb, &req, &[1, 2], &[3, 4], &[5, 6], None), Ok(()));
    let got = handle_get_cmap(&fb, &req).unwrap().unwrap();
    assert_eq!((got.red, got.green, got.blue), (vec![1, 2], vec![3, 4], vec![5, 6]));
    assert!(got.transp.is_none());
    let with_t = FbCmapUser { transp: 0x400, ..req };
    assert_eq!(handle_get_cmap(&fb, &with_t).unwrap().unwrap().transp, Some(vec![0, 0]));
    let beyond = FbCmapUser { start: 3, len: 2, ..req };
    assert!(matches!(handle_get_cmap(&fb, &beyond), Err(Errno::EINVAL)));
    let empty = FbCmapUser { len: 0, ..req };
    assert!(matches!(handle_get_cmap(&fb, &empty), Ok(None)));
    let too_far = FbCmapUser { start: 255, len: 2, ..req };
    assert!(!set_cmap_range_ok(&too_far));
    assert_eq!(handle_set_cmap(&mut fb, &too_far, &[1, 1], &[1, 1], &[1, 1], None), Err(Errno::EINVAL));
}

#[test]
fn device_read_write_poll() {
    let mut fb = mmio_fb(8);
    assert_eq!(write_at(&mut fb, 6, &[1, 2, 3]), Ok(2));
    assert_eq!(read_at(&fb, 5, 10), vec![0, 1, 2]);
    assert_eq!(read_at(&fb, 8, 10), Vec::<u8>::new());
    assert_eq!(write_at(&mut fb, 8, &[1]), Err(Errno::ENOSPC));
    assert_eq!(write_at(&mut fb, 0, &[]), Ok(0));
    assert_eq!(poll(POLLIN | POLLOUT | 0x8), POLLIN | POLLOUT);
    assert_eq!(poll(POLLIN), POLLIN);
}

#[test]
fn ioctl_commands() {
    assert!(matches!(ioctl(FBIOGET_VSCREENINFO, 0), Ok(FbIoctl::WriteVarInfo)));
    assert!(matches!(ioctl(FBIOGET_FSCREENINFO, 0), Ok(FbIoctl::WriteFixInfo)));
    assert!(matches!(ioctl(FBIOGETCMAP, 0), Ok(FbIoctl::GetColorMap)));
    assert!(matches!(ioctl(FBIOPUTCMAP, 0), Ok(FbIoctl::PutColorMap)));
    assert!(matches!(ioctl(FBIOPAN_DISPLAY, 0), Ok(FbIoctl::Flush { cursor: None })));
    assert!(matches!(ioctl(FBIOPAN_DISPLAY, (7 << 16) | 5), Ok(FbIoctl::Flush { cursor: Some((5, 7)) })));
    assert!(matches!(ioctl(FBIO_MOVE_CURSOR, (3 << 16) | 0x2), Ok(FbIoctl::MoveCursor { x: 2, y: 3 })));
    assert!(matches!(ioctl(FBIO_MOVE_CURSOR, 0x1_0000_0000 | (3 << 16) | 0x2), Ok(FbIoctl::MoveCursor { x: 2, y: 3 })));
    assert!(matches!(ioctl(FBIOBLANK, 1), Err(Errno::EINVAL)));
    assert!(matches!(ioctl(0x1234, 1), Err(Errno::ENOTTY)));
}

#[test]
fn mapping_and_open() {
    let fb = mmio_fb(64);
    assert_eq!(mappable(&fb), Ok((0xfd00_0000, 64)));
    let low = FrameBuffer::new_blit(BlitBackend::new(0x4000, 64), 4, 4, 16, PixelFormat::BgrReserved);
    assert_eq!(mappable(&low), Err(Errno::ENODEV));
    assert_eq!(open(true), Ok(()));
    assert!(open(false).is_err());
    assert!(matches!(FrameBuffer::new_mmio(IoMemRegion::new(1, 1), 1, 1, 1, PixelFormat::Grayscale8).backend, FrameBufferBackend::Mmio(_)));
}

#[test]
fn write_pixel_at_offset() {
    let mut fb = mmio_fb(32);
    let o = fb.calc_offset(1, 1);
    assert_eq!(fb.write_pixel_at(o, &[1, 2, 3, 4]), Ok(()));
    assert_eq!(fb.read_bytes_at(20, 4), Ok(vec![1, 2, 3, 4]));
    let last = fb.calc_offset(3, 1);
    assert_eq!(fb.write_pixel_at(last, &[9; 8]), Err(FbError::InvalidArgs));
    let mut above = fb.calc_offset(0, 0);
    above.y_add(-1);
    assert_eq!(above.as_usize(), usize::MAX - 15);
    assert_eq!(fb.write_pixel_at(above, &[5; 4]), Err(FbError::InvalidArgs));
    assert_eq!(fb.read_bytes_at(0, 32).unwrap().iter().filter(|b| **b == 5).count(), 0);
}

#[test]
fn row_moves_match_recomputed_offsets() {
    let fb = mmio_fb(64);
    for (x, y, dy) in [(1usize, 2usize, 1isize), (3, 3, -2), (0, 1, -1), (2, 0, 0)] {
        let mut o = fb.calc_offset(x, y);
        o.y_add(dy);
        let target = fb.calc_offset(x, (y as isize + dy) as usize);
        assert_eq!(o.as_usize(), target.as_usize());
    }
}
