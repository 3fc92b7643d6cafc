use kei::framebuffer::IoMemRegion;
use kei::raw_gpu::{
    attach_backing_cmd, banner_row, command_descriptors, cursor_bitmap, display_size, draw_desktop_banner,
    draw_text_into_row, encode_desc, features_accepted, font_glyph, get_display_info_cmd, move_cursor_cmd,
    plan_send, probe, queue_setup_writes, reset_writes, resource_create_2d_cmd, resource_flush_cmd,
    scanout_commands, set_scanout_cmd, slot_base, transfer_to_host_cmd, translate_va_to_pa, update_cursor_hw,
    GpuQueue, QueueLayout, RawGpuState, CURSOR_BUF_SIZE, FB_HEIGHT, FB_WIDTH, FLUSH_CAP, REG_DRIVER_FEATURES,
    REG_GUEST_PAGE_SIZE, REG_QUEUE_ALIGN, REG_QUEUE_NUM, REG_QUEUE_PFN, REG_QUEUE_SEL, REG_STATUS,
    VIRTIO_ID_GPU, VIRTIO_MAGIC,
};
use kei::virtio_core::{
    check_mmio_device, device_specified_features, driver_features, init_status_steps, MmioCommonDevice,
    MmioError, MmioRegisterError, VirtioMmioVersion, FEATURE_RING_EVENT_IDX, FEATURE_VERSION_1,
};
use kei::virtio_gpu::{
    response_wait_step, RespGeneric, ResponseWait, POLL_ITERS,
    check_ok, display_size_or_default, frames_of, negotiate_features, num_scanouts, query_display_info, CmdType,
    DisplayOne, GpuDevice, MemEntry, Rect, RespDisplayInfo, RespType, VirtioDeviceError, VirtioGpuCtrlHdr,
    DEFAULT_HEIGHT, DEFAULT_WIDTH,
};

fn le32(v: u32) -> Vec<u8> {
    v.to_le_bytes().to_vec()
}

fn header(cmd: u32) -> Vec<u8> {
    let mut b = le32(cmd);
    b.extend_from_slice(&[0u8; 20]);
    b
}

#[test]
fn probe_finds_gpus_in_slot_order() {
    let slots = [(VIRTIO_MAGIC, 2), (VIRTIO_MAGIC, VIRTIO_ID_GPU), (0, VIRTIO_ID_GPU), (VIRTIO_MAGIC, VIRTIO_ID_GPU)];
    let gpus = probe(&slots);
    assert_eq!(gpus, vec![slot_base(1), slot_base(3)]);
    assert_eq!(slot_base(1), 0xffff_8000_0a00_0200);
    assert!(features_accepted(0b1011));
    assert!(!features_accepted(0b0011));
}

#[test]
fn queue_layout_and_send_plan() {
    let l = QueueLayout::new(1024);
    assert_eq!((l.qsize, l.desc_size, l.avail_size, l.used_size), (64, 1024, 134, 518));
    assert_eq!(l.used_offset, 4096);
    assert_eq!(l.total, 4096 + 518);
    let small = QueueLayout::new(8);
    assert_eq!((small.qsize, small.used_offset), (8, 4096));
    let p = plan_send(33, 64);
    assert_eq!((p.cmd_slot, p.resp_slot, p.avail_pos, p.new_avail, p.next_idx), (2, 3, 33, 34, 34));
    let q = plan_send(0xffff, 64);
    assert_eq!(q.new_avail, 0);
}

#[test]
fn send_cmd_writes() {
    let l = QueueLayout::new(64);
    let q = GpuQueue::new(0x1000, 0x8000_0000, &l);
    assert_eq!(q.avail_base, 0x8000_0000 + 1024);
    assert_eq!(q.used_base, 0x8000_1000);
    let w = q.send_cmd(5, 5, 0x9000, 24, 0xA000, 408);
    assert_eq!(w.cmd_desc_addr, 0x8000_0000 + 10 * 16);
    assert_eq!(w.resp_desc_addr, 0x8000_0000 + 11 * 16);
    assert_eq!(w.cmd_desc, encode_desc(0x9000, 24, 1, 11));
    assert_eq!(w.resp_desc, encode_desc(0xA000, 408, 2, 0));
    assert_eq!((w.avail_entry_addr, w.avail_entry), (q.avail_base + 4 + 10, 10));
    assert_eq!((w.avail_idx_addr, w.avail_idx, w.expected_used), (q.avail_base + 2, 6, 6));
    let d = encode_desc(0x0102_0304_0506_0708, 9, 1, 3);
    assert_eq!(d, vec![8, 7, 6, 5, 4, 3, 2, 1, 9, 0, 0, 0, 1, 0, 3, 0]);
    let (c, r) = command_descriptors(&plan_send(1, 64), 1, 2, 3, 4);
    assert_eq!(c, encode_desc(1, 2, 1, 3));
    assert_eq!(r, encode_desc(3, 4, 2, 0));
}

#[test]
fn register_write_sequences() {
    assert_eq!(
        reset_writes(),
        vec![(REG_STATUS, 0), (REG_STATUS, 3), (REG_DRIVER_FEATURES, 0), (REG_STATUS, 11)]
    );
    let (before, after) = queue_setup_writes(64, 0x8040_0000);
    assert_eq!(before, vec![(REG_GUEST_PAGE_SIZE, 4096), (REG_QUEUE_SEL, 0)]);
    assert_eq!(
        after,
        vec![(REG_QUEUE_NUM, 64), (REG_QUEUE_ALIGN, 4096), (REG_QUEUE_PFN, 0x80400), (REG_STATUS, 15)]
    );
}

#[test]
fn command_encodings() {
    assert_eq!(get_display_info_cmd(), header(0x0100));
    let mut expected = header(0x0101);
    for v in [1u32, 2, 640, 480] {
        expected.extend(le32(v));
    }
    assert_eq!(resource_create_2d_cmd(1, 640, 480), expected);
    let b = attach_backing_cmd(1, 0x8000_0000, 4096);
    assert_eq!(b.len(), 48);
    assert_eq!(&b[24..32], &[1, 0, 0, 0, 1, 0, 0, 0]);
    assert_eq!(&b[32..40], &0x8000_0000u64.to_le_bytes());
    let s = set_scanout_cmd(1, 640, 480);
    assert_eq!(&s[32..36], &le32(640)[..]);
    assert_eq!(&s[44..48], &le32(1)[..]);
    assert_eq!(transfer_to_host_cmd(1, 2, 3).len(), 56);
    assert_eq!(resource_flush_cmd(1, 2, 3)[40..44], le32(1)[..]);
    let u = update_cursor_hw(2, 0, 0, 600, 400);
    assert_eq!(&u[0..4], &le32(0x0300)[..]);
    assert_eq!(&u[40..44], &le32(600)[..]);
    let m = move_cursor_cmd(7, 9);
    assert_eq!(m.len(), 52);
    assert_eq!(&m[0..4], &le32(0x0301)[..]);
    assert_eq!(&m[40..48], &[7, 0, 0, 0, 9, 0, 0, 0]);
    let (a, b, c) = scanout_commands();
    assert_eq!(a, resource_create_2d_cmd(1, FB_WIDTH, FB_HEIGHT));
    assert_eq!(b, attach_backing_cmd(1, 0x8000_0000, 4_096_000));
    assert_eq!(c, set_scanout_cmd(1, FB_WIDTH, FB_HEIGHT));
}

#[test]
fn display_size_from_response() {
    let mut resp = vec![0u8; 408];
    resp[0..4].copy_from_slice(&le32(0x1101));
    resp[32..36].copy_from_slice(&le32(1024));
    resp[36..40].copy_from_slice(&le32(768));
    assert_eq!(display_size(&resp), (1024, 768));
    resp[0..4].copy_from_slice(&le32(0x1200));
    assert_eq!(display_size(&resp), (FB_WIDTH, FB_HEIGHT));
}

#[test]
fn address_translation() {
    assert_eq!(translate_va_to_pa(0x0000_1234_5000, 0xffff_0000_0000_0abc), 0x1234_5abc);
    assert_eq!(translate_va_to_pa(1, 0xffff_8000_1000_0000), 0x1000_0000);
}

#[test]
fn flush_gating_and_cursor() {
    let mut s = RawGpuState::new();
    assert!(!s.is_ready());
    assert!(s.flush_framebuffer().is_none());
    assert_eq!(s.flush_count(), 0);
    assert!(s.init_cursor().is_none());
    assert!(s.move_cursor_hw(1, 2).is_none());
    assert_eq!(s.cursor(), (600, 400));
    assert_eq!(s.framebuffer_info(), None);
    s.mark_ready();
    assert!(s.is_ready());
    assert_eq!(s.framebuffer_info(), Some((0xffff_8000_8000_0000, 1280, 800, 5120)));
    assert_eq!((s.flush_count(), s.callback_count(), s.cursor()), (0, 0, (600, 400)));
    let (t, f) = s.flush_framebuffer().unwrap();
    assert_eq!(t, transfer_to_host_cmd(1, FB_WIDTH, FB_HEIGHT));
    assert_eq!(f, resource_flush_cmd(1, FB_WIDTH, FB_HEIGHT));
    assert_eq!(s.flush_count(), 1);
    while s.flush_count() < FLUSH_CAP {
        assert!(s.begin_flush());
    }
    assert!(!s.begin_flush());
    assert_eq!(s.flush_count(), FLUSH_CAP + 1);
    let cmds = s.init_cursor().unwrap();
    assert_eq!(cmds.len(), 4);
    assert_eq!(cmds[3], update_cursor_hw(2, 0, 0, 600, 400));
    assert_eq!(s.move_cursor_hw(10, 20), Some(move_cursor_cmd(10, 20)));
    assert_eq!(s.cursor(), (10, 20));
    s.raw_flush_callback();
    assert!(s.is_ready() && s.framebuffer_info().is_some());
}

#[test]
fn flush_callback_every_32nd() {
    let mut s = RawGpuState::new();
    let due: Vec<bool> = (0..65).map(|_| s.raw_flush_callback()).collect();
    assert!(due[0] && due[32] && due[64]);
    assert_eq!(due.iter().filter(|d| **d).count(), 3);
    assert_eq!(s.callback_count(), 65);
}

#[test]
fn cursor_image_and_banner() {
    let bm = cursor_bitmap();
    assert_eq!(bm.len(), CURSOR_BUF_SIZE);
    assert_eq!(&bm[0..4], &[0, 0, 0, 0xFF]);
    assert_eq!(&bm[63 * 4..64 * 4], &[0, 0, 0, 0]);
    assert_eq!(font_glyph(b' '), [0; 7]);
    assert_ne!(font_glyph(b'k'), [0; 7]);
    let top = banner_row(0);
    assert_eq!(top.len(), FB_WIDTH as usize * 4);
    assert_eq!(&top[0..4], &[0x3c, 0x2c, 0x1e, 0xFF]);
    let rows = draw_desktop_banner();
    assert_eq!(rows.len(), 60);
    assert_eq!(rows[5], banner_row(5));
    assert_ne!(rows[18], rows[0]);
    let mut row = vec![0u8; 64];
    draw_text_into_row(&mut row, 16, b"k", 0, 0, 1, 2, 3);
    let g = font_glyph(b'k');
    for x in 0..5 {
        let lit = (g[0] >> (7 - x)) & 1 == 1;
        assert_eq!(row[x * 4..x * 4 + 4] == [3, 2, 1, 0xFF], lit);
    }
}

#[test]
fn virtio_gpu_structs() {
    let h = VirtioGpuCtrlHdr::new(CmdType::ResourceFlush, 7);
    let bytes = h.to_bytes();
    assert_eq!(bytes.len(), 24);
    assert_eq!(VirtioGpuCtrlHdr::from_bytes(&bytes), h);
    assert_eq!(h.hdr_type, 0x0104);
    assert_eq!(RespType::from_code(0x1203), Some(RespType::ErrInvalidResourceId));
    assert_eq!(RespType::from_code(0x1300), None);
    assert_eq!(RespType::Okay.code(), 0x1100);
    assert_eq!(Rect { x: 1, y: 2, width: 3, height: 4 }.to_bytes(), [le32(1), le32(2), le32(3), le32(4)].concat());
    assert_eq!(MemEntry { addr: 5, length: 6, _padding: 0 }.to_bytes().len(), 16);
    assert_eq!(check_ok(0x1100), Ok(()));
    assert_eq!(check_ok(0x1101), Err(VirtioDeviceError::UnsupportedConfig));
    assert_eq!(num_scanouts(None), 1);
    assert_eq!(num_scanouts(Some(3)), 3);
    assert_eq!(negotiate_features(u64::MAX), 0);
    assert_eq!(frames_of(0), 0);
    assert_eq!(frames_of(4097), 2);
}

#[test]
fn display_info_query() {
    let mut raw = vec![0u8; 32];
    raw[0..4].copy_from_slice(&le32(0x1101));
    raw[4..8].copy_from_slice(&le32(1));
    raw[16..20].copy_from_slice(&le32(1920));
    raw[20..24].copy_from_slice(&le32(1080));
    raw[24..28].copy_from_slice(&le32(1));
    let r = RespDisplayInfo::from_bytes(&raw);
    assert_eq!(r.first, DisplayOne { r: Rect { x: 0, y: 0, width: 1920, height: 1080 }, enabled: 1, flags: 0 });
    assert_eq!(query_display_info(&r), Ok((1920, 1080)));
    let disabled = RespDisplayInfo { first: DisplayOne { enabled: 0, ..r.first }, ..r };
    assert_eq!(query_display_info(&disabled), Ok((DEFAULT_WIDTH, DEFAULT_HEIGHT)));
    let err = RespDisplayInfo { hdr_type: 0x1200, ..r };
    assert_eq!(query_display_info(&err), Err(VirtioDeviceError::UnsupportedConfig));
    assert_eq!(display_size_or_default(Err(VirtioDeviceError::UnsupportedConfig)), (800, 600));
}

#[test]
fn gpu_device_commands() {
    let d = GpuDevice::new(1, 800, 600);
    assert_eq!(d.line_size, 3200);
    assert_eq!(d.backing_size, 1_921_024);
    let (hdr, body) = d.transfer_to_host(2, 3, 10, 10, 9);
    assert_eq!(hdr.hdr_type, 0x0105);
    assert_eq!(hdr.fence_id, 9);
    assert_eq!(body.offset, 3 * 3200 + 8);
    assert_eq!(d.create_resource_2d().format, 2);
    assert_eq!(d.set_scanout().r, Rect { x: 0, y: 0, width: 800, height: 600 });
    let (ab, entry) = d.attach_backing(0x4000_0000);
    assert_eq!((ab.nentries, entry.addr, entry.length), (1, 0x4000_0000, 1_921_024));
}

#[test]
fn virtio_core_features_and_status() {
    assert_eq!(device_specified_features(u64::MAX), 0xFFFC_0000_00FF_FFFF);
    let offered = FEATURE_VERSION_1 | FEATURE_RING_EVENT_IDX | 0x3;
    let accepted = driver_features(offered, 0x1);
    assert_eq!(accepted, FEATURE_VERSION_1 | 0x1);
    assert_eq!(accepted & !offered, 0);
    assert_eq!(driver_features(0, u64::MAX), 0);
    assert_eq!(init_status_steps(false), vec![0, 3, 11]);
    assert_eq!(init_status_steps(true), vec![0, 3]);
    let dev = MmioCommonDevice::new(IoMemRegion::new(0x0a00_0000, 0x200), 48);
    assert_eq!((dev.io_mem_paddr(), dev.irq()), (0x0a00_0000, 48));
    assert_eq!(dev.read_version(2), Ok(VirtioMmioVersion::Modern));
    assert_eq!(dev.read_version(1), Ok(VirtioMmioVersion::Legacy));
    assert_eq!(VirtioMmioVersion::try_from(3), Err(MmioError::InvalidArgs));
    assert_eq!(check_mmio_device(0x7472_6976, 16), Ok(()));
    assert_eq!(check_mmio_device(0x7472_6976, 0), Err(MmioRegisterError::NoDevice));
    assert_eq!(check_mmio_device(0, 16), Err(MmioRegisterError::MagicMismatch));
}

#[test]
fn generic_response() {
    let mut raw = vec![0u8; 24];
    raw[0..4].copy_from_slice(&le32(0x1100));
    raw[8..16].copy_from_slice(&0x1122_3344_5566_7788u64.to_le_bytes());
    let r = RespGeneric::from_bytes(&raw);
    assert_eq!((r.hdr_type, r.fence_id), (0x1100, 0x1122_3344_5566_7788));
    assert_eq!(r.check(), Ok(()));
    raw[0..4].copy_from_slice(&le32(0x1203));
    assert_eq!(RespGeneric::from_bytes(&raw).check(), Err(VirtioDeviceError::UnsupportedConfig));
}

#[test]
fn response_waiting() {
    assert_eq!(response_wait_step(Some(3), 3, 0), ResponseWait::Arrived);
    assert_eq!(response_wait_step(Some(2), 3, 0), ResponseWait::Again);
    assert_eq!(response_wait_step(None, 3, 5), ResponseWait::Again);
    assert_eq!(response_wait_step(None, 3, POLL_ITERS - 1), ResponseWait::TimedOut);
    assert_eq!(response_wait_step(Some(3), 3, POLL_ITERS - 1), ResponseWait::Arrived);
}

#[test]
fn response_codes_read_back() {
    for t in [
        RespType::Okay,
        RespType::OkNodata,
        RespType::ErrUnspec,
        RespType::ErrOutOfMemory,
        RespType::ErrInvalidScanoutId,
        RespType::ErrInvalidResourceId,
        RespType::ErrInvalidContextId,
        RespType::ErrInvalidParameter,
    ] {
        assert_eq!(RespType::from_code(t.code()), Some(t));
    }
}
