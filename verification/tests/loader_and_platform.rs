use kei::bsp::{ethernet, gpio, watchdog};
use kei::component::{
    component_base_path, init_all, match_and_call, match_component, parse_input, percent_decode_bytes, percent_decode_path,
    sort_by_priority, ComponentInfo, ComponentRegistry, InitStage,
};
use kei::console::{print_target, AnyConsoleDevice, Component, PrintTarget, UartConsole};
use kei::display::{
    framebuffer_geometry, mode_from_active, probe_display_controller, scan_framebuffer, window_offsets, DisplayMode, Rk3566Vop2,
    CLUSTER0_WIN_ACT_INFO, CLUSTER0_WIN_CTRL0, CLUSTER0_WIN_DSP_INFO, CLUSTER0_WIN_VIR, CLUSTER0_WIN_YRGB_MST,
    VP0_DSP_CTRL, WIN_CTRL_ARGB8888_ENABLED,
};
use kei::elf_load::{
    apply_relocations, aux_secure, code_range, init_aux_vec, plan_fixed_mapping, plan_segment,
    plan_shared_mapping, program_entry, relocated_segment, relocation_value, relocations, section_table,
    shared_map_range, AuxKey, RelocatedRange, Relocation, SectionTable,
};
use kei::errno::Errno;
use kei::kspace::{
    handle_page_fault, item_from_raw, item_raw_info, kernel_loaded_offset, null_page_map_addr, Arch,
    FaultAction, KernelLayout, MappedItem, PageFaultInfo, PageProperty, AVAIL1,
};
use kei::poll::{
    poll_fds_from_raw, poll_loop_step, PollStep,
    check_nfds, count_events_from, max_poll_iters, next_iface_poll, register_poller, sys_poll_timeout,
    CPollFd, IfacePollAction, PollFd, PollerResult, POLLIN, POLLNVAL, POLLOUT,
};
use kei::serial_console::{AccessMode, SerialConsole};
use kei::tls::{
    setup_tls, tls_alloc_size, tls_params, TlsLayout, TlsLayoutAarch64, TlsLayoutRiscv64, TlsLayoutX8664,
    TlsPhdr,
};
use kei::vbe_dispi::{
    dispi_supported, draw_rect, find_vga_framebuffer, mode_writes, pci_config_address, set_graphics_mode,
};

fn put_u16(b: &mut [u8], off: usize, v: u16) {
    b[off..off + 2].copy_from_slice(&v.to_le_bytes());
}

fn put_u32(b: &mut [u8], off: usize, v: u32) {
    b[off..off + 4].copy_from_slice(&v.to_le_bytes());
}

fn put_u64(b: &mut [u8], off: usize, v: u64) {
    b[off..off + 8].copy_from_slice(&v.to_le_bytes());
}

fn rela(offset: u64, r_type: u32, addend: u64) -> Vec<u8> {
    let mut e = vec![0u8; 24];
    put_u64(&mut e, 0, offset);
    put_u64(&mut e, 8, (7u64 << 32) | r_type as u64);
    put_u64(&mut e, 16, addend);
    e
}

/// An ELF file with a 64-byte header, one RELA section of three entries
/// at 0x100 and a section table of two 64-byte headers at 0x200.
fn elf_with_relocations() -> Vec<u8> {
    let mut f = vec![0u8; 0x280];
    put_u64(&mut f, 40, 0x200);
    put_u16(&mut f, 58, 64);
    put_u16(&mut f, 60, 2);
    let mut table = rela(0x1000, 1027, 0x50);
    table.extend(rela(0x1008, 1032, 0x60));
    table.extend(rela(0x1010, 257, 0x70));
    f[0x100..0x100 + 72].copy_from_slice(&table);
    put_u32(&mut f, 0x240 + 4, 4);
    put_u64(&mut f, 0x240 + 24, 0x100);
    put_u64(&mut f, 0x240 + 32, 72);
    f
}

#[test]
fn relocation_values() {
    assert_eq!(relocation_value(1027, 0x10, 0x4000), Some(0x4010));
    assert_eq!(relocation_value(1025, u64::MAX, 2), Some(1));
    assert_eq!(relocation_value(257, 0, 5), Some(5));
    assert_eq!(relocation_value(1032, 0x10, 0x4000), None);
    let mut t = rela(0x10, 1027, 0x20);
    t.extend(vec![0u8; 10]);
    assert_eq!(relocations(&t, 0x1000), vec![Relocation { addr: 0x1010, value: 0x1020 }]);
}

#[test]
fn relocations_of_an_elf_file() {
    let f = elf_with_relocations();
    assert_eq!(section_table(&f[0..64], 64), Some(SectionTable { shoff: 0x200, shentsize: 64, shnum: 2 }));
    assert_eq!(section_table(&f[0..64], 63), None);
    let r = apply_relocations(&f, 0x40_0000);
    assert_eq!(
        r,
        vec![
            Relocation { addr: 0x40_1000, value: 0x40_0050 },
            Relocation { addr: 0x40_1010, value: 0x40_0070 },
        ]
    );
    let mut no_table = f.clone();
    put_u64(&mut no_table, 40, 0);
    assert_eq!(apply_relocations(&no_table, 5), vec![]);
    assert_eq!(apply_relocations(&f[0..10], 5), vec![]);
}

#[test]
fn segment_mapping_plan() {
    let p = plan_segment(0x1234, 0x5678, 0x234, 0x1100, 0x40_1234);
    assert_eq!(p.total_map_size, 0x6000 - 0x1000);
    assert_eq!(p.segment_offset, 0);
    assert_eq!(p.segment_size, 0x2000);
    assert_eq!(p.map_offset, 0x40_1000);
    assert_eq!(p.zero_offset, 0x1100);
    assert_eq!(p.zero_size, 0x2000 - 0x1100);
    assert_eq!(p.anon_size, 0x5000 - 0x2000);
}

#[test]
fn shared_and_fixed_mappings() {
    let cap = 0x0000_8000_0000_0000usize;
    let pie = (cap / 3) * 2;
    let p = plan_shared_mapping(0x1000, 0x5800, 0x10000, true, 3, cap, 0x1_0000).unwrap();
    assert_eq!((p.aligned_start, p.aligned_end, p.map_size), (0, 0x10000, 0x10000));
    assert_eq!(p.fixed_offset, Some((pie + 3 * 4096) & !0xFFFF));
    assert_eq!(p.heap_base, None);
    let q = plan_shared_mapping(0x1000, 0x5800, 0x1000, false, 3, cap, 0x1_0000).unwrap();
    assert_eq!((q.fixed_offset, q.heap_base), (None, Some(pie)));
    assert_eq!(plan_shared_mapping(0, 0x1000, 0x1000, true, 0, cap, cap - 0x1000), Err(Errno::EPERM));
    let small_cap = 0x30_0000usize;
    assert_eq!(
        plan_shared_mapping(0, 0x20_0000, 0x1000, true, 0, small_cap, 0x1000),
        Err(Errno::ENOMEM)
    );
    assert_eq!(shared_map_range(&p, 0x1000, 0x5800, 0x7000_0000), (0x7000_1000, 0x7000_5800));
    assert_eq!(plan_fixed_mapping(0x40_0123, 0x40_2001, 0x1_0000), Ok((0x40_0000, 0x40_3000)));
    assert_eq!(plan_fixed_mapping(0x100, 0x2000, 0x1_0000), Err(Errno::EPERM));
    assert_eq!(code_range(&[(0x5000, 0x6000), (0x1000, 0x2000), (0x3000, 0x7000)]), (0x1000, 0x7000));
    assert_eq!(code_range(&[]), (0, 0));
}

#[test]
fn relocated_ranges_and_aux_vector() {
    assert!(RelocatedRange::new(0x1000, 0x3000, usize::MAX - 0x100).is_none());
    let r = RelocatedRange::new(0x1000, 0x3000, 0x7000_0000).unwrap();
    assert_eq!(r.relocated_addr_of(0x1800), Some(0x7000_0800));
    assert_eq!(r.relocated_addr_of(0x3000), None);
    assert_eq!(r.relocated_addr_of(0xfff), None);
    assert_eq!(r.load_bias(), 0x7000_0000 - 0x1000);
    assert_eq!(r.relocated_start(), 0x7000_0000);
    let down = RelocatedRange::new(0x5000, 0x6000, 0x1000).unwrap();
    assert_eq!(down.load_bias(), -0x4000);
    let aux = init_aux_vec(&r, Ok(0x1040), 9, 56, 0x1200, Some(0x9000_0000)).unwrap();
    assert_eq!(
        aux,
        vec![
            (AuxKey::AT_PAGESZ, 4096),
            (AuxKey::AT_PHDR, 0x7000_0040),
            (AuxKey::AT_PHNUM, 9),
            (AuxKey::AT_PHENT, 56),
            (AuxKey::AT_ENTRY, 0x7000_0200),
            (AuxKey::AT_BASE, 0x9000_0000),
        ]
    );
    assert_eq!(init_aux_vec(&r, Ok(0x1040), 9, 56, 0x1200, None).unwrap().len(), 5);
    assert_eq!(init_aux_vec(&r, Ok(0x9999), 9, 56, 0x1200, None), Err(Errno::ENOEXEC));
    assert_eq!(init_aux_vec(&r, Ok(0x1040), 9, 56, 0x10, None), Err(Errno::ENOEXEC));
    assert_eq!(init_aux_vec(&r, Err(Errno::EIO), 9, 56, 0x1200, None), Err(Errno::EIO));
    assert_eq!(AuxKey::AT_ENTRY.code(), 9);
    assert_eq!(aux_secure(false, true), 1);
    assert_eq!(aux_secure(false, false), 0);
    assert_eq!(program_entry(&r, 0x1200, Some(0x42)), Ok(0x42));
    assert_eq!(program_entry(&r, 0x1200, None), Ok(0x7000_0200));
    assert_eq!(program_entry(&r, 0x10, None), Err(Errno::ENOEXEC));
    assert_eq!(relocated_segment(&r, 0x2000, 0x100), (0x7000_1000, 0x7000_1100));
}

#[test]
fn tls_layouts() {
    assert_eq!(TlsLayoutAarch64::pthread_size(), 0xc8);
    assert_eq!(TlsLayoutRiscv64::pthread_size(), 0xc0);
    assert_eq!(TlsLayoutX8664::gap_above_tp(), 16);
    assert_eq!(TlsLayoutAarch64::dtv_entry_count(), 2);
    assert_eq!(TlsLayoutAarch64::total_alloc(100, 8), 4096);
    assert_eq!(TlsLayoutAarch64::total_alloc(4000, 64), 8192);
    assert_eq!(TlsLayoutAarch64::compute_tp(0x1000), 0x10c8);
    let none = tls_params(None);
    assert_eq!(none, TlsPhdr { memsz: 0, filesz: 0, align: 16, vaddr: 0 });
    let p = tls_params(Some(TlsPhdr { memsz: 40, filesz: 24, align: 8, vaddr: 0x2000 }));
    assert_eq!(p.align, 16);
    assert_eq!(tls_alloc_size::<TlsLayoutAarch64>(&none), 4096);
    assert_eq!(tls_alloc_size::<TlsLayoutAarch64>(&p), 4096);
}

#[test]
fn tls_block_setup() {
    let p = tls_params(Some(TlsPhdr { memsz: 40, filesz: 24, align: 8, vaddr: 0x2000 }));
    let s = setup_tls::<TlsLayoutAarch64>(&p, 0x40_0000, 0x10_0000);
    assert_eq!(s.td_addr, 0x10_0000 + 48 + 16);
    assert_eq!(s.tp, s.td_addr + 0xc8);
    assert_eq!(s.dtv_addr, s.tp);
    assert_eq!(
        s.writes,
        vec![
            (s.td_addr, s.td_addr as u64),
            (s.td_addr + 0xc8 - 8, s.dtv_addr as u64),
            (s.td_addr + 0x98, (s.td_addr + 0x40) as u64),
            (s.dtv_addr, 1),
            (s.dtv_addr + 8, 0x10_0000),
        ]
    );
    assert_eq!(s.template, Some(0x40_2000));
    let total = tls_alloc_size::<TlsLayoutAarch64>(&p);
    assert!(s.dtv_addr + 16 <= 0x10_0000 + total);
    let neg = setup_tls::<TlsLayoutAarch64>(&p, -5, 0x10_0000);
    assert_eq!(neg.template, Some(0x2000));
    let empty = tls_params(None);
    let e = setup_tls::<TlsLayoutRiscv64>(&empty, 0, 0x20_0000);
    assert_eq!(e.td_addr, 0x20_0000 + 16);
    assert_eq!(e.template, None);
    let (writes, tp) = TlsLayoutX8664::init_tcb(1, 0x1000, 0x10c8);
    assert_eq!(tp, 0x10c8);
    assert_eq!(writes.len(), 5);
}

#[test]
fn kernel_space() {
    assert_eq!(kernel_loaded_offset(Arch::Aarch64), 0xffff_8000_0000_0000);
    assert_eq!(kernel_loaded_offset(Arch::X86_64), 0xffff_ffff_8000_0000);
    let l = KernelLayout::new(48);
    assert_eq!(l.linear_mapping_base, 0xffff_8000_0000_0000);
    assert_eq!(l.max_userspace, 0x0000_8000_0000_0000 - 4096);
    assert_eq!(l.paddr_to_vaddr(0x4000_0000), 0xffff_8000_4000_0000);
    let l39 = KernelLayout::new(39);
    assert_eq!(l39.vmalloc_base, 0xffff_ffe0_0000_0000);
    let l57 = KernelLayout::new(57);
    assert_eq!(l57.linear_mapping_base, 0xff00_0000_0000_0000);
    assert_eq!(l57.vmalloc_base, 0xff80_0000_0000_0000);
    assert_eq!(l57.max_userspace, 0x0100_0000_0000_0000 - 4096);
    let f = PageFaultInfo::new(0x10, 2);
    assert!(!f.is_forced());
    assert!(f.force().is_forced());
    assert_eq!(null_page_map_addr(0x10), Some(0));
    assert_eq!(null_page_map_addr(0x1000), None);
    assert_eq!(handle_page_fault(0x10, true, false), Ok(FaultAction::NullPageMapped));
    assert_eq!(handle_page_fault(0x10, false, true), Ok(FaultAction::Mapping));
    assert_eq!(handle_page_fault(0x5000, true, false), Err(Errno::EACCES));
}

#[test]
fn poll_bookkeeping() {
    let raw = CPollFd { fd: -1, events: -1, revents: 0 };
    let p = PollFd::from(raw);
    assert_eq!(p.fd(), None);
    assert_eq!(p.events(), 0x27FF);
    assert_eq!(p.revents_for_missing_file(), 0);
    assert_eq!(PollFd::new(Some(3), POLLIN).revents_for_missing_file(), POLLNVAL);
    let mut fds = vec![PollFd::new(Some(0), POLLIN), PollFd::new(Some(1), POLLOUT), PollFd::new(Some(2), POLLIN)];
    assert_eq!(count_events_from(&mut fds, &[0, POLLOUT, POLLIN], 0), 2);
    assert_eq!(fds[1].revents(), POLLOUT);
    assert_eq!(fds[0].revents(), 0);
    let mut fresh = vec![PollFd::new(Some(0), POLLIN), PollFd::new(Some(1), POLLOUT)];
    assert_eq!(register_poller(&mut fresh, &[0, 0]), PollerResult::Registered);
    assert_eq!(register_poller(&mut fresh, &[0, POLLOUT]), PollerResult::FoundEvents(1));
    assert_eq!(fresh[0].revents(), 0);
    assert_eq!(fresh[1].revents(), POLLOUT);
    let mut three = vec![PollFd::new(Some(0), POLLIN), PollFd::new(Some(1), POLLOUT), PollFd::new(Some(2), POLLIN)];
    assert_eq!(register_poller(&mut three, &[POLLIN, 0, POLLIN]), PollerResult::FoundEvents(2));
    assert_eq!((three[0].revents(), three[1].revents(), three[2].revents()), (POLLIN, 0, POLLIN));
    let garbage = CPollFd { fd: 4, events: 1, revents: -1 };
    assert_eq!(PollFd::from(garbage).revents(), 0x27FF);
    let cleared = poll_fds_from_raw(&[garbage, raw]);
    assert_eq!(cleared.len(), 2);
    assert_eq!((cleared[0].fd(), cleared[0].events(), cleared[0].revents()), (Some(4), POLLIN, 0));
    assert_eq!((cleared[1].fd(), cleared[1].revents()), (None, 0));
    assert_eq!(sys_poll_timeout(-1), None);
    assert_eq!(sys_poll_timeout(25), Some(25));
    assert_eq!(check_nfds(10, 5), Err(Errno::EINVAL));
    assert_eq!(check_nfds(5, 5), Ok(()));
    assert_eq!(max_poll_iters(None), usize::MAX);
    assert_eq!(max_poll_iters(Some(0)), 1);
    assert_eq!(max_poll_iters(Some(3)), 300);
    assert_eq!(next_iface_poll(10, 5), IfacePollAction::PollNow);
    assert_eq!(next_iface_poll(10, 25), IfacePollAction::Wait(15));
}

#[test]
fn display_controller() {
    assert_eq!(window_offsets(), vec![0x1000, 0x1200, 0x1800, 0x1A00, 0x1C00, 0x1E00]);
    assert_eq!(scan_framebuffer(&[(0, 0x1000), (1, 0), (1, 0x3000_0000)]), Some(0x3000_0000));
    assert_eq!(scan_framebuffer(&[(0, 5)]), None);
    let m = mode_from_active(0x0001_0500, 0x02D0);
    assert_eq!((m.width, m.height, m.htotal, m.vtotal), (0x500, 0x2D0, 0x500 + 280, 0x2D0 + 45));
    assert_eq!(mode_from_active(0, 0x2D0), DisplayMode::hdmi_1080p60());
    assert!(Rk3566Vop2::probe(false, &[]).is_none());
    assert!(probe_display_controller(false, &[(1, 0x2000_0000)]).is_none());
    assert_eq!(probe_display_controller(true, &[(1, 0x2000_0000)]).unwrap().framebuffer_addr(), Some(0x2000_0000));
    let mut vop = Rk3566Vop2::probe(true, &[(1, 0x2000_0000)]).unwrap();
    assert_eq!(vop.framebuffer_addr(), Some(0x2000_0000));
    assert_eq!(vop.init(1280, 720), Ok(()));
    assert_eq!(vop.current_mode().unwrap().width, 1280);
    let (size, writes) = vop.set_framebuffer(0x3000_0000, 1280, 720, 5120, 0x8000_0001);
    assert_eq!(size, 720 * 5120);
    assert_eq!(
        writes,
        vec![
            (CLUSTER0_WIN_CTRL0, WIN_CTRL_ARGB8888_ENABLED),
            (CLUSTER0_WIN_YRGB_MST, 0x3000_0000),
            (CLUSTER0_WIN_VIR, 1280),
            (CLUSTER0_WIN_DSP_INFO, (719 << 16) | 1279),
            (CLUSTER0_WIN_ACT_INFO, (719 << 16) | 1279),
            (VP0_DSP_CTRL, 1),
        ]
    );
    assert_eq!(vop.framebuffer_addr(), Some(0x3000_0000));
    assert_eq!(vop.set_enabled(false), (CLUSTER0_WIN_CTRL0, 0));
    let (mode, line, total) = framebuffer_geometry(None);
    assert_eq!(mode, DisplayMode::hdmi_1080p60());
    assert_eq!((line, total), (1920 * 4, 1920 * 4 * 1080));
    assert_eq!(framebuffer_geometry(Some(DisplayMode::hdmi_720p60())).1, 1280 * 4);
}

#[test]
fn vbe_dispi_mode_setting() {
    assert_eq!(pci_config_address(0, 2, 0, 0x10), 0x8000_1010);
    assert_eq!(mode_writes(1024, 768, 32).len(), 9);
    assert_eq!(mode_writes(1024, 768, 32)[8], (4, 0x41));
    assert!(dispi_supported(0xB0C5));
    assert!(!dispi_supported(0xB0B0));
    let devs = [(0xFFFF_FFFF, 0x0300_0000, 0), (0x1111_1234, 0x0200_0000, 0x10), (0x1111_1234, 0x0300_0000, 0xFD00_0008)];
    assert_eq!(find_vga_framebuffer(&devs), Some(0xFD00_0000));
    assert_eq!(set_graphics_mode(0xB0C5, 800, 600, 32, Some(0xFD00_0000)), Some((0xFD00_0000, 800, 600, 32)));
    assert_eq!(set_graphics_mode(0xB0B0, 800, 600, 32, Some(0xFD00_0000)), None);
    assert_eq!(set_graphics_mode(0xB0C5, 800, 600, 32, None), None);
    let mut mem = vec![0u8; 4 * 4 * 4];
    draw_rect(&mut mem, 4, 4, 32, 3, 3, 5, 5, 1, 2, 3);
    assert_eq!(&mem[(3 * 4 + 3) * 4..(3 * 4 + 4) * 4], &[3, 2, 1, 0xFF]);
    assert_eq!(&mem[0..4], &[0, 0, 0, 0]);
    let mut shallow = vec![0u8; 16];
    draw_rect(&mut shallow, 4, 4, 16, 0, 0, 2, 2, 1, 2, 3);
    assert_eq!(shallow, vec![0u8; 16]);
}

#[test]
fn console_devices_and_uart() {
    let mut c = Component::init();
    c.register_device(b"uart".to_vec(), 2);
    c.register_device(b"fb".to_vec(), 1);
    c.register_device(b"uart".to_vec(), 3);
    let all = c.all_devices();
    assert_eq!(all, vec![(b"fb".to_vec(), 1), (b"uart".to_vec(), 3)]);
    assert_eq!(print_target(true, 2), PrintTarget::Devices);
    assert_eq!(print_target(true, 0), PrintTarget::Early);
    assert_eq!(print_target(false, 2), PrintTarget::Early);
    let mut u = UartConsole::new();
    assert_eq!(u.send(b"a\nb"), b"a\r\nb".to_vec());
    u.register_callback(7);
    assert_eq!(u.callbacks, vec![7]);
}

#[test]
fn serial_console_file() {
    let ro = SerialConsole::new(AccessMode::ReadOnly);
    let wo = SerialConsole::new(AccessMode::WriteOnly);
    assert_eq!(ro.read(b"abc"), Ok(3));
    assert_eq!(ro.read(b""), Err(Errno::EAGAIN));
    assert_eq!(wo.read(b"abc"), Err(Errno::EBADF));
    assert_eq!(ro.write(b"x"), Err(Errno::EBADF));
    let big = vec![7u8; 2000];
    assert_eq!(wo.write(&big).unwrap().len(), 1024);
    assert_eq!(wo.poll(0x5), 0x5);
    assert_eq!(wo.poll(0x4), 0x4);
}

#[test]
fn component_paths() {
    assert_eq!(percent_decode_path(b"a%20b%2Fc%zz%4"), b"a b/c%zz%4".to_vec());
    assert_eq!(percent_decode_path(b"plain"), b"plain".to_vec());
    assert_eq!(percent_decode_path(b"/ws/%E4%B8%AD/lib.rs"), "/ws/\u{4e2d}/lib.rs".as_bytes().to_vec());
    assert_eq!(percent_decode_path(b"a%FFb"), vec![b'a', 0xEF, 0xBF, 0xBD, b'b']);
    assert_eq!(percent_decode_bytes(b"a%FFb"), vec![b'a', 0xFF, b'b']);
    assert_eq!(component_base_path(b"kernel\\comps\\pci\\src\\lib.rs"), Some(b"kernel/comps/pci".to_vec()));
    assert_eq!(component_base_path(b"/abs/kernel/comps/input/src/lib.rs"), Some(b"/abs/kernel/comps/input".to_vec()));
    assert_eq!(component_base_path(b"kernel/tests/foo.rs"), Some(b"kernel".to_vec()));
    assert_eq!(component_base_path(b"main.rs"), None);
    let comps = vec![
        ComponentInfo::new(b"input", b"kernel/comps/input", 1),
        ComponentInfo::new(b"kinput", b"comps/input", 2),
        ComponentInfo::new(b"pci", b"kernel/comps/pci", 3),
    ];
    assert_eq!(match_component(&comps, &b"kernel/comps/pci".to_vec()), Some(2));
    assert_eq!(match_component(&comps, &b"/abs/kernel/comps/input".to_vec()), Some(0));
    assert_eq!(match_component(&comps, &b"/abs/kernel/comps/net".to_vec()), None);
    assert_eq!(match_component(&comps, &b"xcomps/input".to_vec()), None);
}

#[test]
fn component_ordering() {
    let mut v = vec![(3, 0), (1, 1), (3, 2), (1, 3), (2, 4)];
    sort_by_priority(&mut v);
    assert_eq!(v, vec![(1, 1), (1, 3), (2, 4), (3, 0), (3, 2)]);
    let parsed = parse_input(vec![
        ComponentInfo::new(b"a", b"comps/%61", 5),
        ComponentInfo::new(b"b", b"comps/b", 1),
        ComponentInfo::new(b"a2", b"comps/a", 2),
    ]);
    assert_eq!(parsed.len(), 2);
    let a = parsed.iter().find(|c| c.path == b"comps/a".to_vec()).unwrap();
    assert_eq!((a.name.clone(), a.priority), (b"a2".to_vec(), 2));
    let regs = vec![
        ComponentRegistry::new(InitStage::Bootstrap, b"/w/comps/b/src/lib.rs"),
        ComponentRegistry::new(InitStage::Kthread, b"comps/a/src/lib.rs"),
        ComponentRegistry::new(InitStage::Bootstrap, b"comps/a/src/init.rs"),
        ComponentRegistry::new(InitStage::Bootstrap, b"comps/zzz/src/lib.rs"),
    ];
    let (calls, left) = match_and_call(InitStage::Bootstrap, &regs, parsed);
    assert_eq!(calls, vec![(1, 0), (2, 2)]);
    assert!(left.is_empty());
    let comps = vec![ComponentInfo::new(b"b", b"comps/b", 4), ComponentInfo::new(b"c", b"comps/c", 0)];
    let calls = init_all(InitStage::Bootstrap, &regs, comps).unwrap();
    assert_eq!(calls, vec![(4, 0)]);
}

#[test]
fn board_support_stubs() {
    let eth = ethernet::init();
    assert_eq!(eth.len(), 2);
    assert!(!eth[1].link_up());
    assert_eq!(eth[0].mac_address(), [0; 6]);
    assert!(eth[0].receive().is_none());
    let pin = gpio::GpioPin::new(1, 2);
    assert!(!pin.read());
    let w = watchdog::init(10);
    w.feed();
    w.disable();
}

#[test]
fn busy_poll_steps() {
    assert_eq!(poll_loop_step(0, 1, 0), PollStep::TimedOut);
    assert_eq!(poll_loop_step(0, 300, 0), PollStep::Again);
    assert_eq!(poll_loop_step(299, 300, 0), PollStep::TimedOut);
    assert_eq!(poll_loop_step(299, 300, 2), PollStep::Ready(2));
}

#[test]
fn page_table_item_round_trip() {
    let prop = PageProperty { flags: 3, cache: 1, priv_flags: 0b10 };
    let frame_item = MappedItem::TrackedFrame { paddr: 0x4000, level: 1, prop };
    let (pa, lv, raw) = item_raw_info(&frame_item);
    assert_eq!((pa, lv, raw.priv_flags), (0x4000, 1, 0b10 | AVAIL1));
    assert_eq!(
        item_from_raw(pa, lv, raw),
        MappedItem::TrackedFrame { paddr: 0x4000, level: 1, prop: PageProperty { priv_flags: 0b10 | AVAIL1, ..prop } }
    );
    let untracked = MappedItem::Untracked { paddr: 0x20_0000, level: 2, prop };
    let (pa, lv, raw) = item_raw_info(&untracked);
    assert_eq!(raw, prop);
    assert_eq!(item_from_raw(pa, lv, raw), untracked);
    let marked = PageProperty { priv_flags: AVAIL1 | 1, ..prop };
    let (_, _, cleared) = item_raw_info(&MappedItem::Untracked { paddr: 0, level: 1, prop: marked });
    assert_eq!(cleared.priv_flags, 1);
}
