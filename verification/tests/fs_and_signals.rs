use kei::errno::Errno;
use kei::file_seek::{
    check_fallocate, check_not_path, check_range_lock, check_readable, check_resizable, check_writable,
    do_seek_util, ensure_positional_io, ioctl_target, is_offset_aware, mappable_kind, open_rights, poll_plain,
    seek, write_offset, FallocFlags, FallocMode, InodeType, MappableKind, RangeLockType, Rights, SeekFrom,
    SeekTarget, EVENT_IN, EVENT_NVAL, EVENT_OUT,
};
use kei::rootfs::{entry_path, initramfs_archive, node_kind, EntryPath, FileType, NodeKind};
use kei::sigmask::{
    do_rt_sigprocmask, new_sig_mask, sys_rt_sigprocmask, sys_setsockopt, MaskOp, KILL_STOP,
};
use kei::wire::{push_u16, push_u32, push_u64, push_zeros, read_u16_le, read_u32_le, read_u64_le};

const GZIP_HELLO_CPIO: [u8; 30] = [
    31, 139, 8, 0, 0, 0, 0, 0, 2, 3, 203, 72, 205, 201, 201, 87, 72, 46, 200, 204, 7, 0, 109, 117, 47, 208,
    10, 0, 0, 0,
];

#[test]
fn initramfs_plain_archive_is_kept() {
    let buf = b"070701rest-of-archive";
    let (data, gz) = initramfs_archive(buf).unwrap();
    assert_eq!(data, buf.to_vec());
    assert!(!gz);
}

#[test]
fn initramfs_gzip_archive_is_inflated() {
    let (data, gz) = initramfs_archive(&GZIP_HELLO_CPIO).unwrap();
    assert!(gz);
    assert_eq!(data, b"hello cpio".to_vec());
}

#[test]
fn initramfs_broken_gzip_is_einval() {
    let mut broken = GZIP_HELLO_CPIO.to_vec();
    broken.truncate(12);
    assert_eq!(initramfs_archive(&broken), Err(Errno::EINVAL));
    let bad_method = [0x1Fu8, 0x8B, 0x07, 0, 0, 0, 0, 0, 0, 0, 0, 0, 0, 0, 0, 0, 0, 0, 0, 0];
    assert_eq!(initramfs_archive(&bad_method), Err(Errno::EINVAL));
}

#[test]
fn entry_paths_split_at_last_slash() {
    assert_eq!(entry_path(b"."), Ok(EntryPath::Skip));
    assert_eq!(entry_path(b"/bin/"), Ok(EntryPath::Root { name: b"bin".to_vec() }));
    assert_eq!(
        entry_path(b"usr/lib/libc.so"),
        Ok(EntryPath::Child { prefix: b"usr/lib".to_vec(), name: b"libc.so".to_vec() })
    );
    assert_eq!(entry_path(b"//"), Err(Errno::EINVAL));
    assert_eq!(entry_path(b""), Err(Errno::EINVAL));
}

#[test]
fn node_kinds_of_entries() {
    assert_eq!(node_kind(FileType::File), Ok(NodeKind::File));
    assert_eq!(node_kind(FileType::Link), Ok(NodeKind::SymLink));
    assert_eq!(node_kind(FileType::FiFo), Ok(NodeKind::NamedPipe));
    assert_eq!(node_kind(FileType::Socket), Err(Errno::EINVAL));
}

#[test]
fn seek_from_start_then_current_zero_stays() {
    let mut off: usize = 17;
    assert_eq!(do_seek_util(&mut off, SeekFrom::Start(100), Some(10)), Ok(100));
    assert_eq!(off, 100);
    assert_eq!(do_seek_util(&mut off, SeekFrom::Current(0), Some(10)), Ok(100));
    assert_eq!(off, 100);
}

#[test]
fn seek_relative_and_errors() {
    let mut off: usize = 5;
    assert_eq!(do_seek_util(&mut off, SeekFrom::Current(-2), None), Ok(3));
    assert_eq!(do_seek_util(&mut off, SeekFrom::End(-4), Some(10)), Ok(6));
    assert_eq!(do_seek_util(&mut off, SeekFrom::End(1), None), Err(Errno::EINVAL));
    assert_eq!(off, 6);
    assert_eq!(do_seek_util(&mut off, SeekFrom::Current(-7), None), Err(Errno::EINVAL));
    assert_eq!(off, 6);
    assert_eq!(do_seek_util(&mut off, SeekFrom::Start(isize::MAX as usize + 1), None), Err(Errno::EINVAL));
    assert_eq!(off, 6);
}

#[test]
fn seek_on_handles() {
    let mut off: usize = 9;
    assert_eq!(
        seek(&mut off, true, SeekTarget::Inode { inode_seekable: true, inode_end: Some(3) }, SeekFrom::Start(1)),
        Err(Errno::EBADF)
    );
    assert_eq!(
        seek(&mut off, false, SeekTarget::Inode { inode_seekable: false, inode_end: None }, SeekFrom::Start(1)),
        Err(Errno::ESPIPE)
    );
    let not_aware = SeekTarget::OpenFile { seekable: Ok(()), offset_aware: false, end: Ok(None) };
    assert_eq!(seek(&mut off, false, not_aware, SeekFrom::Start(4)), Ok(0));
    assert_eq!(off, 9);
    let refused = SeekTarget::OpenFile { seekable: Err(Errno::ESPIPE), offset_aware: true, end: Ok(None) };
    assert_eq!(seek(&mut off, false, refused, SeekFrom::Start(4)), Err(Errno::ESPIPE));
    let aware = SeekTarget::OpenFile { seekable: Ok(()), offset_aware: true, end: Ok(Some(40)) };
    assert_eq!(seek(&mut off, false, aware, SeekFrom::End(-10)), Ok(30));
    assert_eq!(off, 30);
}

#[test]
fn rights_checks() {
    let none = Rights { read: false, write: false };
    let ro = Rights { read: true, write: false };
    let rw = Rights { read: true, write: true };
    assert_eq!(check_readable(ro), Ok(()));
    assert_eq!(check_readable(none), Err(Errno::EBADF));
    assert_eq!(check_writable(ro), Err(Errno::EBADF));
    assert_eq!(check_writable(rw), Ok(()));
    assert_eq!(check_resizable(none), Err(Errno::EBADF));
    assert_eq!(check_resizable(ro), Err(Errno::EINVAL));
    assert_eq!(check_resizable(rw), Ok(()));
}

#[test]
fn fallocate_checks_in_order() {
    let rw = Rights { read: true, write: true };
    let ro = Rights { read: true, write: false };
    let plain = FallocFlags { append: false, direct: false, path: false };
    let append = FallocFlags { append: true, direct: false, path: false };
    let direct = FallocFlags { append: false, direct: true, path: false };
    assert_eq!(check_fallocate(ro, InodeType::File, FallocMode::Allocate, plain), Err(Errno::EBADF));
    assert_eq!(check_fallocate(rw, InodeType::NamedPipe, FallocMode::Allocate, plain), Err(Errno::ESPIPE));
    assert_eq!(check_fallocate(rw, InodeType::CharDevice, FallocMode::Allocate, plain), Err(Errno::ENODEV));
    assert_eq!(check_fallocate(rw, InodeType::File, FallocMode::CollapseRange, append), Err(Errno::EPERM));
    assert_eq!(check_fallocate(rw, InodeType::File, FallocMode::Allocate, append), Ok(()));
    assert_eq!(check_fallocate(rw, InodeType::Dir, FallocMode::ZeroRange, direct), Err(Errno::EBADF));
    assert_eq!(check_fallocate(rw, InodeType::Dir, FallocMode::PunchHoleKeepSize, plain), Ok(()));
}

#[test]
fn sigmask_operations() {
    let kill = 1u64 << 8;
    let stop = 1u64 << 18;
    assert_eq!(KILL_STOP, kill | stop);
    assert_eq!(new_sig_mask(MaskOp::Block, 0b1, 0b110 | kill), 0b111);
    assert_eq!(new_sig_mask(MaskOp::Unblock, 0b111, 0b010), 0b101);
    assert_eq!(new_sig_mask(MaskOp::SetMask, 0b111, 0b1000 | stop), 0b1000);
    assert_eq!(do_rt_sigprocmask(MaskOp::Block, None, 0b11), 0b11);
}

#[test]
fn rt_sigprocmask_errors_and_results() {
    assert_eq!(sys_rt_sigprocmask(3, Some(1), 8, 0), Err(Errno::EINVAL));
    assert_eq!(sys_rt_sigprocmask(0, Some(1), 4, 0), Err(Errno::EINVAL));
    assert_eq!(sys_rt_sigprocmask(0, Some(1 << 8), 128, 0), Ok(0));
    assert_eq!(sys_rt_sigprocmask(2, Some(0b100), 8, 0b1), Ok(0b100));
    assert_eq!(sys_rt_sigprocmask(1, None, 8, 0b1), Ok(0b1));
    assert_eq!(MaskOp::try_from(1), Ok(MaskOp::Unblock));
    assert_eq!(MaskOp::try_from(9), Err(Errno::EINVAL));
}

#[test]
fn kill_and_stop_are_never_newly_blocked() {
    for op in [MaskOp::Block, MaskOp::Unblock, MaskOp::SetMask] {
        let m = new_sig_mask(op, 0, u64::MAX);
        assert_eq!(m & KILL_STOP, 0);
        let kept = new_sig_mask(op, KILL_STOP, 0);
        assert!(kept & KILL_STOP == KILL_STOP || op == MaskOp::SetMask);
    }
}

#[test]
fn setsockopt_is_accepted() {
    assert_eq!(sys_setsockopt(3, 1, 2, 0x1000, 4), Ok(0));
}

#[test]
fn errno_codes() {
    assert_eq!(Errno::EPERM.code(), 1);
    assert_eq!(Errno::EINVAL.code(), 22);
    assert_eq!(Errno::ENOTTY.code(), 25);
    assert_eq!(Errno::ESPIPE.code(), 29);
}

#[test]
fn little_endian_round_trip() {
    let mut b: Vec<u8> = Vec::new();
    push_u16(&mut b, 0xBEEF);
    push_u32(&mut b, 0x1234_5678);
    push_u64(&mut b, 0x0102_0304_0506_0708);
    push_zeros(&mut b, 3);
    assert_eq!(b.len(), 2 + 4 + 8 + 3);
    assert_eq!(&b[0..2], &[0xEF, 0xBE]);
    assert_eq!(read_u16_le(&b, 0), 0xBEEF);
    assert_eq!(read_u32_le(&b, 2), 0x1234_5678);
    assert_eq!(read_u64_le(&b, 6), 0x0102_0304_0506_0708);
    assert_eq!(&b[14..], &[0, 0, 0]);
}

#[test]
fn handle_open_and_rights_checks() {
    let path = Rights { read: false, write: false };
    let ro = Rights { read: true, write: false };
    let rw = Rights { read: true, write: true };
    assert_eq!(open_rights(true, InodeType::Dir, true, true), Ok(path));
    assert_eq!(open_rights(false, InodeType::Dir, true, true), Err(Errno::EISDIR));
    assert_eq!(open_rights(false, InodeType::Dir, true, false), Ok(ro));
    assert_eq!(open_rights(false, InodeType::File, true, true), Ok(rw));
    assert!(path.is_empty() && !ro.is_empty());
    assert_eq!(check_not_path(path), Err(Errno::EBADF));
    assert_eq!(check_not_path(ro), Ok(()));
    assert_eq!(check_range_lock(ro, RangeLockType::ReadLock), Ok(()));
    assert_eq!(check_range_lock(ro, RangeLockType::WriteLock), Err(Errno::EBADF));
    assert_eq!(check_range_lock(path, RangeLockType::Unlock), Err(Errno::EBADF));
    assert_eq!(check_range_lock(ro, RangeLockType::Unlock), Ok(()));
}

#[test]
fn handle_io_decisions() {
    let path = Rights { read: false, write: false };
    let rw = Rights { read: true, write: true };
    assert_eq!(poll_plain(path, EVENT_IN), EVENT_NVAL);
    assert_eq!(poll_plain(rw, EVENT_IN | 0x8), EVENT_IN);
    assert_eq!(poll_plain(rw, u32::MAX), EVENT_IN | EVENT_OUT);
    assert!(is_offset_aware(Some(true), false));
    assert!(!is_offset_aware(None, false));
    assert_eq!(ensure_positional_io(None, false), Err(Errno::ESPIPE));
    assert_eq!(ensure_positional_io(Some(Err(Errno::EINVAL)), true), Err(Errno::EINVAL));
    assert_eq!(ensure_positional_io(None, true), Ok(()));
    assert_eq!(write_offset(true, false, 5, 100), 100);
    assert_eq!(write_offset(true, true, 5, 100), 5);
    assert_eq!(write_offset(false, false, 5, 100), 5);
    assert_eq!(mappable_kind(path, true, true), Err(Errno::EBADF));
    assert_eq!(mappable_kind(rw, true, true), Ok(MappableKind::PageCache));
    assert_eq!(mappable_kind(rw, false, true), Ok(MappableKind::OpenFile));
    assert_eq!(mappable_kind(rw, false, false), Err(Errno::ENODEV));
    assert_eq!(ioctl_target(path, true), Err(Errno::EBADF));
    assert_eq!(ioctl_target(rw, false), Err(Errno::ENOTTY));
    assert_eq!(ioctl_target(rw, true), Ok(()));
}

#[test]
fn entry_path_rejoins_to_the_trimmed_name() {
    for name in [&b"/usr/lib/libc.so/"[..], b"a/b", b"etc//passwd", b"x"] {
        let trimmed: Vec<u8> = {
            let s = name.iter().position(|c| *c != b'/').unwrap();
            let e = name.iter().rposition(|c| *c != b'/').unwrap();
            name[s..=e].to_vec()
        };
        match entry_path(name).unwrap() {
            EntryPath::Child { prefix, name: last } => {
                let mut joined = prefix.clone();
                joined.push(b'/');
                joined.extend(&last);
                assert_eq!(joined, trimmed);
                assert!(!last.contains(&b'/'));
            }
            EntryPath::Root { name: last } => assert_eq!(last, trimmed),
            EntryPath::Skip => panic!("not a dot entry"),
        }
    }
}
