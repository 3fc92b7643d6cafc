//! File offsets: where a seek lands, and which handles may seek, read or
//! write at all.

use vstd::prelude::*;

use crate::errno::Errno;

verus! {

/// Where a seek is measured from.
#[derive(Clone, Copy, Debug, PartialEq, Eq, Structural)]
pub enum SeekFrom {
    Start(usize),
    End(isize),
    Current(isize),
}

/// `x + d`, wrapping around the `usize` range.
pub open spec fn wrap_add_signed(x: usize, d: isize) -> int {
    let s = x + d;
    if s > usize::MAX {
        s - (usize::MAX + 1)
    } else if s < 0 {
        s + (usize::MAX + 1)
    } else {
        s
    }
}

/// Where a seek from `pos` lands with the offset at `offset` and the end
/// at `end` (if the file has one), before the sign check.
pub open spec fn seek_target(offset: usize, pos: SeekFrom, end: Option<usize>) -> Option<int> {
    match pos {
        SeekFrom::Start(off) => Some(off as int),
        SeekFrom::End(diff) => match end {
            Some(e) => Some(wrap_add_signed(e, diff)),
            None => None,
        },
        SeekFrom::Current(diff) => Some(wrap_add_signed(offset, diff)),
    }
}

/// Seeks: from the end only when the file has one (`EINVAL` otherwise);
/// a position that would be negative as a signed offset is refused with
/// `EINVAL` and leaves the offset alone.
pub fn do_seek_util(offset: &mut usize, pos: SeekFrom, end: Option<usize>) -> (r: Result<usize, Errno>)
    ensures
        seek_result(*old(offset), pos, end, r, *final(offset)),
        seek_lands(*old(offset), pos, end, r, *final(offset)),
{
    let new_offset = match pos {
        SeekFrom::Start(off) => off,
        SeekFrom::End(diff) => {
            match end {
                Some(e) => e.wrapping_add_signed(diff),
                None => {
                    return Err(Errno::EINVAL);
                },
            }
        },
        SeekFrom::Current(diff) => (*offset).wrapping_add_signed(diff),
    };
    if new_offset > isize::MAX as usize {
        return Err(Errno::EINVAL);
    }
    *offset = new_offset;
    Ok(new_offset)
}

/// What a handle's file lets a seek do.
#[derive(Clone, Copy, Debug)]
pub enum SeekTarget {
    /// A per-open file object: whether it can seek, whether it uses the
    /// offset, and its end (when it uses the offset).
    OpenFile { seekable: Result<(), Errno>, offset_aware: bool, end: Result<Option<usize>, Errno> },
    /// A plain inode: whether its type can seek, and its end.
    Inode { inode_seekable: bool, inode_end: Option<usize> },
}

/// Seeking a handle: `EBADF` for a path-only handle; a per-open file that
/// cannot seek gives its error, one that ignores the offset gives 0; an
/// inode type that cannot seek gives `ESPIPE`; otherwise `do_seek_util`.
pub fn seek(offset: &mut usize, rights_empty: bool, target: SeekTarget, pos: SeekFrom) -> (r: Result<usize, Errno>)
    ensures
        rights_empty ==> r == Err::<usize, Errno>(Errno::EBADF) && *final(offset) == *old(offset),
        !rights_empty ==> match target {
            SeekTarget::OpenFile { seekable, offset_aware, end } => match seekable {
                Err(e) => r == Err::<usize, Errno>(e) && *final(offset) == *old(offset),
                Ok(()) => if !offset_aware {
                    r == Ok::<usize, Errno>(0) && *final(offset) == *old(offset)
                } else {
                    match end {
                        Err(e) => r == Err::<usize, Errno>(e) && *final(offset) == *old(offset),
                        Ok(en) => seek_result(*old(offset), pos, en, r, *final(offset)),
                    }
                },
            },
            SeekTarget::Inode { inode_seekable, inode_end } => if !inode_seekable {
                r == Err::<usize, Errno>(Errno::ESPIPE) && *final(offset) == *old(offset)
            } else {
                seek_result(*old(offset), pos, inode_end, r, *final(offset))
            },
        },
{
    if rights_empty {
        return Err(Errno::EBADF);
    }
    match target {
        SeekTarget::OpenFile { seekable, offset_aware, end } => {
            if let Err(e) = seekable {
                return Err(e);
            }
            if offset_aware {
                match end {
                    Err(e) => Err(e),
                    Ok(en) => do_seek_util(offset, pos, en),
                }
            } else {
                Ok(0)
            }
        },
        SeekTarget::Inode { inode_seekable, inode_end } => {
            if !inode_seekable {
                return Err(Errno::ESPIPE);
            }
            do_seek_util(offset, pos, inode_end)
        },
    }
}

/// The outcome `do_seek_util` promises, as a relation.
pub open spec fn seek_result(old_offset: usize, pos: SeekFrom, end: Option<usize>, r: Result<usize, Errno>, new_offset: usize) -> bool {
    match seek_target(old_offset, pos, end) {
        None => r == Err::<usize, Errno>(Errno::EINVAL) && new_offset == old_offset,
        Some(t) => if t > isize::MAX {
            r == Err::<usize, Errno>(Errno::EINVAL) && new_offset == old_offset
        } else {
            r == Ok::<usize, Errno>(t as usize) && new_offset == t
        },
    }
}

/// Where a seek lands, in plain arithmetic: from the start at `off`; from
/// the current offset or the end by adding the distance to it. A position
/// from 0 to `isize::MAX` is taken and returned; a negative one, or a start
/// position past `isize::MAX`, is `EINVAL` and leaves the offset alone, as
/// does a seek from the end of a file without one.
pub open spec fn seek_lands(offset: usize, pos: SeekFrom, end: Option<usize>, r: Result<usize, Errno>, n: usize) -> bool {
    let refused = r == Err::<usize, Errno>(Errno::EINVAL) && n == offset;
    match pos {
        SeekFrom::Start(off) => if off <= isize::MAX {
            r == Ok::<usize, Errno>(off) && n == off
        } else {
            refused
        },
        SeekFrom::Current(d) => (0 <= offset + d <= isize::MAX ==> r == Ok::<usize, Errno>((offset + d) as usize)
            && n == offset + d) && (offset + d < 0 ==> refused),
        SeekFrom::End(d) => match end {
            None => refused,
            Some(e) => (0 <= e + d <= isize::MAX ==> r == Ok::<usize, Errno>((e + d) as usize) && n == e + d)
                && (e + d < 0 ==> refused),
        },
    }
}

/// Every outcome of a seek is where the seek lands: a seek from the current
/// offset by `d` moves the offset by `d` (a seek by `d` from offset `x` lands
/// where a seek from the start to `x + d` does), and so on for each kind.
pub proof fn lemma_seek_lands(offset: usize, pos: SeekFrom, end: Option<usize>, r: Result<usize, Errno>, n: usize)
    requires
        seek_result(offset, pos, end, r, n),
    ensures
        seek_lands(offset, pos, end, r, n),
{
}

/// The access a handle was opened with.
#[derive(Clone, Copy, Debug, PartialEq, Eq, Structural)]
pub struct Rights {
    pub read: bool,
    pub write: bool,
}

/// Reading needs read rights (`EBADF` otherwise).
pub fn check_readable(rights: Rights) -> (r: Result<(), Errno>)
    ensures
        r == if rights.read { Ok::<(), Errno>(()) } else { Err::<(), Errno>(Errno::EBADF) },
{
    if rights.read {
        Ok(())
    } else {
        Err(Errno::EBADF)
    }
}

/// Writing needs write rights (`EBADF` otherwise).
pub fn check_writable(rights: Rights) -> (r: Result<(), Errno>)
    ensures
        r == if rights.write { Ok::<(), Errno>(()) } else { Err::<(), Errno>(Errno::EBADF) },
{
    if rights.write {
        Ok(())
    } else {
        Err(Errno::EBADF)
    }
}

/// Resizing: `EBADF` for a path-only handle, `EINVAL` without write rights.
pub fn check_resizable(rights: Rights) -> (r: Result<(), Errno>)
    ensures
        !rights.read && !rights.write ==> r == Err::<(), Errno>(Errno::EBADF),
        (rights.read || rights.write) && !rights.write ==> r == Err::<(), Errno>(Errno::EINVAL),
        rights.write ==> r == Ok::<(), Errno>(()),
{
    if !rights.read && !rights.write {
        return Err(Errno::EBADF);
    }
    if !rights.write {
        return Err(Errno::EINVAL);
    }
    Ok(())
}

/// The kinds of inodes.
#[derive(Clone, Copy, Debug, PartialEq, Eq, Structural)]
pub enum InodeType {
    NamedPipe,
    CharDevice,
    Dir,
    BlockDevice,
    File,
    SymLink,
    Socket,
}

/// What a `fallocate` call asks of a range.
#[derive(Clone, Copy, Debug, PartialEq, Eq, Structural)]
pub enum FallocMode {
    Allocate,
    AllocateKeepSize,
    AllocateUnshareRange,
    PunchHoleKeepSize,
    ZeroRange,
    ZeroRangeKeepSize,
    CollapseRange,
    InsertRange,
}

/// The status flags of an open file that `fallocate` looks at.
#[derive(Clone, Copy, Debug, PartialEq, Eq, Structural)]
pub struct FallocFlags {
    pub append: bool,
    pub direct: bool,
    pub path: bool,
}

/// The modes that would move or remove existing data.
pub open spec fn rewrites_data(mode: FallocMode) -> bool {
    mode == FallocMode::PunchHoleKeepSize || mode == FallocMode::CollapseRange || mode == FallocMode::InsertRange
}

/// Whether a handle may `fallocate`, checked in this order: write rights
/// (`EBADF`), a FIFO (`ESPIPE`), anything but a regular file or directory
/// (`ENODEV`), an append-only file with a mode that rewrites data
/// (`EPERM`), and `O_DIRECT` or `O_PATH` (`EBADF`).
pub fn check_fallocate(rights: Rights, inode_type: InodeType, mode: FallocMode, flags: FallocFlags) -> (r: Result<(), Errno>)
    ensures
        r == if !rights.write {
            Err::<(), Errno>(Errno::EBADF)
        } else if inode_type == InodeType::NamedPipe {
            Err(Errno::ESPIPE)
        } else if !(inode_type == InodeType::File || inode_type == InodeType::Dir) {
            Err(Errno::ENODEV)
        } else if flags.append && rewrites_data(mode) {
            Err(Errno::EPERM)
        } else if flags.direct || flags.path {
            Err(Errno::EBADF)
        } else {
            Ok(())
        },
{
    if !rights.write {
        return Err(Errno::EBADF);
    }
    if inode_type == InodeType::NamedPipe {
        return Err(Errno::ESPIPE);
    }
    if !(inode_type == InodeType::File || inode_type == InodeType::Dir) {
        return Err(Errno::ENODEV);
    }
    if flags.append && (mode == FallocMode::PunchHoleKeepSize || mode == FallocMode::CollapseRange
        || mode == FallocMode::InsertRange) {
        return Err(Errno::EPERM);
    }
    if flags.direct || flags.path {
        return Err(Errno::EBADF);
    }
    Ok(())
}

impl Rights {
    /// A handle opened as a path only has no rights.
    pub open spec fn spec_is_empty(self) -> bool {
        !self.read && !self.write
    }

    pub fn is_empty(&self) -> (e: bool)
        ensures
            e == self.spec_is_empty(),
    {
        !self.read && !self.write
    }
}

/// The rights a handle gets when opened: none with `O_PATH` (no access is
/// checked); otherwise those of the access mode, where a directory cannot
/// be opened writable (`EISDIR`).
pub fn open_rights(o_path: bool, inode_type: InodeType, readable: bool, writable: bool) -> (r: Result<Rights, Errno>)
    ensures
        o_path ==> r == Ok::<Rights, Errno>(Rights { read: false, write: false }),
        !o_path && inode_type == InodeType::Dir && writable ==> r == Err::<Rights, Errno>(Errno::EISDIR),
        !o_path && !(inode_type == InodeType::Dir && writable) ==> r == Ok::<Rights, Errno>(
            Rights { read: readable, write: writable },
        ),
{
    if o_path {
        Ok(Rights { read: false, write: false })
    } else if inode_type == InodeType::Dir && writable {
        Err(Errno::EISDIR)
    } else {
        Ok(Rights { read: readable, write: writable })
    }
}

/// Operations that need an opened file, not a path: `EBADF` for a path.
pub fn check_not_path(rights: Rights) -> (r: Result<(), Errno>)
    ensures
        r == if rights.spec_is_empty() { Err::<(), Errno>(Errno::EBADF) } else { Ok::<(), Errno>(()) },
{
    if rights.is_empty() {
        Err(Errno::EBADF)
    } else {
        Ok(())
    }
}

pub const EVENT_IN: u32 = 0x0001;
pub const EVENT_OUT: u32 = 0x0004;
pub const EVENT_NVAL: u32 = 0x0020;

/// The events of a handle without a per-open file object: a path is
/// invalid to poll; a file is always readable and writable.
pub fn poll_plain(rights: Rights, mask: u32) -> (events: u32)
    ensures
        events == if rights.spec_is_empty() { EVENT_NVAL } else { (EVENT_IN | EVENT_OUT) & mask },
{
    if rights.is_empty() {
        EVENT_NVAL
    } else {
        (EVENT_IN | EVENT_OUT) & mask
    }
}

/// The kinds of byte-range locks.
#[derive(Clone, Copy, Debug, PartialEq, Eq, Structural)]
pub enum RangeLockType {
    ReadLock,
    WriteLock,
    Unlock,
}

/// A read lock needs read rights, a write lock write rights, an unlock an
/// opened file (`EBADF` otherwise).
pub fn check_range_lock(rights: Rights, lock: RangeLockType) -> (r: Result<(), Errno>)
    ensures
        r == match lock {
            RangeLockType::ReadLock => if rights.read { Ok::<(), Errno>(()) } else { Err(Errno::EBADF) },
            RangeLockType::WriteLock => if rights.write { Ok::<(), Errno>(()) } else { Err(Errno::EBADF) },
            RangeLockType::Unlock => if rights.spec_is_empty() {
                Err::<(), Errno>(Errno::EBADF)
            } else {
                Ok(())
            },
        },
{
    match lock {
        RangeLockType::ReadLock => check_readable(rights),
        RangeLockType::WriteLock => check_writable(rights),
        RangeLockType::Unlock => check_not_path(rights),
    }
}

/// Whether I/O uses and advances the offset: the per-open file says, else
/// whether the inode type can seek.
pub fn is_offset_aware(open_file_offset_aware: Option<bool>, inode_seekable: bool) -> (b: bool)
    ensures
        b == match open_file_offset_aware {
            Some(a) => a,
            None => inode_seekable,
        },
{
    match open_file_offset_aware {
        Some(a) => a,
        None => inode_seekable,
    }
}

/// Whether `pread`/`pwrite` work: the per-open file decides; a plain
/// inode must be seekable (`ESPIPE` otherwise).
pub fn ensure_positional_io(open_file_check: Option<Result<(), Errno>>, inode_seekable: bool) -> (r: Result<(), Errno>)
    ensures
        r == match open_file_check {
            Some(c) => c,
            None => if inode_seekable { Ok::<(), Errno>(()) } else { Err(Errno::ESPIPE) },
        },
{
    match open_file_check {
        Some(c) => c,
        None => if inode_seekable {
            Ok(())
        } else {
            Err(Errno::ESPIPE)
        },
    }
}

/// Where a write goes: with `O_APPEND`, a file without a per-open file
/// object writes at its end; otherwise at `offset`.
pub fn write_offset(append: bool, has_open_file: bool, offset: usize, file_size: usize) -> (o: usize)
    ensures
        o == if append && !has_open_file { file_size } else { offset },
{
    if append && !has_open_file {
        file_size
    } else {
        offset
    }
}

/// What a memory mapping of a handle maps.
#[derive(Clone, Copy, Debug, PartialEq, Eq, Structural)]
pub enum MappableKind {
    /// The inode's page cache.
    PageCache,
    /// What the per-open file object offers.
    OpenFile,
}

/// Mapping needs an opened file (`EBADF`); a file with a page cache maps
/// it, else the per-open file decides, else it is `ENODEV`.
pub fn mappable_kind(rights: Rights, has_page_cache: bool, has_open_file: bool) -> (r: Result<MappableKind, Errno>)
    ensures
        r == if rights.spec_is_empty() {
            Err::<MappableKind, Errno>(Errno::EBADF)
        } else if has_page_cache {
            Ok(MappableKind::PageCache)
        } else if has_open_file {
            Ok(MappableKind::OpenFile)
        } else {
            Err(Errno::ENODEV)
        },
{
    if rights.is_empty() {
        Err(Errno::EBADF)
    } else if has_page_cache {
        Ok(MappableKind::PageCache)
    } else if has_open_file {
        Ok(MappableKind::OpenFile)
    } else {
        Err(Errno::ENODEV)
    }
}

/// An ioctl needs an opened file (`EBADF`); without a per-open file object
/// it is `ENOTTY`; otherwise the object handles it (`Ok`).
pub fn ioctl_target(rights: Rights, has_open_file: bool) -> (r: Result<(), Errno>)
    ensures
        r == if rights.spec_is_empty() {
            Err::<(), Errno>(Errno::EBADF)
        } else if has_open_file {
            Ok(())
        } else {
            Err(Errno::ENOTTY)
        },
{
    check_not_path(rights)?;
    if has_open_file {
        Ok(())
    } else {
        Err(Errno::ENOTTY)
    }
}

/// A seek to `Start(n)` lands at `n`, and a following seek by zero from
/// the current offset stays there, for every `n` a signed offset can hold.
pub proof fn lemma_seek_start_then_current(offset: usize, n: usize, end: Option<usize>)
    requires
        n <= isize::MAX,
    ensures
        seek_target(offset, SeekFrom::Start(n), end) == Some(n as int),
        seek_target(n, SeekFrom::Current(0), end) == Some(n as int),
{
}

/// Every offset a seek sets is non-negative as a signed offset.
pub proof fn lemma_seek_keeps_signed(old_offset: usize, pos: SeekFrom, end: Option<usize>, r: Result<usize, Errno>, new_offset: usize)
    requires
        old_offset <= isize::MAX,
        seek_result(old_offset, pos, end, r, new_offset),
    ensures
        new_offset <= isize::MAX,
{
}

} // verus!
