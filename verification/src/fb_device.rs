//! The `/dev/fb0` character device: the screen information it reports,
//! colour map requests, reads and writes of the pixel memory, and what each
//! ioctl asks for. Copying to and from user space is the caller's.

use vstd::prelude::*;

use crate::errno::Errno;
use crate::framebuffer::{ColorMapEntry, FrameBuffer, FrameBufferBackend, backend_size, MAX_CMAP_SIZE};
use crate::pixel::{format_nbytes, PixelFormat};

verus! {

/// The device number of the framebuffer device: major 29, minor 0.
pub const FB_MAJOR: u32 = 29;
pub const FB_MINOR: u32 = 0;

pub const FBIOGET_VSCREENINFO: u32 = 0x4600;
pub const FBIOPUT_VSCREENINFO: u32 = 0x4601;
pub const FBIOGET_FSCREENINFO: u32 = 0x4602;
pub const FBIOGETCMAP: u32 = 0x4604;
pub const FBIOPUTCMAP: u32 = 0x4605;
pub const FBIOPAN_DISPLAY: u32 = 0x4606;
/// Moves the hardware cursor; the position is packed in the argument.
pub const FBIO_MOVE_CURSOR: u32 = 0x4607;
pub const FBIOBLANK: u32 = 0x4611;

/// Readable.
pub const POLLIN: u32 = 0x0001;
/// Writable.
pub const POLLOUT: u32 = 0x0004;

/// One colour channel's place in a pixel; `struct fb_bitfield`.
#[derive(Clone, Copy, Debug, PartialEq, Eq, Structural)]
pub struct FbBitfield {
    pub offset: u32,
    pub length: u32,
    pub msb_right: u32,
}

pub open spec fn bf(offset: u32, length: u32) -> FbBitfield {
    FbBitfield { offset, length, msb_right: 0 }
}

/// The red, green, blue and transparency channels of each pixel format.
pub open spec fn bitfields_spec(f: PixelFormat) -> (FbBitfield, FbBitfield, FbBitfield, FbBitfield) {
    match f {
        PixelFormat::Grayscale8 => (bf(0, 8), bf(0, 8), bf(0, 8), bf(0, 0)),
        PixelFormat::Rgb565 => (bf(11, 5), bf(5, 6), bf(0, 5), bf(0, 0)),
        PixelFormat::Rgb888 => (bf(16, 8), bf(8, 8), bf(0, 8), bf(0, 0)),
        PixelFormat::BgrReserved => (bf(16, 8), bf(8, 8), bf(0, 8), bf(24, 8)),
    }
}

impl FbBitfield {
    fn of(offset: u32, length: u32) -> (b: FbBitfield)
        ensures
            b == bf(offset, length),
    {
        FbBitfield { offset, length, msb_right: 0 }
    }

    /// The channel layout of a pixel format.
    pub fn from_pixel_format(pixel_format: PixelFormat) -> (r: (FbBitfield, FbBitfield, FbBitfield, FbBitfield))
        ensures
            r == bitfields_spec(pixel_format),
    {
        match pixel_format {
            PixelFormat::Grayscale8 => (Self::of(0, 8), Self::of(0, 8), Self::of(0, 8), Self::of(0, 0)),
            PixelFormat::Rgb565 => (Self::of(11, 5), Self::of(5, 6), Self::of(0, 5), Self::of(0, 0)),
            PixelFormat::Rgb888 => (Self::of(16, 8), Self::of(8, 8), Self::of(0, 8), Self::of(0, 0)),
            PixelFormat::BgrReserved => (
                Self::of(16, 8),
                Self::of(8, 8),
                Self::of(0, 8),
                Self::of(24, 8),
            ),
        }
    }
}

/// Variable screen information; `struct fb_var_screeninfo`.
#[derive(Clone, Copy, Debug)]
pub struct FbVarScreenInfo {
    pub xres: u32,
    pub yres: u32,
    pub xres_virtual: u32,
    pub yres_virtual: u32,
    pub xoffset: u32,
    pub yoffset: u32,
    pub bits_per_pixel: u32,
    pub grayscale: u32,
    pub red: FbBitfield,
    pub green: FbBitfield,
    pub blue: FbBitfield,
    pub transp: FbBitfield,
    pub nonstd: u32,
    pub activate: u32,
    pub height: u32,
    pub width: u32,
    pub accel_flags: u32,
    pub pixclock: u32,
    pub left_margin: u32,
    pub right_margin: u32,
    pub upper_margin: u32,
    pub lower_margin: u32,
    pub hsync_len: u32,
    pub vsync_len: u32,
    pub sync: u32,
    pub vmode: u32,
    pub rotate: u32,
    pub colorspace: u32,
    pub reserved: [u32; 4],
}

/// Fixed screen information; `struct fb_fix_screeninfo`. Only the
/// physical memory, its length and the line length are ever non-zero.
#[derive(Clone, Copy, Debug)]
pub struct FbFixScreenInfo {
    pub id: [u8; 16],
    pub smem_start: u64,
    pub smem_len: u32,
    pub type_: u32,
    pub type_aux: u32,
    pub visual: u32,
    pub xpanstep: u16,
    pub ypanstep: u16,
    pub ywrapstep: u16,
    pub line_length: u32,
    pub mmio_start: u64,
    pub mmio_len: u32,
    pub accel: u32,
    pub capabilities: u16,
    pub reserved: [u16; 2],
}

/// A colour map request from user space; `struct fb_cmap`.
#[derive(Clone, Copy, Debug, PartialEq, Eq, Structural)]
pub struct FbCmapUser {
    pub start: u32,
    pub len: u32,
    pub red: usize,
    pub green: usize,
    pub blue: usize,
    /// Zero when the caller has no transparency channel.
    pub transp: usize,
}

/// The pixel clock reported for a `w` x `h` mode.
pub open spec fn pixclock_spec(w: u32, h: u32) -> u32 {
    ((((10_000_000u32 / w) as int) * 1000) / (h as int)) as u32
}

/// The var info reported for `fb`: its resolution as both visible and
/// virtual size, depth and channels, and fixed default timings.
pub open spec fn var_info_spec(fb: &FrameBuffer) -> FbVarScreenInfo {
    let w = fb.width as u32;
    let h = fb.height as u32;
    let (red, green, blue, transp) = bitfields_spec(fb.pixel_format);
    FbVarScreenInfo {
        xres: w,
        yres: h,
        xres_virtual: w,
        yres_virtual: h,
        xoffset: 0,
        yoffset: 0,
        bits_per_pixel: (8 * format_nbytes(fb.pixel_format)) as u32,
        grayscale: 0,
        red,
        green,
        blue,
        transp,
        nonstd: 0,
        activate: 0,
        height: 0,
        width: 0,
        accel_flags: 0,
        pixclock: pixclock_spec(w, h),
        left_margin: (w / 8) & 0xf8,
        right_margin: 32,
        upper_margin: 16,
        lower_margin: 4,
        hsync_len: (w / 8) & 0xf8,
        vsync_len: 4,
        sync: 0,
        vmode: 0,
        rotate: 0,
        colorspace: 0,
        reserved: [0u32, 0, 0, 0],
    }
}

/// The var info of `fb`. The pixel clock divides by the width and height.
pub fn collect_var_screen_info(fb: &FrameBuffer) -> (v: FbVarScreenInfo)
    requires
        fb.width as u32 != 0,
        fb.height as u32 != 0,
        (10_000_000u32 / (fb.width as u32)) * 1000 <= u32::MAX,
    ensures
        v == var_info_spec(fb),
{
    let w = fb.width() as u32;
    let h = fb.height() as u32;
    let format = fb.pixel_format();
    let (red, green, blue, transp) = FbBitfield::from_pixel_format(format);
    let z = FbBitfield::of(0, 0);
    FbVarScreenInfo {
        xres: w,
        yres: h,
        xres_virtual: w,
        yres_virtual: h,
        xoffset: 0,
        yoffset: 0,
        bits_per_pixel: (8 * format.nbytes()) as u32,
        grayscale: 0,
        red,
        green,
        blue,
        transp,
        nonstd: 0,
        activate: 0,
        height: 0,
        width: 0,
        accel_flags: 0,
        pixclock: 10_000_000u32 / w * 1000 / h,
        left_margin: (w / 8) & 0xf8,
        right_margin: 32,
        upper_margin: 16,
        lower_margin: 4,
        hsync_len: (w / 8) & 0xf8,
        vsync_len: 4,
        sync: 0,
        vmode: 0,
        rotate: 0,
        colorspace: 0,
        reserved: [0u32, 0, 0, 0],
    }
}

/// The fix info of `fb`: the MMIO region's address and size, or no
/// address and the DMA buffer's size; and the line length.
pub open spec fn fix_info_spec(fb: &FrameBuffer) -> FbFixScreenInfo {
    let (smem_start, smem_len) = match fb.backend {
        FrameBufferBackend::Mmio(io) => (io.paddr as u64, io.size as u32),
        FrameBufferBackend::Blit(b) => (0u64, b.size as u32),
    };
    FbFixScreenInfo {
        id: [0u8, 0, 0, 0, 0, 0, 0, 0, 0, 0, 0, 0, 0, 0, 0, 0],
        smem_start,
        smem_len,
        type_: 0,
        type_aux: 0,
        visual: 0,
        xpanstep: 0,
        ypanstep: 0,
        ywrapstep: 0,
        line_length: fb.line_size as u32,
        mmio_start: 0,
        mmio_len: 0,
        accel: 0,
        capabilities: 0,
        reserved: [0u16, 0],
    }
}

pub fn collect_fix_screen_info(fb: &FrameBuffer) -> (f: FbFixScreenInfo)
    ensures
        f == fix_info_spec(fb),
{
    let (smem_start, smem_len) = match fb.io_mem() {
        Some(io) => (io.paddr() as u64, io.size() as u32),
        None => (0u64, fb.buffer_size() as u32),
    };
    FbFixScreenInfo {
        id: [0u8, 0, 0, 0, 0, 0, 0, 0, 0, 0, 0, 0, 0, 0, 0, 0],
        smem_start,
        smem_len,
        type_: 0,
        type_aux: 0,
        visual: 0,
        xpanstep: 0,
        ypanstep: 0,
        ywrapstep: 0,
        line_length: fb.line_size() as u32,
        mmio_start: 0,
        mmio_len: 0,
        accel: 0,
        capabilities: 0,
        reserved: [0u16, 0],
    }
}

/// The colour channels of a colour map range, to copy to user space.
pub struct CmapChannels {
    pub red: Vec<u16>,
    pub green: Vec<u16>,
    pub blue: Vec<u16>,
    /// Present only when the caller asked for transparency.
    pub transp: Option<Vec<u16>>,
}

/// `FBIOGETCMAP`: nothing for an empty request; `EINVAL` when the range is
/// not all in the colour map; otherwise its channels.
pub fn handle_get_cmap(fb: &FrameBuffer, cmap_user: &FbCmapUser) -> (r: Result<Option<CmapChannels>, Errno>)
    ensures
        cmap_user.len == 0 ==> r is Ok && r->Ok_0 is None,
        cmap_user.len != 0 && (cmap_user.start >= fb.cmap@.len() || cmap_user.len > fb.cmap@.len()
            - cmap_user.start) ==> r == Err::<Option<CmapChannels>, Errno>(Errno::EINVAL),
        cmap_user.len != 0 && !(cmap_user.start >= fb.cmap@.len() || cmap_user.len > fb.cmap@.len()
            - cmap_user.start) ==> r is Ok && r->Ok_0 is Some && ({
            let ch = r->Ok_0->0;
            let s = cmap_user.start as int;
            &&& ch.red@.len() == cmap_user.len && ch.green@.len() == cmap_user.len
                && ch.blue@.len() == cmap_user.len
            &&& forall|i: int|
                0 <= i < cmap_user.len ==> ch.red@[i] == fb.cmap@[s + i].red && ch.green@[i]
                    == fb.cmap@[s + i].green && ch.blue@[i] == fb.cmap@[s + i].blue
            &&& (cmap_user.transp == 0 <==> ch.transp is None)
            &&& ch.transp is Some ==> ch.transp->0@.len() == cmap_user.len && forall|i: int|
                0 <= i < cmap_user.len ==> ch.transp->0@[i] == fb.cmap@[s + i].transp
        }),
{
    if cmap_user.len == 0 {
        return Ok(None);
    }
    let start = cmap_user.start as usize;
    let len = cmap_user.len as usize;
    let entries = match fb.get_color_map(start, len) {
        Some(e) => e,
        None => {
            return Err(Errno::EINVAL);
        },
    };
    let mut red: Vec<u16> = Vec::new();
    let mut green: Vec<u16> = Vec::new();
    let mut blue: Vec<u16> = Vec::new();
    let mut transp: Vec<u16> = Vec::new();
    let mut i: usize = 0;
    while i < entries.len()
        invariant
            0 <= i <= entries@.len(),
            red@.len() == i && green@.len() == i && blue@.len() == i && transp@.len() == i,
            forall|k: int|
                0 <= k < i ==> red@[k] == entries@[k].red && green@[k] == entries@[k].green
                    && blue@[k] == entries@[k].blue && transp@[k] == entries@[k].transp,
        decreases entries@.len() - i,
    {
        red.push(entries[i].red);
        green.push(entries[i].green);
        blue.push(entries[i].blue);
        transp.push(entries[i].transp);
        i = i + 1;
    }
    let transp = if cmap_user.transp != 0 {
        Some(transp)
    } else {
        None
    };
    Ok(Some(CmapChannels { red, green, blue, transp }))
}

/// `FBIOPUTCMAP` accepts a range only within `MAX_CMAP_SIZE`; checked
/// before the channels are read from user space.
pub fn set_cmap_range_ok(cmap_user: &FbCmapUser) -> (ok: bool)
    ensures
        ok == !(cmap_user.start > MAX_CMAP_SIZE || cmap_user.len > MAX_CMAP_SIZE - cmap_user.start),
{
    let start = cmap_user.start as usize;
    let len = cmap_user.len as usize;
    !(start > MAX_CMAP_SIZE || len > MAX_CMAP_SIZE - start)
}

/// The entries an `FBIOPUTCMAP` request sets, from the channels read from
/// user space (a zero transparency when the caller gave none).
pub open spec fn cmap_entries_spec(red: Seq<u16>, green: Seq<u16>, blue: Seq<u16>, transp: Option<Seq<u16>>) -> Seq<ColorMapEntry> {
    Seq::new(
        red.len(),
        |i: int|
            ColorMapEntry {
                red: red[i],
                green: green[i],
                blue: blue[i],
                transp: match transp {
                    Some(t) => t[i],
                    None => 0,
                },
            },
    )
}

/// `FBIOPUTCMAP`: nothing for an empty request; `EINVAL` when the range
/// goes past `MAX_CMAP_SIZE`; otherwise the entries are set.
pub fn handle_set_cmap(
    fb: &mut FrameBuffer,
    cmap_user: &FbCmapUser,
    red: &[u16],
    green: &[u16],
    blue: &[u16],
    transp: Option<&[u16]>,
) -> (r: Result<(), Errno>)
    requires
        red@.len() == cmap_user.len,
        green@.len() == cmap_user.len,
        blue@.len() == cmap_user.len,
        match transp {
            Some(t) => t@.len() == cmap_user.len,
            None => true,
        },
    ensures
        cmap_user.len == 0 ==> r is Ok && final(fb).cmap@ == old(fb).cmap@,
        cmap_user.len != 0 && (cmap_user.start > MAX_CMAP_SIZE || cmap_user.len > MAX_CMAP_SIZE
            - cmap_user.start) ==> r == Err::<(), Errno>(Errno::EINVAL) && final(fb).cmap@ == old(fb).cmap@,
        cmap_user.len != 0 && !(cmap_user.start > MAX_CMAP_SIZE || cmap_user.len > MAX_CMAP_SIZE
            - cmap_user.start) ==> r is Ok && final(fb).cmap@ == FrameBuffer::cmap_after_set(
            old(fb).cmap@,
            cmap_user.start as int,
            cmap_entries_spec(
                red@,
                green@,
                blue@,
                match transp {
                    Some(t) => Some(t@),
                    None => None,
                },
            ),
        ),
        final(fb).mem@ == old(fb).mem@,
        final(fb).backend == old(fb).backend,
        final(fb).width == old(fb).width,
        final(fb).height == old(fb).height,
        final(fb).line_size == old(fb).line_size,
        final(fb).pixel_format == old(fb).pixel_format,
{
    if cmap_user.len == 0 {
        return Ok(());
    }
    if !set_cmap_range_ok(cmap_user) {
        return Err(Errno::EINVAL);
    }
    let len = cmap_user.len as usize;
    let ghost tview: Option<Seq<u16>> = match transp {
        Some(t) => Some(t@),
        None => None,
    };
    let mut entries: Vec<ColorMapEntry> = Vec::new();
    let mut i: usize = 0;
    while i < len
        invariant
            0 <= i <= len,
            len == red@.len() && len == green@.len() && len == blue@.len(),
            tview == match transp {
                Some(t) => Some(t@),
                None => None,
            },
            match transp {
                Some(t) => t@.len() == len,
                None => true,
            },
            entries@ == cmap_entries_spec(red@, green@, blue@, tview).subrange(0, i as int),
        decreases len - i,
    {
        let t = match transp {
            Some(t) => t[i],
            None => 0,
        };
        entries.push(ColorMapEntry { red: red[i], green: green[i], blue: blue[i], transp: t });
        i = i + 1;
        proof {
            assert(entries@ =~= cmap_entries_spec(red@, green@, blue@, tview).subrange(0, i as int));
        }
    }
    proof {
        assert(entries@ =~= cmap_entries_spec(red@, green@, blue@, tview));
    }
    match fb.set_color_map(cmap_user.start as usize, entries.as_slice()) {
        Ok(()) => Ok(()),
        Err(_) => Err(Errno::EINVAL),
    }
}

/// The device is always readable and writable.
pub fn poll(mask: u32) -> (events: u32)
    ensures
        events == (POLLIN | POLLOUT) & mask,
{
    (POLLIN | POLLOUT) & mask
}

/// A read of up to `avail` bytes at `offset`: nothing at or past the end,
/// otherwise the bytes up to the end.
pub fn read_at(fb: &FrameBuffer, offset: usize, avail: usize) -> (r: Vec<u8>)
    requires
        fb.wf(),
    ensures
        (avail == 0 || offset >= fb.mem@.len()) ==> r@.len() == 0,
        avail != 0 && offset < fb.mem@.len() ==> r@ == fb.mem@.subrange(
            offset as int,
            offset + if avail < fb.mem@.len() - offset { avail as int } else { fb.mem@.len() - offset },
        ),
{
    if avail == 0 {
        return Vec::new();
    }
    let size = fb.buffer_size();
    if offset >= size {
        return Vec::new();
    }
    let len = if avail < size - offset { avail } else { size - offset };
    match fb.read_bytes_at(offset, len) {
        Ok(v) => v,
        Err(_) => Vec::new(),
    }
}

/// A write of `data` at `offset`: nothing for no data, `ENOSPC` at or past
/// the end; otherwise the bytes that fit are written and counted.
pub fn write_at(fb: &mut FrameBuffer, offset: usize, data: &[u8]) -> (r: Result<usize, Errno>)
    requires
        old(fb).wf(),
    ensures
        final(fb).wf(),
        data@.len() == 0 ==> r == Ok::<usize, Errno>(0) && final(fb).mem@ == old(fb).mem@,
        data@.len() != 0 && offset >= old(fb).mem@.len() ==> r == Err::<usize, Errno>(Errno::ENOSPC)
            && final(fb).mem@ == old(fb).mem@,
        data@.len() != 0 && offset < old(fb).mem@.len() ==> ({
            let n = if data@.len() < old(fb).mem@.len() - offset {
                data@.len() as int
            } else {
                old(fb).mem@.len() - offset
            };
            &&& r == Ok::<usize, Errno>(n as usize)
            &&& final(fb).mem@ == old(fb).mem@.subrange(0, offset as int) + data@.subrange(0, n)
                + old(fb).mem@.subrange(offset + n, old(fb).mem@.len() as int)
        }),
        final(fb).cmap@ == old(fb).cmap@,
        final(fb).backend == old(fb).backend,
{
    if data.len() == 0 {
        return Ok(0);
    }
    let size = fb.buffer_size();
    if offset >= size {
        return Err(Errno::ENOSPC);
    }
    let len = if data.len() < size - offset { data.len() } else { size - offset };
    let mut chunk: Vec<u8> = Vec::new();
    let mut i: usize = 0;
    while i < len
        invariant
            0 <= i <= len,
            len <= data@.len(),
            chunk@ == data@.subrange(0, i as int),
        decreases len - i,
    {
        chunk.push(data[i]);
        i = i + 1;
        proof {
            assert(chunk@ =~= data@.subrange(0, i as int));
        }
    }
    let _ = fb.write_bytes_at(offset, chunk.as_slice());
    Ok(len)
}

/// What a framebuffer ioctl asks the device to do.
#[derive(Clone, Copy, Debug)]
pub enum FbIoctl {
    /// Report the var info (for a get, and for a put, which changes nothing).
    WriteVarInfo,
    WriteFixInfo,
    GetColorMap,
    PutColorMap,
    /// Flush the whole framebuffer, after moving the cursor if asked.
    Flush { cursor: Option<(u32, u32)> },
    MoveCursor { x: u32, y: u32 },
}

/// A cursor position packed in an ioctl argument: `x` in the low 16 bits,
/// `y` in the next 16.
pub open spec fn unpack_cursor(arg: u64) -> (u32, u32) {
    ((arg & 0xFFFF) as u32, ((arg >> 16) & 0xFFFF) as u32)
}

fn unpack_cursor_exec(arg: u64) -> (r: (u32, u32))
    ensures
        r == unpack_cursor(arg),
{
    let x = arg & 0xFFFF;
    let y = (arg >> 16) & 0xFFFF;
    assert(x <= 0xFFFF && y <= 0xFFFF) by (bit_vector)
        requires
            x == arg & 0xFFFF,
            y == (arg >> 16) & 0xFFFF,
    ;
    (x as u32, y as u32)
}

/// The meaning of ioctl `cmd` with argument `arg`: blanking is refused
/// with `EINVAL`, unknown commands with `ENOTTY`.
pub open spec fn ioctl_spec(cmd: u32, arg: u64) -> Result<FbIoctl, Errno> {
    if cmd == FBIOGET_VSCREENINFO || cmd == FBIOPUT_VSCREENINFO {
        Ok(FbIoctl::WriteVarInfo)
    } else if cmd == FBIOGET_FSCREENINFO {
        Ok(FbIoctl::WriteFixInfo)
    } else if cmd == FBIOGETCMAP {
        Ok(FbIoctl::GetColorMap)
    } else if cmd == FBIOPUTCMAP {
        Ok(FbIoctl::PutColorMap)
    } else if cmd == FBIOPAN_DISPLAY {
        Ok(FbIoctl::Flush { cursor: if arg != 0 { Some(unpack_cursor(arg)) } else { None } })
    } else if cmd == FBIOBLANK {
        Err(Errno::EINVAL)
    } else if cmd == FBIO_MOVE_CURSOR {
        Ok(FbIoctl::MoveCursor { x: unpack_cursor(arg).0, y: unpack_cursor(arg).1 })
    } else {
        Err(Errno::ENOTTY)
    }
}

pub fn ioctl(cmd: u32, arg: u64) -> (r: Result<FbIoctl, Errno>)
    ensures
        r == ioctl_spec(cmd, arg),
{
    if cmd == FBIOGET_VSCREENINFO || cmd == FBIOPUT_VSCREENINFO {
        Ok(FbIoctl::WriteVarInfo)
    } else if cmd == FBIOGET_FSCREENINFO {
        Ok(FbIoctl::WriteFixInfo)
    } else if cmd == FBIOGETCMAP {
        Ok(FbIoctl::GetColorMap)
    } else if cmd == FBIOPUTCMAP {
        Ok(FbIoctl::PutColorMap)
    } else if cmd == FBIOPAN_DISPLAY {
        let cursor = if arg != 0 {
            Some(unpack_cursor_exec(arg))
        } else {
            None
        };
        Ok(FbIoctl::Flush { cursor })
    } else if cmd == FBIOBLANK {
        Err(Errno::EINVAL)
    } else if cmd == FBIO_MOVE_CURSOR {
        let (x, y) = unpack_cursor_exec(arg);
        Ok(FbIoctl::MoveCursor { x, y })
    } else {
        Err(Errno::ENOTTY)
    }
}

/// What user space may map: the MMIO region, or the DMA buffer's physical
/// pages when it lies in the linear mapping (`ENODEV` otherwise).
pub fn mappable(fb: &FrameBuffer) -> (r: Result<(u64, usize), Errno>)
    ensures
        match fb.backend {
            FrameBufferBackend::Mmio(io) => r == Ok::<(u64, usize), Errno>((io.paddr as u64, io.size)),
            FrameBufferBackend::Blit(b) => if b.base >= crate::framebuffer::LINEAR_BASE {
                r == Ok::<(u64, usize), Errno>(((b.base - crate::framebuffer::LINEAR_BASE) as u64, b.size))
            } else {
                r == Err::<(u64, usize), Errno>(Errno::ENODEV)
            },
        },
{
    if let Some(io) = fb.io_mem() {
        return Ok((io.paddr() as u64, io.size()));
    }
    match fb.physical_address() {
        Some(pa) => Ok((pa, fb.buffer_size())),
        None => Err(Errno::ENODEV),
    }
}

/// Opening the device needs a framebuffer (`ENODEV` otherwise).
pub fn open(present: bool) -> (r: Result<(), Errno>)
    ensures
        r == if present { Ok::<(), Errno>(()) } else { Err::<(), Errno>(Errno::ENODEV) },
{
    if present {
        Ok(())
    } else {
        Err(Errno::ENODEV)
    }
}

} // verus!
