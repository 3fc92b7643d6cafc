//! The framebuffer: its geometry, pixel format, colour map and pixel
//! memory, over either a memory-mapped linear framebuffer or a DMA buffer
//! that a driver blits to the display on flush.
//!
//! The pixel memory is held as bytes; a flush is returned as the dirty
//! rectangle for the owner of the device to push.

use vstd::prelude::*;

use crate::pixel::{format_nbytes, PixelFormat};

verus! {

/// Maximum number of colour map entries.
pub const MAX_CMAP_SIZE: usize = 256;

/// Base of the kernel's linear mapping of physical memory.
pub const LINEAR_BASE: u64 = 0xffff_8000_0000_0000;

/// Errors of framebuffer operations.
#[derive(Clone, Copy, Debug, PartialEq, Eq, Structural)]
pub enum FbError {
    InvalidArgs,
}

/// A memory-mapped I/O region: its physical address and size.
#[derive(Clone, Copy, Debug, PartialEq, Eq, Structural)]
pub struct IoMemRegion {
    pub paddr: usize,
    pub size: usize,
}

impl IoMemRegion {
    pub fn new(paddr: usize, size: usize) -> (r: IoMemRegion)
        ensures
            r.paddr == paddr && r.size == size,
    {
        IoMemRegion { paddr, size }
    }

    pub fn paddr(&self) -> (p: usize)
        ensures
            p == self.paddr,
    {
        self.paddr
    }

    pub fn size(&self) -> (s: usize)
        ensures
            s == self.size,
    {
        self.size
    }
}

/// The DMA buffer of a blit-backed framebuffer: its kernel-virtual address,
/// size, and whether the driver registered a flush routine.
#[derive(Clone, Copy, Debug, PartialEq, Eq, Structural)]
pub struct BlitBackend {
    pub base: usize,
    pub size: usize,
    pub flush: bool,
}

impl BlitBackend {
    /// A blit backend over the `size`-byte buffer at `base` whose driver
    /// flushes it.
    pub fn new(base: usize, size: usize) -> (b: BlitBackend)
        ensures
            b.base == base && b.size == size && b.flush,
    {
        BlitBackend { base, size, flush: true }
    }

    /// The kernel-virtual address of the buffer.
    pub fn base_va(&self) -> (va: usize)
        ensures
            va == self.base,
    {
        self.base
    }
}

/// Where the pixels live.
#[derive(Clone, Copy, Debug, PartialEq, Eq, Structural)]
pub enum FrameBufferBackend {
    Mmio(IoMemRegion),
    Blit(BlitBackend),
}

/// One colour map entry, 16 bits per channel.
#[derive(Clone, Copy, Debug, PartialEq, Eq, Structural)]
pub struct ColorMapEntry {
    pub red: u16,
    pub green: u16,
    pub blue: u16,
    pub transp: u16,
}

/// The framebuffer.
pub struct FrameBuffer {
    pub backend: FrameBufferBackend,
    pub width: usize,
    pub height: usize,
    pub line_size: usize,
    pub pixel_format: PixelFormat,
    /// The software colour map.
    pub cmap: Vec<ColorMapEntry>,
    /// The pixel memory, `buffer_size` bytes.
    pub mem: Vec<u8>,
}

/// The size of a backend's pixel memory.
pub open spec fn backend_size(b: FrameBufferBackend) -> nat {
    match b {
        FrameBufferBackend::Mmio(io) => io.size as nat,
        FrameBufferBackend::Blit(bb) => bb.size as nat,
    }
}

/// A dirty rectangle `(x, y, width, height)` to push to the display.
pub type FlushRegion = (usize, usize, usize, usize);

fn zeroed(n: usize) -> (v: Vec<u8>)
    ensures
        v@ == Seq::new(n as nat, |i: int| 0u8),
{
    let mut v: Vec<u8> = Vec::new();
    let mut i: usize = 0;
    while i < n
        invariant
            0 <= i <= n,
            v@ == Seq::new(i as nat, |k: int| 0u8),
        decreases n - i,
    {
        v.push(0);
        i = i + 1;
        proof {
            assert(v@ =~= Seq::new(i as nat, |k: int| 0u8));
        }
    }
    v
}

impl FrameBuffer {
    /// The pixel memory matches the backend's size.
    pub open spec fn wf(&self) -> bool {
        self.mem@.len() == backend_size(self.backend)
    }

    /// A framebuffer over a memory-mapped linear framebuffer; its memory
    /// starts cleared and its colour map empty.
    pub fn new_mmio(io_mem: IoMemRegion, width: usize, height: usize, line_size: usize, pixel_format: PixelFormat) -> (fb: FrameBuffer)
        ensures
            fb.wf(),
            fb.backend == FrameBufferBackend::Mmio(io_mem),
            fb.width == width && fb.height == height && fb.line_size == line_size,
            fb.pixel_format == pixel_format,
            fb.cmap@.len() == 0,
            fb.mem@ == Seq::new(io_mem.size as nat, |i: int| 0u8),
    {
        FrameBuffer {
            backend: FrameBufferBackend::Mmio(io_mem),
            width,
            height,
            line_size,
            pixel_format,
            cmap: Vec::new(),
            mem: zeroed(io_mem.size),
        }
    }

    /// A framebuffer over a DMA buffer blitted on flush; its memory starts
    /// cleared and its colour map empty.
    pub fn new_blit(backing: BlitBackend, width: usize, height: usize, line_size: usize, pixel_format: PixelFormat) -> (fb: FrameBuffer)
        ensures
            fb.wf(),
            fb.backend == FrameBufferBackend::Blit(backing),
            fb.width == width && fb.height == height && fb.line_size == line_size,
            fb.pixel_format == pixel_format,
            fb.cmap@.len() == 0,
            fb.mem@ == Seq::new(backing.size as nat, |i: int| 0u8),
    {
        FrameBuffer {
            backend: FrameBufferBackend::Blit(backing),
            width,
            height,
            line_size,
            pixel_format,
            cmap: Vec::new(),
            mem: zeroed(backing.size),
        }
    }

    pub fn width(&self) -> (w: usize)
        ensures
            w == self.width,
    {
        self.width
    }

    pub fn height(&self) -> (h: usize)
        ensures
            h == self.height,
    {
        self.height
    }

    /// The byte stride between rows.
    pub fn line_size(&self) -> (l: usize)
        ensures
            l == self.line_size,
    {
        self.line_size
    }

    /// The size of the pixel memory in bytes.
    pub fn buffer_size(&self) -> (s: usize)
        ensures
            s == backend_size(self.backend),
    {
        match &self.backend {
            FrameBufferBackend::Mmio(io) => io.size(),
            FrameBufferBackend::Blit(b) => b.size,
        }
    }

    /// The physical address of the pixel memory: the region's address for
    /// memory-mapped I/O; for a DMA buffer, its address less the linear
    /// mapping base, if it lies in the linear mapping.
    pub fn physical_address(&self) -> (pa: Option<u64>)
        ensures
            pa == match self.backend {
                FrameBufferBackend::Mmio(io) => Some(io.paddr as u64),
                FrameBufferBackend::Blit(b) => if b.base >= LINEAR_BASE {
                    Some((b.base - LINEAR_BASE) as u64)
                } else {
                    None
                },
            },
    {
        match &self.backend {
            FrameBufferBackend::Mmio(io) => Some(io.paddr() as u64),
            FrameBufferBackend::Blit(b) => {
                let va = b.base_va() as u64;
                if va >= LINEAR_BASE {
                    Some(va - LINEAR_BASE)
                } else {
                    None
                }
            },
        }
    }

    /// The memory-mapped I/O region, for an MMIO-backed framebuffer.
    pub fn io_mem(&self) -> (io: Option<IoMemRegion>)
        ensures
            io == match self.backend {
                FrameBufferBackend::Mmio(r) => Some(r),
                FrameBufferBackend::Blit(_) => None,
            },
    {
        match &self.backend {
            FrameBufferBackend::Mmio(io) => Some(*io),
            FrameBufferBackend::Blit(_) => None,
        }
    }

    pub fn is_mmio(&self) -> (m: bool)
        ensures
            m == self.backend is Mmio,
    {
        match &self.backend {
            FrameBufferBackend::Mmio(_) => true,
            FrameBufferBackend::Blit(_) => false,
        }
    }

    pub fn pixel_format(&self) -> (f: PixelFormat)
        ensures
            f == self.pixel_format,
    {
        self.pixel_format
    }

    /// The byte offset of pixel `(x, y)`.
    pub fn calc_offset(&self, x: usize, y: usize) -> (o: PixelOffset)
        requires
            x * format_nbytes(self.pixel_format) + y * self.line_size <= usize::MAX,
        ensures
            o.offset == (x * format_nbytes(self.pixel_format) + y * self.line_size) as isize,
            x * format_nbytes(self.pixel_format) + y * self.line_size <= isize::MAX ==> o.offset
                == x * format_nbytes(self.pixel_format) + y * self.line_size,
            o.nbytes == format_nbytes(self.pixel_format),
            o.line_size == self.line_size,
    {
        let nb = self.pixel_format.nbytes();
        assert(0 <= x * nb && 0 <= y * self.line_size) by (nonlinear_arith);
        let off = x * nb + y * self.line_size;
        PixelOffset { nbytes: nb, line_size: self.line_size, offset: off as isize }
    }

    /// Writes `bytes` at byte `offset` of the pixel memory. A memory-mapped
    /// framebuffer refuses a range past its end; a DMA buffer must not be
    /// written past its end.
    pub fn write_bytes_at(&mut self, offset: usize, bytes: &[u8]) -> (r: Result<(), FbError>)
        requires
            old(self).wf(),
            old(self).backend is Blit ==> offset + bytes@.len() <= old(self).mem@.len(),
        ensures
            final(self).wf(),
            final(self).backend == old(self).backend,
            final(self).cmap@ == old(self).cmap@,
            final(self).width == old(self).width,
            final(self).height == old(self).height,
            final(self).line_size == old(self).line_size,
            final(self).pixel_format == old(self).pixel_format,
            r == write_result(old(self).mem@.len(), offset as int, bytes@.len()),
            final(self).mem@ == mem_after_write(old(self).mem@, offset as int, bytes@),
    {
        let size = self.mem.len();
        if offset > size || bytes.len() > size - offset {
            return Err(FbError::InvalidArgs);
        }
        let ghost before = self.mem@;
        let mut i: usize = 0;
        while i < bytes.len()
            invariant
                0 <= i <= bytes@.len(),
                offset + bytes@.len() <= size,
                size == before.len(),
                self.mem@.len() == size,
                self.backend == old(self).backend,
                self.cmap@ == old(self).cmap@,
                self.width == old(self).width,
                self.height == old(self).height,
                self.line_size == old(self).line_size,
                self.pixel_format == old(self).pixel_format,
                before == old(self).mem@,
                old(self).wf(),
                forall|k: int| 0 <= k < size ==> #[trigger] self.mem@[k] == if offset <= k < offset + i {
                    bytes@[k - offset]
                } else {
                    before[k]
                },
            decreases bytes@.len() - i,
        {
            self.mem.set(offset + i, bytes[i]);
            i = i + 1;
        }
        proof {
            assert(self.mem@ =~= before.subrange(0, offset as int) + bytes@ + before.subrange(
                offset + bytes@.len(),
                before.len() as int,
            ));
        }
        Ok(())
    }

    /// Writes the bytes of a rendered pixel at a pixel offset.
    /// The same result and the same change as `write_bytes_at` of the pixel's
    /// bytes at the offset taken as an unsigned byte offset, as
    /// [`PixelOffset::as_usize`] gives it: a negative one lies far past the
    /// end, and a memory-mapped framebuffer refuses it.
    pub fn write_pixel_at(&mut self, offset: PixelOffset, pixel: &[u8]) -> (r: Result<(), FbError>)
        requires
            old(self).wf(),
            old(self).backend is Blit ==> (offset.offset as usize) + pixel@.len() <= old(self).mem@.len(),
        ensures
            final(self).wf(),
            final(self).backend == old(self).backend,
            final(self).cmap@ == old(self).cmap@,
            final(self).width == old(self).width,
            final(self).height == old(self).height,
            final(self).line_size == old(self).line_size,
            final(self).pixel_format == old(self).pixel_format,
            r == write_result(old(self).mem@.len(), (offset.offset as usize) as int, pixel@.len()),
            final(self).mem@ == mem_after_write(old(self).mem@, (offset.offset as usize) as int, pixel@),
    {
        self.write_bytes_at(offset.as_usize(), pixel)
    }

    /// Reads `len` bytes at byte `offset` of the pixel memory. A
    /// memory-mapped framebuffer refuses a range past its end; a DMA buffer
    /// must not be read past its end.
    pub fn read_bytes_at(&self, offset: usize, len: usize) -> (r: Result<Vec<u8>, FbError>)
        requires
            self.wf(),
            self.backend is Blit ==> offset + len <= self.mem@.len(),
        ensures
            offset + len <= self.mem@.len() ==> r is Ok && r->Ok_0@ == self.mem@.subrange(
                offset as int,
                offset + len,
            ),
            offset + len > self.mem@.len() ==> r == Err::<Vec<u8>, FbError>(FbError::InvalidArgs),
    {
        let size = self.mem.len();
        if offset > size || len > size - offset {
            return Err(FbError::InvalidArgs);
        }
        let mut out: Vec<u8> = Vec::new();
        let mut i: usize = 0;
        while i < len
            invariant
                0 <= i <= len,
                offset + len <= size,
                size == self.mem@.len(),
                out@ == self.mem@.subrange(offset as int, offset + i),
            decreases len - i,
        {
            out.push(self.mem[offset + i]);
            i = i + 1;
            proof {
                assert(out@ =~= self.mem@.subrange(offset as int, offset + i));
            }
        }
        Ok(out)
    }

    /// The region to push to the display for a flush of `(x, y, width,
    /// height)`: only a DMA-buffer framebuffer with a flush routine has one.
    pub fn flush(&self, x: usize, y: usize, width: usize, height: usize) -> (f: Option<FlushRegion>)
        ensures
            f == match self.backend {
                FrameBufferBackend::Blit(b) => if b.flush {
                    Some((x, y, width, height))
                } else {
                    None
                },
                FrameBufferBackend::Mmio(_) => None,
            },
    {
        match &self.backend {
            FrameBufferBackend::Blit(b) => {
                if b.flush {
                    Some((x, y, width, height))
                } else {
                    None
                }
            },
            FrameBufferBackend::Mmio(_) => None,
        }
    }

    /// A flush of the whole framebuffer.
    pub fn flush_all(&self) -> (f: Option<FlushRegion>)
        ensures
            f == match self.backend {
                FrameBufferBackend::Blit(b) => if b.flush {
                    Some((0usize, 0usize, self.width, self.height))
                } else {
                    None
                },
                FrameBufferBackend::Mmio(_) => None,
            },
    {
        self.flush(0, 0, self.width, self.height)
    }

    /// Clears the pixel memory to zero and flushes the whole framebuffer.
    pub fn clear(&mut self) -> (f: Option<FlushRegion>)
        requires
            old(self).wf(),
        ensures
            final(self).wf(),
            final(self).mem@ == Seq::new(old(self).mem@.len(), |i: int| 0u8),
            final(self).backend == old(self).backend,
            final(self).cmap@ == old(self).cmap@,
            final(self).width == old(self).width,
            final(self).height == old(self).height,
            final(self).line_size == old(self).line_size,
            final(self).pixel_format == old(self).pixel_format,
            f == old(self).flush_all_spec(),
    {
        let size = self.buffer_size();
        let frame = zeroed(size);
        let _ = self.write_bytes_at(0, frame.as_slice());
        proof {
            assert(self.mem@ =~= Seq::new(old(self).mem@.len(), |i: int| 0u8));
        }
        self.flush_all()
    }

    pub open spec fn flush_all_spec(&self) -> Option<FlushRegion> {
        match self.backend {
            FrameBufferBackend::Blit(b) => if b.flush {
                Some((0usize, 0usize, self.width, self.height))
            } else {
                None
            },
            FrameBufferBackend::Mmio(_) => None,
        }
    }

    /// The colour map after `set_color_map(start, entries)`: grown with
    /// zero entries to cover the range, then overwritten on it.
    pub open spec fn cmap_after_set(cmap: Seq<ColorMapEntry>, start: int, entries: Seq<ColorMapEntry>) -> Seq<ColorMapEntry> {
        let end = start + entries.len();
        let len = if cmap.len() < end { end } else { cmap.len() as int };
        Seq::new(
            len as nat,
            |i: int|
                if start <= i < end {
                    entries[i - start]
                } else if i < cmap.len() {
                    cmap[i]
                } else {
                    ColorMapEntry { red: 0, green: 0, blue: 0, transp: 0 }
                },
        )
    }

    /// Sets colour map entries from index `start`; refused when the range
    /// goes past `MAX_CMAP_SIZE`.
    pub fn set_color_map(&mut self, start: usize, entries: &[ColorMapEntry]) -> (r: Result<(), FbError>)
        ensures
            (start > MAX_CMAP_SIZE || entries@.len() > MAX_CMAP_SIZE - start) ==> r == Err::<(), FbError>(
                FbError::InvalidArgs,
            ) && final(self).cmap@ == old(self).cmap@,
            !(start > MAX_CMAP_SIZE || entries@.len() > MAX_CMAP_SIZE - start) ==> r is Ok
                && final(self).cmap@ == Self::cmap_after_set(old(self).cmap@, start as int, entries@),
            final(self).mem@ == old(self).mem@,
            final(self).backend == old(self).backend,
            final(self).width == old(self).width,
            final(self).height == old(self).height,
            final(self).line_size == old(self).line_size,
            final(self).pixel_format == old(self).pixel_format,
    {
        if start > MAX_CMAP_SIZE || entries.len() > MAX_CMAP_SIZE - start {
            return Err(FbError::InvalidArgs);
        }
        let required_len = start + entries.len();
        let ghost old_cmap = self.cmap@;
        while self.cmap.len() < required_len
            invariant
                self.mem@ == old(self).mem@,
                self.backend == old(self).backend,
                self.width == old(self).width,
                self.height == old(self).height,
                self.line_size == old(self).line_size,
                self.pixel_format == old(self).pixel_format,
                required_len == start + entries@.len(),
                old_cmap.len() <= self.cmap@.len() <= if old_cmap.len() < required_len { required_len as int } else { old_cmap.len() as int },
                forall|i: int| 0 <= i < self.cmap@.len() ==> #[trigger] self.cmap@[i] == if i < old_cmap.len() {
                    old_cmap[i]
                } else {
                    ColorMapEntry { red: 0, green: 0, blue: 0, transp: 0 }
                },
            decreases required_len - self.cmap@.len(),
        {
            self.cmap.push(ColorMapEntry { red: 0, green: 0, blue: 0, transp: 0 });
        }
        let ghost grown = self.cmap@;
        let mut i: usize = 0;
        while i < entries.len()
            invariant
                self.mem@ == old(self).mem@,
                self.backend == old(self).backend,
                self.width == old(self).width,
                self.height == old(self).height,
                self.line_size == old(self).line_size,
                self.pixel_format == old(self).pixel_format,
                0 <= i <= entries@.len(),
                required_len == start + entries@.len(),
                self.cmap@.len() == grown.len(),
                grown.len() >= required_len,
                forall|k: int| 0 <= k < grown.len() ==> #[trigger] self.cmap@[k] == if start <= k < start + i {
                    entries@[k - start]
                } else {
                    grown[k]
                },
            decreases entries@.len() - i,
        {
            self.cmap.set(start + i, entries[i]);
            i = i + 1;
        }
        proof {
            assert(self.cmap@ =~= Self::cmap_after_set(old_cmap, start as int, entries@));
        }
        Ok(())
    }

    /// The colour map entries `start..start + len`, if they all exist.
    pub fn get_color_map(&self, start: usize, len: usize) -> (r: Option<Vec<ColorMapEntry>>)
        ensures
            (start >= self.cmap@.len() || len > self.cmap@.len() - start) ==> r is None,
            !(start >= self.cmap@.len() || len > self.cmap@.len() - start) ==> r is Some
                && r->0@ == self.cmap@.subrange(start as int, start + len),
    {
        if start >= self.cmap.len() || len > self.cmap.len() - start {
            return None;
        }
        let n = self.cmap.len();
        let mut out: Vec<ColorMapEntry> = Vec::new();
        let mut i: usize = 0;
        while i < len
            invariant
                n == self.cmap@.len(),
                0 <= i <= len,
                start + len <= self.cmap@.len(),
                out@ == self.cmap@.subrange(start as int, start + i),
            decreases len - i,
        {
            out.push(self.cmap[start + i]);
            i = i + 1;
            proof {
                assert(out@ =~= self.cmap@.subrange(start as int, start + i));
            }
        }
        Some(out)
    }
}

/// The byte offset of a pixel, with the steps that move it by columns and
/// rows.
#[derive(Clone, Copy, Debug)]
pub struct PixelOffset {
    pub nbytes: usize,
    pub line_size: usize,
    pub offset: isize,
}

impl PixelOffset {
    /// Moves the offset by `x_delta` columns.
    pub fn x_add(&mut self, x_delta: isize)
        requires
            isize::MIN <= x_delta * (old(self).nbytes as isize) <= isize::MAX,
            isize::MIN <= old(self).offset + x_delta * (old(self).nbytes as isize) <= isize::MAX,
        ensures
            final(self).offset == old(self).offset + x_delta * (old(self).nbytes as isize),
            final(self).nbytes == old(self).nbytes,
            final(self).line_size == old(self).line_size,
    {
        let delta = x_delta * self.nbytes as isize;
        self.offset = self.offset + delta;
    }

    /// Moves the offset by `y_delta` rows.
    pub fn y_add(&mut self, y_delta: isize)
        requires
            isize::MIN <= y_delta * (old(self).line_size as isize) <= isize::MAX,
            isize::MIN <= old(self).offset + y_delta * (old(self).line_size as isize) <= isize::MAX,
        ensures
            final(self).offset == old(self).offset + y_delta * (old(self).line_size as isize),
            final(self).nbytes == old(self).nbytes,
            final(self).line_size == old(self).line_size,
    {
        let delta = y_delta * self.line_size as isize;
        self.offset = self.offset + delta;
    }

    /// The offset as an unsigned byte offset.
    pub fn as_usize(&self) -> (u: usize)
        ensures
            u == self.offset as usize,
            self.offset >= 0 ==> u == self.offset,
    {
        self.offset as usize
    }
}

/// Moving the offset of pixel `(x, y)` by `dy` rows gives the offset of
/// pixel `(x, y + dy)`, wherever both offsets fit an `isize`.
pub proof fn lemma_y_add_moves_rows(fb: FrameBuffer, x: usize, y: usize, dy: isize)
    requires
        0 <= y + dy <= usize::MAX,
        x * format_nbytes(fb.pixel_format) + y * fb.line_size <= isize::MAX,
        x * format_nbytes(fb.pixel_format) + (y + dy) * fb.line_size <= isize::MAX,
    ensures
        ((x * format_nbytes(fb.pixel_format) + y * fb.line_size) as isize) + dy * (fb.line_size as isize)
            == x * format_nbytes(fb.pixel_format) + (y + dy) * fb.line_size,
{
    let a: int = x * format_nbytes(fb.pixel_format);
    let l: int = fb.line_size as int;
    assert(a >= 0 && y * l >= 0 && (y + dy) * l >= 0) by (nonlinear_arith)
        requires
            a == x * format_nbytes(fb.pixel_format),
            l >= 0,
            y + dy >= 0,
    ;
    if dy != 0 {
        assert(l <= isize::MAX) by (nonlinear_arith)
            requires
                y >= 0,
                y + dy >= 0,
                dy != 0,
                l >= 0,
                a >= 0,
                a + y * l <= isize::MAX,
                a + (y + dy) * l <= isize::MAX,
        ;
        assert(y * l + dy * l == (y + dy) * l) by (nonlinear_arith);
    }
}

/// The process-wide framebuffer: empty until a display publishes one, and
/// the first one published stays.
pub struct FrameBufferSlot {
    pub fb: Option<FrameBuffer>,
    pub published: bool,
}

impl FrameBufferSlot {
    pub fn new() -> (s: FrameBufferSlot)
        ensures
            s.fb is None && !s.published,
    {
        FrameBufferSlot { fb: None, published: false }
    }

    /// The installed framebuffer, if any.
    pub fn get(&self) -> (f: Option<&FrameBuffer>)
        ensures
            f == match self.fb {
                Some(ref fb) => Some(fb),
                None => None,
            },
    {
        match &self.fb {
            Some(fb) => Some(fb),
            None => None,
        }
    }

    /// Installs `fb`, cleared, unless a framebuffer was published before;
    /// then `fb` is handed back and the slot is unchanged. On install, the
    /// flush of the cleared framebuffer is returned.
    pub fn publish(&mut self, fb: FrameBuffer) -> (r: Result<Option<FlushRegion>, FrameBuffer>)
        requires
            fb.wf(),
        ensures
            old(self).published ==> r == Err::<Option<FlushRegion>, FrameBuffer>(fb) && final(self).published
                && final(self).fb == old(self).fb,
            !old(self).published ==> r is Ok && final(self).published && final(self).fb is Some
                && final(self).fb->0.mem@ == Seq::new(fb.mem@.len(), |i: int| 0u8)
                && final(self).fb->0.cmap@ == fb.cmap@ && final(self).fb->0.backend == fb.backend
                && final(self).fb->0.width == fb.width && final(self).fb->0.height == fb.height
                && final(self).fb->0.line_size == fb.line_size
                && final(self).fb->0.pixel_format == fb.pixel_format
                && r == Ok::<Option<FlushRegion>, FrameBuffer>(fb.flush_all_spec()),
    {
        if self.published {
            return Err(fb);
        }
        self.published = true;
        let mut fb = fb;
        let f = fb.clear();
        self.fb = Some(fb);
        Ok(f)
    }
}

/// What writing `len` bytes at `offset` of a memory of `mem_len` bytes
/// returns: `Ok` when the range fits, `InvalidArgs` otherwise.
pub open spec fn write_result(mem_len: nat, offset: int, len: nat) -> Result<(), FbError> {
    if 0 <= offset && offset + len <= mem_len {
        Ok(())
    } else {
        Err(FbError::InvalidArgs)
    }
}

/// The memory after writing `bytes` at `offset`: the range replaced when it
/// fits, the memory unchanged otherwise.
pub open spec fn mem_after_write(mem: Seq<u8>, offset: int, bytes: Seq<u8>) -> Seq<u8> {
    if 0 <= offset && offset + bytes.len() <= mem.len() {
        mem.subrange(0, offset) + bytes + mem.subrange(offset + bytes.len(), mem.len() as int)
    } else {
        mem
    }
}

/// The memory after the writes `ws`, each an offset and bytes, in order.
pub open spec fn mem_after_writes(mem: Seq<u8>, ws: Seq<(int, Seq<u8>)>) -> Seq<u8>
    decreases ws.len(),
{
    if ws.len() == 0 {
        mem
    } else {
        mem_after_write(mem_after_writes(mem, ws.drop_last()), ws.last().0, ws.last().1)
    }
}

/// A write that does not fit, or lies beside `[offset, offset + len)`,
/// leaves that range as it was.
pub open spec fn leaves_range(mem_len: nat, w: (int, Seq<u8>), offset: int, len: nat) -> bool {
    ||| !(0 <= w.0 && w.0 + w.1.len() <= mem_len)
    ||| w.0 + w.1.len() <= offset
    ||| offset + len <= w.0
}

/// Reading back a range just written gives the bytes written.
pub proof fn lemma_write_then_read(mem: Seq<u8>, offset: int, bytes: Seq<u8>)
    requires
        0 <= offset,
        offset + bytes.len() <= mem.len(),
    ensures
        mem_after_write(mem, offset, bytes).subrange(offset, offset + bytes.len()) == bytes,
        mem_after_write(mem, offset, bytes).len() == mem.len(),
{
    assert(mem_after_write(mem, offset, bytes).subrange(offset, offset + bytes.len()) =~= bytes);
}

/// A write leaves the length, and every range it leaves, as they were.
proof fn lemma_write_elsewhere(mem: Seq<u8>, w: (int, Seq<u8>), offset: int, len: nat)
    requires
        0 <= offset,
        offset + len <= mem.len(),
        leaves_range(mem.len(), w, offset, len),
    ensures
        mem_after_write(mem, w.0, w.1).len() == mem.len(),
        mem_after_write(mem, w.0, w.1).subrange(offset, offset + len) == mem.subrange(offset, offset + len),
{
    assert(mem_after_write(mem, w.0, w.1).subrange(offset, offset + len) =~= mem.subrange(offset, offset + len));
}

/// Reading a range gives back the bytes last written there: later writes
/// that do not touch it (beside it, or refused for not fitting) leave it as
/// it was.
pub proof fn lemma_read_after_later_writes(mem: Seq<u8>, offset: int, bytes: Seq<u8>, later: Seq<(int, Seq<u8>)>)
    requires
        0 <= offset,
        offset + bytes.len() <= mem.len(),
        forall|k: int| 0 <= k < later.len() ==> leaves_range(mem.len(), #[trigger] later[k], offset, bytes.len()),
    ensures
        mem_after_writes(mem_after_write(mem, offset, bytes), later).len() == mem.len(),
        mem_after_writes(mem_after_write(mem, offset, bytes), later).subrange(offset, offset + bytes.len())
            == bytes,
    decreases later.len(),
{
    lemma_write_then_read(mem, offset, bytes);
    if later.len() > 0 {
        let rest = later.drop_last();
        assert forall|k: int| 0 <= k < rest.len() implies leaves_range(mem.len(), #[trigger] rest[k], offset, bytes.len()) by {
            assert(rest[k] == later[k]);
        }
        lemma_read_after_later_writes(mem, offset, bytes, rest);
        let before = mem_after_writes(mem_after_write(mem, offset, bytes), rest);
        assert(leaves_range(mem.len(), later[later.len() - 1], offset, bytes.len()));
        lemma_write_elsewhere(before, later.last(), offset, bytes.len());
    }
}

/// After a successful `set_color_map(start, entries)`, getting the same
/// range gives `entries` back.
pub proof fn lemma_cmap_get_after_set(cmap: Seq<ColorMapEntry>, start: int, entries: Seq<ColorMapEntry>)
    requires
        0 <= start,
        entries.len() > 0,
    ensures
        ({
            let after = FrameBuffer::cmap_after_set(cmap, start, entries);
            &&& start < after.len()
            &&& entries.len() <= after.len() - start
            &&& after.subrange(start, start + entries.len()) == entries
        }),
{
    let after = FrameBuffer::cmap_after_set(cmap, start, entries);
    assert(after.subrange(start, start + entries.len()) =~= entries);
}

/// Setting colour map entries leaves the entries outside the range as they
/// were.
pub proof fn lemma_cmap_set_keeps_others(cmap: Seq<ColorMapEntry>, start: int, entries: Seq<ColorMapEntry>, i: int)
    requires
        0 <= start,
        0 <= i < cmap.len(),
        !(start <= i < start + entries.len()),
    ensures
        FrameBuffer::cmap_after_set(cmap, start, entries)[i] == cmap[i],
{
}

/// The pixel format a boot framebuffer of `bpp` bits per pixel has, by its
/// depth alone.
pub open spec fn format_of_bpp(bpp: usize) -> Option<PixelFormat> {
    if bpp == 8 {
        Some(PixelFormat::Grayscale8)
    } else if bpp == 16 {
        Some(PixelFormat::Rgb565)
    } else if bpp == 24 {
        Some(PixelFormat::Rgb888)
    } else if bpp == 32 {
        Some(PixelFormat::BgrReserved)
    } else {
        None
    }
}

/// The geometry of the boot framebuffer: its pixel format, line size and
/// byte size. There is none at address zero or for an unsupported depth.
pub fn boot_framebuffer_geometry(address: usize, width: usize, height: usize, bpp: usize) -> (r: Option<(PixelFormat, usize, usize)>)
    requires
        format_of_bpp(bpp) is Some ==> width * format_nbytes(format_of_bpp(bpp)->0) * height
            <= usize::MAX,
        format_of_bpp(bpp) is Some ==> width * format_nbytes(format_of_bpp(bpp)->0) <= usize::MAX,
    ensures
        (address == 0 || format_of_bpp(bpp) is None) ==> r is None,
        address != 0 && format_of_bpp(bpp) is Some ==> r == Some(
            (
                format_of_bpp(bpp)->0,
                (width * format_nbytes(format_of_bpp(bpp)->0)) as usize,
                (height * (width * format_nbytes(format_of_bpp(bpp)->0))) as usize,
            ),
        ),
{
    if address == 0 {
        return None;
    }
    let format = if bpp == 8 {
        PixelFormat::Grayscale8
    } else if bpp == 16 {
        PixelFormat::Rgb565
    } else if bpp == 24 {
        PixelFormat::Rgb888
    } else if bpp == 32 {
        PixelFormat::BgrReserved
    } else {
        return None;
    };
    let nb = format.nbytes();
    let line_size = width * nb;
    assert(height * line_size == width * nb * height) by (nonlinear_arith)
        requires
            line_size == width * nb,
    ;
    let fb_size = height * line_size;
    Some((format, line_size, fb_size))
}

} // verus!
