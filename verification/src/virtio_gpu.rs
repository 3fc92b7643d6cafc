//! virtio-gpu 2D wire formats and the decisions of the GPU device driver:
//! command headers and bodies as the bytes the device reads, response
//! checks, the display-size query, and the framebuffer geometry.

use vstd::prelude::*;

use crate::wire::{le32, le64, push_u32, push_u64, push_zeros, read_u32_le, read_u64_le, u32_at, u64_at, zeros};

verus! {

/// Number of the control queue.
pub const QUEUE_CONTROL: u16 = 0;

/// Number of the cursor queue.
pub const QUEUE_CURSOR: u16 = 1;

/// Entries of each queue.
pub const QUEUE_SIZE: u16 = 64;

/// The scanout the driver binds its resource to.
pub const SCANOUT_ID: u8 = 0;

/// Bytes of a page frame.
pub const PAGE_SIZE: usize = 4096;

/// Display size used when the device reports none.
pub const DEFAULT_WIDTH: u32 = 800;

/// Display size used when the device reports none.
pub const DEFAULT_HEIGHT: u32 = 600;

/// 2D resource pixel formats.
#[derive(Clone, Copy, Debug, PartialEq, Eq, Structural)]
pub enum VirtioGpuFormat {
    B8G8R8X8,
    B8G8R8A8,
}

impl VirtioGpuFormat {
    /// The format's number on the wire.
    pub open spec fn spec_code(self) -> u32 {
        match self {
            VirtioGpuFormat::B8G8R8X8 => 2,
            VirtioGpuFormat::B8G8R8A8 => 6,
        }
    }

    pub fn code(self) -> (c: u32)
        ensures
            c == self.spec_code(),
    {
        match self {
            VirtioGpuFormat::B8G8R8X8 => 2,
            VirtioGpuFormat::B8G8R8A8 => 6,
        }
    }
}

/// Control queue command types.
#[derive(Clone, Copy, Debug, PartialEq, Eq, Structural)]
pub enum CmdType {
    GetDisplayInfo,
    ResourceCreate2d,
    ResourceUnref,
    SetScanout,
    ResourceFlush,
    TransferToHost2d,
    ResourceAttachBacking,
    ResourceDetachBacking,
    GetCapsetInfo,
    GetCapset,
    ResourceAssignUuid,
}

impl CmdType {
    /// The command's number on the wire.
    pub open spec fn spec_code(self) -> u32 {
        match self {
            CmdType::GetDisplayInfo => 0x0100,
            CmdType::ResourceCreate2d => 0x0101,
            CmdType::ResourceUnref => 0x0102,
            CmdType::SetScanout => 0x0103,
            CmdType::ResourceFlush => 0x0104,
            CmdType::TransferToHost2d => 0x0105,
            CmdType::ResourceAttachBacking => 0x0106,
            CmdType::ResourceDetachBacking => 0x0107,
            CmdType::GetCapsetInfo => 0x0108,
            CmdType::GetCapset => 0x0109,
            CmdType::ResourceAssignUuid => 0x010b,
        }
    }

    pub fn code(self) -> (c: u32)
        ensures
            c == self.spec_code(),
    {
        match self {
            CmdType::GetDisplayInfo => 0x0100,
            CmdType::ResourceCreate2d => 0x0101,
            CmdType::ResourceUnref => 0x0102,
            CmdType::SetScanout => 0x0103,
            CmdType::ResourceFlush => 0x0104,
            CmdType::TransferToHost2d => 0x0105,
            CmdType::ResourceAttachBacking => 0x0106,
            CmdType::ResourceDetachBacking => 0x0107,
            CmdType::GetCapsetInfo => 0x0108,
            CmdType::GetCapset => 0x0109,
            CmdType::ResourceAssignUuid => 0x010b,
        }
    }
}

/// Response types.
#[derive(Clone, Copy, Debug, PartialEq, Eq, Structural)]
pub enum RespType {
    Okay,
    OkNodata,
    ErrUnspec,
    ErrOutOfMemory,
    ErrInvalidScanoutId,
    ErrInvalidResourceId,
    ErrInvalidContextId,
    ErrInvalidParameter,
}

impl RespType {
    /// The response's number on the wire.
    pub open spec fn spec_code(self) -> u32 {
        match self {
            RespType::Okay => 0x1100,
            RespType::OkNodata => 0x1101,
            RespType::ErrUnspec => 0x1200,
            RespType::ErrOutOfMemory => 0x1201,
            RespType::ErrInvalidScanoutId => 0x1202,
            RespType::ErrInvalidResourceId => 0x1203,
            RespType::ErrInvalidContextId => 0x1204,
            RespType::ErrInvalidParameter => 0x1205,
        }
    }

    pub fn code(self) -> (c: u32)
        ensures
            c == self.spec_code(),
    {
        match self {
            RespType::Okay => 0x1100,
            RespType::OkNodata => 0x1101,
            RespType::ErrUnspec => 0x1200,
            RespType::ErrOutOfMemory => 0x1201,
            RespType::ErrInvalidScanoutId => 0x1202,
            RespType::ErrInvalidResourceId => 0x1203,
            RespType::ErrInvalidContextId => 0x1204,
            RespType::ErrInvalidParameter => 0x1205,
        }
    }

    /// The response type with number `code`, if there is one.
    pub fn from_code(code: u32) -> (r: Option<RespType>)
        ensures
            match r {
                Some(t) => t.spec_code() == code,
                None => forall|t: RespType| t.spec_code() != code,
            },
    {
        let r = match code {
            0x1100 => Some(RespType::Okay),
            0x1101 => Some(RespType::OkNodata),
            0x1200 => Some(RespType::ErrUnspec),
            0x1201 => Some(RespType::ErrOutOfMemory),
            0x1202 => Some(RespType::ErrInvalidScanoutId),
            0x1203 => Some(RespType::ErrInvalidResourceId),
            0x1204 => Some(RespType::ErrInvalidContextId),
            0x1205 => Some(RespType::ErrInvalidParameter),
            _ => None,
        };
        proof {
            if r is None {
                assert forall|t: RespType| t.spec_code() != code by {
                    match t {
                        RespType::Okay => {},
                        RespType::OkNodata => {},
                        RespType::ErrUnspec => {},
                        RespType::ErrOutOfMemory => {},
                        RespType::ErrInvalidScanoutId => {},
                        RespType::ErrInvalidResourceId => {},
                        RespType::ErrInvalidContextId => {},
                        RespType::ErrInvalidParameter => {},
                    }
                }
            }
        }
        r
    }
}

/// Distinct response types have distinct numbers, so reading back the
/// number of a response type gives that type.
pub proof fn lemma_resp_code_injective(a: RespType, b: RespType)
    ensures
        a.spec_code() == b.spec_code() ==> a == b,
{
}

/// Errors of the GPU driver.
#[derive(Clone, Copy, Debug, PartialEq, Eq, Structural)]
pub enum VirtioDeviceError {
    /// The device answered with something the driver does not accept.
    UnsupportedConfig,
    /// The queue refused the buffers.
    InvalidQueueArgs,
    /// A DMA buffer could not be allocated.
    ResourceAlloc,
}

/// The header that starts every command and response.
#[derive(Clone, Copy, Debug, PartialEq, Eq, Structural)]
pub struct VirtioGpuCtrlHdr {
    pub hdr_type: u32,
    pub flags: u32,
    pub fence_id: u64,
    pub ctx_id: u32,
    pub _padding: u32,
}

impl VirtioGpuCtrlHdr {
    /// A header for command `hdr_type` with fence `fence_id`, other fields zero.
    pub fn new(hdr_type: CmdType, fence_id: u64) -> (h: Self)
        ensures
            h.hdr_type == hdr_type.spec_code(),
            h.flags == 0,
            h.fence_id == fence_id,
            h.ctx_id == 0,
            h._padding == 0,
    {
        VirtioGpuCtrlHdr { hdr_type: hdr_type.code(), flags: 0, fence_id, ctx_id: 0, _padding: 0 }
    }

    pub open spec fn spec_bytes(self) -> Seq<u8> {
        le32(self.hdr_type) + le32(self.flags) + le64(self.fence_id) + le32(self.ctx_id) + le32(
            self._padding,
        )
    }

    /// The 24 bytes of the header as the device reads them.
    pub fn to_bytes(&self) -> (b: Vec<u8>)
        ensures
            b@ == self.spec_bytes(),
            b@.len() == 24,
    {
        let mut b: Vec<u8> = Vec::new();
        push_u32(&mut b, self.hdr_type);
        push_u32(&mut b, self.flags);
        push_u64(&mut b, self.fence_id);
        push_u32(&mut b, self.ctx_id);
        push_u32(&mut b, self._padding);
        b
    }

    /// The header at the start of `b`, as the device wrote it.
    pub fn from_bytes(b: &[u8]) -> (h: Self)
        requires
            b@.len() >= 24,
        ensures
            h.hdr_type == u32_at(b@, 0),
            h.flags == u32_at(b@, 4),
            h.fence_id == (u32_at(b@, 8) as u64) | ((u32_at(b@, 12) as u64) << 32),
            h.ctx_id == u32_at(b@, 16),
            h._padding == u32_at(b@, 20),
    {
        let lo = read_u32_le(b, 8) as u64;
        let hi = read_u32_le(b, 12) as u64;
        VirtioGpuCtrlHdr {
            hdr_type: read_u32_le(b, 0),
            flags: read_u32_le(b, 4),
            fence_id: lo | (hi << 32),
            ctx_id: read_u32_le(b, 16),
            _padding: read_u32_le(b, 20),
        }
    }
}

/// The response to a 2D command: a header whose type carries the status.
#[derive(Clone, Copy, Debug, PartialEq, Eq, Structural)]
pub struct RespGeneric {
    pub hdr_type: u32,
    pub flags: u32,
    pub fence_id: u64,
    pub ctx_id: u32,
    pub _padding: u32,
}

impl RespGeneric {
    /// The response the device wrote at the start of `b`.
    pub fn from_bytes(b: &[u8]) -> (r: Self)
        requires
            b@.len() >= 24,
        ensures
            r.hdr_type == u32_at(b@, 0),
            r.flags == u32_at(b@, 4),
            r.fence_id == u64_at(b@, 8),
            r.ctx_id == u32_at(b@, 16),
            r._padding == u32_at(b@, 20),
    {
        RespGeneric {
            hdr_type: read_u32_le(b, 0),
            flags: read_u32_le(b, 4),
            fence_id: read_u64_le(b, 8),
            ctx_id: read_u32_le(b, 16),
            _padding: read_u32_le(b, 20),
        }
    }

    /// Whether the device accepted the command.
    pub fn check(&self) -> (r: Result<(), VirtioDeviceError>)
        ensures
            r is Ok <==> self.hdr_type == RespType::Okay.spec_code(),
            r is Err ==> r == Err::<(), VirtioDeviceError>(VirtioDeviceError::UnsupportedConfig),
    {
        check_ok(self.hdr_type)
    }
}

/// A rectangle on a resource or scanout.
#[derive(Clone, Copy, Debug, PartialEq, Eq, Structural)]
pub struct Rect {
    pub x: u32,
    pub y: u32,
    pub width: u32,
    pub height: u32,
}

impl Rect {
    pub open spec fn spec_bytes(self) -> Seq<u8> {
        le32(self.x) + le32(self.y) + le32(self.width) + le32(self.height)
    }

    /// The 16 bytes of the rectangle.
    pub fn to_bytes(&self) -> (b: Vec<u8>)
        ensures
            b@ == self.spec_bytes(),
    {
        let mut b: Vec<u8> = Vec::new();
        push_u32(&mut b, self.x);
        push_u32(&mut b, self.y);
        push_u32(&mut b, self.width);
        push_u32(&mut b, self.height);
        b
    }
}

/// Body of `RESOURCE_CREATE_2D`.
#[derive(Clone, Copy, Debug, PartialEq, Eq, Structural)]
pub struct ResourceCreate2d {
    pub resource_id: u32,
    pub format: u32,
    pub width: u32,
    pub height: u32,
}

impl ResourceCreate2d {
    pub open spec fn spec_bytes(self) -> Seq<u8> {
        le32(self.resource_id) + le32(self.format) + le32(self.width) + le32(self.height)
    }

    pub fn to_bytes(&self) -> (b: Vec<u8>)
        ensures
            b@ == self.spec_bytes(),
    {
        let mut b: Vec<u8> = Vec::new();
        push_u32(&mut b, self.resource_id);
        push_u32(&mut b, self.format);
        push_u32(&mut b, self.width);
        push_u32(&mut b, self.height);
        b
    }
}

/// Body of `SET_SCANOUT`.
#[derive(Clone, Copy, Debug, PartialEq, Eq, Structural)]
pub struct SetScanout {
    pub r: Rect,
    pub scanout_id: u32,
    pub resource_id: u32,
    pub _padding: u32,
}

impl SetScanout {
    pub open spec fn spec_bytes(self) -> Seq<u8> {
        self.r.spec_bytes() + le32(self.scanout_id) + le32(self.resource_id) + le32(self._padding)
    }

    pub fn to_bytes(&self) -> (b: Vec<u8>)
        ensures
            b@ == self.spec_bytes(),
    {
        let mut b = self.r.to_bytes();
        push_u32(&mut b, self.scanout_id);
        push_u32(&mut b, self.resource_id);
        push_u32(&mut b, self._padding);
        b
    }
}

/// Body of `TRANSFER_TO_HOST_2D`.
#[derive(Clone, Copy, Debug, PartialEq, Eq, Structural)]
pub struct TransferToHost2d {
    pub offset: u64,
    pub r: Rect,
    pub resource_id: u32,
    pub _padding: u32,
}

impl TransferToHost2d {
    pub open spec fn spec_bytes(self) -> Seq<u8> {
        le64(self.offset) + self.r.spec_bytes() + le32(self.resource_id) + le32(self._padding)
    }

    pub fn to_bytes(&self) -> (b: Vec<u8>)
        ensures
            b@ == self.spec_bytes(),
    {
        let mut b: Vec<u8> = Vec::new();
        push_u64(&mut b, self.offset);
        let r = self.r.to_bytes();
        let mut i: usize = 0;
        while i < r.len()
            invariant
                0 <= i <= r@.len(),
                r@ == self.r.spec_bytes(),
                b@ == le64(self.offset) + r@.subrange(0, i as int),
            decreases r@.len() - i,
        {
            b.push(r[i]);
            i = i + 1;
            proof {
                assert(b@ =~= le64(self.offset) + r@.subrange(0, i as int));
            }
        }
        proof {
            assert(r@.subrange(0, r@.len() as int) =~= r@);
        }
        push_u32(&mut b, self.resource_id);
        push_u32(&mut b, self._padding);
        b
    }
}

/// One guest memory range of a resource's backing.
#[derive(Clone, Copy, Debug, PartialEq, Eq, Structural)]
pub struct MemEntry {
    pub addr: u64,
    pub length: u32,
    pub _padding: u32,
}

impl MemEntry {
    pub open spec fn spec_bytes(self) -> Seq<u8> {
        le64(self.addr) + le32(self.length) + le32(self._padding)
    }

    pub fn to_bytes(&self) -> (b: Vec<u8>)
        ensures
            b@ == self.spec_bytes(),
    {
        let mut b: Vec<u8> = Vec::new();
        push_u64(&mut b, self.addr);
        push_u32(&mut b, self.length);
        push_u32(&mut b, self._padding);
        b
    }
}

/// Body of `RESOURCE_ATTACH_BACKING`, followed on the wire by its entries.
#[derive(Clone, Copy, Debug, PartialEq, Eq, Structural)]
pub struct ResourceAttachBacking {
    pub resource_id: u32,
    pub nentries: u32,
    pub _padding: u32,
}

impl ResourceAttachBacking {
    pub open spec fn spec_bytes(self) -> Seq<u8> {
        le32(self.resource_id) + le32(self.nentries) + le32(self._padding)
    }

    pub fn to_bytes(&self) -> (b: Vec<u8>)
        ensures
            b@ == self.spec_bytes(),
    {
        let mut b: Vec<u8> = Vec::new();
        push_u32(&mut b, self.resource_id);
        push_u32(&mut b, self.nentries);
        push_u32(&mut b, self._padding);
        b
    }
}

/// One scanout of a display-info response.
#[derive(Clone, Copy, Debug, PartialEq, Eq, Structural)]
pub struct DisplayOne {
    pub r: Rect,
    pub enabled: u32,
    pub flags: u32,
}

impl DisplayOne {
    /// The scanout record at byte `off` of `b`.
    pub fn from_bytes(b: &[u8], off: usize) -> (d: Self)
        requires
            off + 24 <= b@.len(),
        ensures
            d.r.x == u32_at(b@, off as int),
            d.r.y == u32_at(b@, off + 4),
            d.r.width == u32_at(b@, off + 8),
            d.r.height == u32_at(b@, off + 12),
            d.enabled == u32_at(b@, off + 16),
            d.flags == u32_at(b@, off + 20),
    {
        let _len = b.len();
        DisplayOne {
            r: Rect {
                x: read_u32_le(b, off),
                y: read_u32_le(b, off + 4),
                width: read_u32_le(b, off + 8),
                height: read_u32_le(b, off + 12),
            },
            enabled: read_u32_le(b, off + 16),
            flags: read_u32_le(b, off + 20),
        }
    }
}

/// The head of a display-info response: its type, the scanout count and the
/// first scanout (the one the driver uses).
#[derive(Clone, Copy, Debug, PartialEq, Eq, Structural)]
pub struct RespDisplayInfo {
    pub hdr_type: u32,
    pub num_scanouts: u32,
    pub first: DisplayOne,
}

impl RespDisplayInfo {
    /// Reads the response head from the bytes the device wrote.
    pub fn from_bytes(b: &[u8]) -> (r: Self)
        requires
            b@.len() >= 32,
        ensures
            r.hdr_type == u32_at(b@, 0),
            r.num_scanouts == u32_at(b@, 4),
            r.first.r.x == u32_at(b@, 8),
            r.first.r.y == u32_at(b@, 12),
            r.first.r.width == u32_at(b@, 16),
            r.first.r.height == u32_at(b@, 20),
            r.first.enabled == u32_at(b@, 24),
            r.first.flags == u32_at(b@, 28),
    {
        RespDisplayInfo {
            hdr_type: read_u32_le(b, 0),
            num_scanouts: read_u32_le(b, 4),
            first: DisplayOne::from_bytes(b, 8),
        }
    }
}

/// Device configuration space.
#[derive(Clone, Copy, Debug, PartialEq, Eq, Structural)]
pub struct VirtioGpuConfig {
    pub events_read: u32,
    pub num_scanouts: u32,
    pub num_capsets: u32,
}

/// The scanout count from the configuration space: one when it cannot be read.
pub fn num_scanouts(read: Option<u32>) -> (n: u32)
    ensures
        n == match read {
            Some(v) => v,
            None => 1,
        },
{
    match read {
        Some(v) => v,
        None => 1,
    }
}

/// The driver accepts no device-specific feature.
pub fn negotiate_features(features: u64) -> (accepted: u64)
    ensures
        accepted == 0,
{
    0
}

/// Frames needed to hold `bytes` bytes.
pub open spec fn frames_of_spec(bytes: nat) -> nat {
    ((bytes + PAGE_SIZE - 1) / (PAGE_SIZE as int)) as nat
}

/// Frames needed to hold `bytes` bytes.
pub fn frames_of(bytes: usize) -> (n: usize)
    requires
        bytes + PAGE_SIZE - 1 <= usize::MAX,
    ensures
        n == frames_of_spec(bytes as nat),
        n * PAGE_SIZE >= bytes,
        n * PAGE_SIZE < bytes + PAGE_SIZE,
{
    let n = (bytes + (PAGE_SIZE - 1)) / PAGE_SIZE;
    assert(n * 4096 >= bytes && n * 4096 < bytes + 4096) by (nonlinear_arith)
        requires
            n == (bytes + 4095) / 4096,
    ;
    n
}

/// A response type is accepted only when it is `Ok`.
pub fn check_ok(hdr_type: u32) -> (r: Result<(), VirtioDeviceError>)
    ensures
        r is Ok <==> hdr_type == RespType::Okay.spec_code(),
        r is Err ==> r == Err::<(), VirtioDeviceError>(VirtioDeviceError::UnsupportedConfig),
{
    if hdr_type == RespType::Okay.code() {
        Ok(())
    } else {
        Err(VirtioDeviceError::UnsupportedConfig)
    }
}

/// The display size a display-info response gives: an error unless the
/// response is `Ok` or `OkNodata`; the first scanout's size when it is
/// enabled and not empty; the default size otherwise.
pub open spec fn display_size_spec(resp: RespDisplayInfo) -> Result<(u32, u32), VirtioDeviceError> {
    if resp.hdr_type != 0x1100 && resp.hdr_type != 0x1101 {
        Err(VirtioDeviceError::UnsupportedConfig)
    } else if resp.first.enabled != 0 && resp.first.r.width != 0 && resp.first.r.height != 0 {
        Ok((resp.first.r.width, resp.first.r.height))
    } else {
        Ok((DEFAULT_WIDTH, DEFAULT_HEIGHT))
    }
}

/// The display size that a display-info response gives.
pub fn query_display_info(resp: &RespDisplayInfo) -> (r: Result<(u32, u32), VirtioDeviceError>)
    ensures
        r == display_size_spec(*resp),
{
    if resp.hdr_type != RespType::Okay.code() && resp.hdr_type != RespType::OkNodata.code() {
        return Err(VirtioDeviceError::UnsupportedConfig);
    }
    let mode = &resp.first;
    if mode.enabled != 0 && mode.r.width != 0 && mode.r.height != 0 {
        Ok((mode.r.width, mode.r.height))
    } else {
        Ok((DEFAULT_WIDTH, DEFAULT_HEIGHT))
    }
}

/// The display size the driver uses: what the query gave, or the default
/// when the query failed.
pub fn display_size_or_default(q: Result<(u32, u32), VirtioDeviceError>) -> (s: (u32, u32))
    ensures
        s == match q {
            Ok(v) => v,
            Err(_) => (DEFAULT_WIDTH, DEFAULT_HEIGHT),
        },
{
    match q {
        Ok(v) => v,
        Err(_) => (DEFAULT_WIDTH, DEFAULT_HEIGHT),
    }
}

/// The scanout state of a live GPU device: its 2D resource and geometry.
pub struct GpuDevice {
    pub resource_id: u32,
    pub width: u32,
    pub height: u32,
    pub line_size: usize,
    pub backing_size: usize,
}

impl GpuDevice {
    /// The device state for a `width` x `height` XRGB8888 scanout on
    /// resource `resource_id`: lines of `4 * width` bytes and a backing of
    /// whole frames covering `height` lines.
    pub fn new(resource_id: u32, width: u32, height: u32) -> (d: GpuDevice)
        requires
            (width as int) * 4 <= usize::MAX,
            (height as int) * (width as int) * 4 + PAGE_SIZE <= usize::MAX,
        ensures
            d.resource_id == resource_id,
            d.width == width,
            d.height == height,
            d.line_size == width * 4,
            d.backing_size == frames_of_spec((height * (width * 4)) as nat) * PAGE_SIZE,
    {
        assert((height as int) * (width as int * 4) == (height as int) * (width as int) * 4)
            by (nonlinear_arith);
        assert(0 <= (height as int) * (width as int * 4)) by (nonlinear_arith);
        let line_size = width as usize * 4;
        let fb_bytes = height as usize * line_size;
        let nframes = frames_of(fb_bytes);
        assert(nframes * 4096 < fb_bytes + 4096);
        GpuDevice { resource_id, width, height, line_size, backing_size: nframes * PAGE_SIZE }
    }

    /// The byte offset of pixel `(x, y)` in the backing.
    pub open spec fn pixel_offset(&self, x: u32, y: u32) -> int {
        y * self.line_size + x * 4
    }

    /// The command that pushes rectangle `(x, y, width, height)` of the
    /// backing to the host resource, under fence `fence`.
    pub fn transfer_to_host(&self, x: u32, y: u32, width: u32, height: u32, fence: u64) -> (cmd: (
        VirtioGpuCtrlHdr,
        TransferToHost2d,
    ))
        requires
            (y as int) * (self.line_size as int) + (x as int) * 4 <= usize::MAX,
        ensures
            cmd.0.hdr_type == CmdType::TransferToHost2d.spec_code(),
            cmd.0.fence_id == fence,
            cmd.0.flags == 0 && cmd.0.ctx_id == 0 && cmd.0._padding == 0,
            cmd.1.offset == self.pixel_offset(x, y),
            cmd.1.r == (Rect { x, y, width, height }),
            cmd.1.resource_id == self.resource_id,
            cmd.1._padding == 0,
    {
        let hdr = VirtioGpuCtrlHdr::new(CmdType::TransferToHost2d, fence);
        assert(0 <= (y as int) * (self.line_size as int)) by (nonlinear_arith);
        let offset = (y as usize * self.line_size + x as usize * 4) as u64;
        let body = TransferToHost2d {
            offset,
            r: Rect { x, y, width, height },
            resource_id: self.resource_id,
            _padding: 0,
        };
        (hdr, body)
    }

    /// The `RESOURCE_CREATE_2D` body for this device's resource.
    pub fn create_resource_2d(&self) -> (body: ResourceCreate2d)
        ensures
            body == (ResourceCreate2d {
                resource_id: self.resource_id,
                format: VirtioGpuFormat::B8G8R8X8.spec_code(),
                width: self.width,
                height: self.height,
            }),
    {
        ResourceCreate2d {
            resource_id: self.resource_id,
            format: VirtioGpuFormat::B8G8R8X8.code(),
            width: self.width,
            height: self.height,
        }
    }

    /// The `SET_SCANOUT` body binding this device's resource to the scanout.
    pub fn set_scanout(&self) -> (body: SetScanout)
        ensures
            body == (SetScanout {
                r: Rect { x: 0, y: 0, width: self.width, height: self.height },
                scanout_id: SCANOUT_ID as u32,
                resource_id: self.resource_id,
                _padding: 0,
            }),
    {
        SetScanout {
            r: Rect { x: 0, y: 0, width: self.width, height: self.height },
            scanout_id: SCANOUT_ID as u32,
            resource_id: self.resource_id,
            _padding: 0,
        }
    }

    /// The `RESOURCE_ATTACH_BACKING` body and its single entry for a backing
    /// at device address `daddr`.
    pub fn attach_backing(&self, daddr: u64) -> (r: (ResourceAttachBacking, MemEntry))
        ensures
            r.0 == (ResourceAttachBacking { resource_id: self.resource_id, nentries: 1, _padding: 0 }),
            r.1 == (MemEntry { addr: daddr, length: self.backing_size as u32, _padding: 0 }),
    {
        (
            ResourceAttachBacking { resource_id: self.resource_id, nentries: 1, _padding: 0 },
            MemEntry { addr: daddr, length: self.backing_size as u32, _padding: 0 },
        )
    }
}

/// Iterations a command waits for its response.
pub const POLL_ITERS: usize = 1_000_000;

/// What waiting for the response to the command with token `token` does
/// after popping `popped` from the used ring on wait `iter` (from 0).
#[derive(Clone, Copy, Debug, PartialEq, Eq, Structural)]
pub enum ResponseWait {
    /// The response arrived: read it.
    Arrived,
    /// Nothing, or a stale response of another command: poll again.
    Again,
    /// The wait is over without the response.
    TimedOut,
}

/// Only the command's own token ends the wait; stale responses are
/// dropped; after `POLL_ITERS` polls the command failed.
pub fn response_wait_step(popped: Option<u16>, token: u16, iter: usize) -> (w: ResponseWait)
    ensures
        popped == Some(token) ==> w == ResponseWait::Arrived,
        popped != Some(token) && iter + 1 < POLL_ITERS ==> w == ResponseWait::Again,
        popped != Some(token) && iter + 1 >= POLL_ITERS ==> w == ResponseWait::TimedOut,
{
    match popped {
        Some(t) if t == token => ResponseWait::Arrived,
        _ => if iter < POLL_ITERS - 1 {
            ResponseWait::Again
        } else {
            ResponseWait::TimedOut
        },
    }
}

} // verus!
