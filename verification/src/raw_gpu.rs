//! The boot-time virtio-gpu driver over the legacy virtio-mmio transport:
//! which bus slots hold a GPU, the control-queue layout, the descriptor
//! and command bytes it submits, how it reads the display size, the flush
//! throttles, the hardware cursor bitmap and the boot banner pixels.
//!
//! Register access, cache maintenance and waiting on the device belong to
//! the caller; these functions decide what to write and what a reply means.

use vstd::prelude::*;

use crate::wire::{le16, le32, le64, push_u16, push_u32, push_u64, push_zeros, read_u32_le, u32_at, zeros};

verus! {

/// Base of the linear mapping of physical memory.
pub const LINEAR_BASE: u64 = 0xffff_8000_0000_0000;

/// Physical address of the first virtio-mmio slot.
pub const MMIO_SLOT_BASE: u64 = 0x0a00_0000;

/// Distance between virtio-mmio slots.
pub const MMIO_SLOT_STRIDE: u64 = 0x200;

/// Number of virtio-mmio slots on the bus.
pub const MMIO_SLOTS: usize = 32;

/// The magic value ("virt") of a virtio-mmio register block.
pub const VIRTIO_MAGIC: u32 = 0x7472_6976;

/// The virtio device id of a GPU.
pub const VIRTIO_ID_GPU: u32 = 16;

pub const REG_MAGIC: usize = 0x000;
pub const REG_VERSION: usize = 0x004;
pub const REG_DEVICE_ID: usize = 0x008;
pub const REG_DEVICE_FEATURES: usize = 0x010;
pub const REG_DRIVER_FEATURES: usize = 0x020;
pub const REG_GUEST_PAGE_SIZE: usize = 0x028;
pub const REG_QUEUE_SEL: usize = 0x030;
pub const REG_QUEUE_NUM_MAX: usize = 0x034;
pub const REG_QUEUE_NUM: usize = 0x038;
pub const REG_QUEUE_ALIGN: usize = 0x03C;
pub const REG_QUEUE_PFN: usize = 0x040;
pub const REG_QUEUE_NOTIFY: usize = 0x050;
pub const REG_INTERRUPT_STATUS: usize = 0x060;
pub const REG_INTERRUPT_ACK: usize = 0x064;
pub const REG_STATUS: usize = 0x070;

pub const STATUS_ACK: u32 = 1;
pub const STATUS_DRIVER: u32 = 2;
pub const STATUS_DRV_OK: u32 = 4;
pub const STATUS_FEAT_OK: u32 = 8;

pub const CMD_GET_DISPLAY_INFO: u32 = 0x0100;
pub const CMD_RESOURCE_CREATE_2D: u32 = 0x0101;
pub const CMD_SET_SCANOUT: u32 = 0x0103;
pub const CMD_RESOURCE_FLUSH: u32 = 0x0104;
pub const CMD_TRANSFER_TO_HOST_2D: u32 = 0x0105;
pub const CMD_RESOURCE_ATTACH_BACKING: u32 = 0x0106;
pub const CMD_UPDATE_CURSOR: u32 = 0x0300;
pub const CMD_MOVE_CURSOR: u32 = 0x0301;

pub const RESP_OK_NODATA: u32 = 0x1100;
pub const RESP_OK_DISPLAY_INFO: u32 = 0x1101;

/// XRGB8888.
pub const FORMAT_B8G8R8X8_UNORM: u32 = 2;

/// The resource of the framebuffer.
pub const RESOURCE_ID: u32 = 1;

/// The resource of the cursor image.
pub const CURSOR_RESOURCE_ID: u32 = 2;

/// Side of the cursor image in pixels.
pub const CURSOR_SIZE: u32 = 64;

/// Bytes of the cursor image.
pub const CURSOR_BUF_SIZE: usize = 16384;

pub const FB_WIDTH: u32 = 1280;
pub const FB_HEIGHT: u32 = 800;
pub const FB_BPP: usize = 4;
pub const FB_SIZE: usize = 4_096_000;

/// Physical address of the framebuffer.
pub const FB_PA: u64 = 0x8000_0000;

/// Physical address of the cursor image, right after the framebuffer.
pub const CURSOR_PA: u64 = 0x803E_8000;

/// Largest control queue the driver uses.
pub const MAX_QUEUE: usize = 64;

/// Flushes sent at most (until the counter wraps).
pub const FLUSH_CAP: u8 = 200;

/// Of the flush callbacks, every this many-th one flushes.
pub const FLUSH_EVERY: u32 = 32;

pub const VIRTIO_DESC_F_NEXT: u16 = 1;
pub const VIRTIO_DESC_F_WRITE: u16 = 2;

/// The register block of slot `slot`, through the linear mapping.
pub open spec fn slot_base_spec(slot: int) -> int {
    LINEAR_BASE + MMIO_SLOT_BASE + slot * MMIO_SLOT_STRIDE
}

pub fn slot_base(slot: usize) -> (b: u64)
    requires
        slot < MMIO_SLOTS,
    ensures
        b == slot_base_spec(slot as int),
{
    LINEAR_BASE + MMIO_SLOT_BASE + (slot as u64) * MMIO_SLOT_STRIDE
}

/// What a slot's registers say: a GPU to drive, another device, or nothing.
pub open spec fn slot_is_gpu(magic: u32, device_id: u32) -> bool {
    magic == VIRTIO_MAGIC && device_id == VIRTIO_ID_GPU
}

/// The register blocks of the GPUs among the first `n` slots, in slot order.
pub open spec fn gpu_bases(slots: Seq<(u32, u32)>, n: int) -> Seq<u64>
    decreases n,
{
    if n <= 0 {
        Seq::empty()
    } else if slot_is_gpu(slots[n - 1].0, slots[n - 1].1) {
        gpu_bases(slots, n - 1).push(slot_base_spec(n - 1) as u64)
    } else {
        gpu_bases(slots, n - 1)
    }
}

/// The register blocks to drive as GPUs, given each slot's magic value and
/// device id, in slot order.
pub fn probe(slots: &[(u32, u32)]) -> (gpus: Vec<u64>)
    requires
        slots@.len() <= MMIO_SLOTS,
    ensures
        gpus@ == gpu_bases(slots@, slots@.len() as int),
{
    let mut gpus: Vec<u64> = Vec::new();
    let mut i: usize = 0;
    while i < slots.len()
        invariant
            0 <= i <= slots@.len(),
            slots@.len() <= MMIO_SLOTS,
            gpus@ == gpu_bases(slots@, i as int),
        decreases slots@.len() - i,
    {
        let (magic, did) = slots[i];
        if magic == VIRTIO_MAGIC && did == VIRTIO_ID_GPU {
            let b = slot_base(i);
            gpus.push(b);
        }
        i = i + 1;
    }
    gpus
}

/// The device accepted the features when it kept `FEATURES_OK` set.
pub fn features_accepted(status: u32) -> (ok: bool)
    ensures
        ok == (status & STATUS_FEAT_OK != 0),
{
    status & STATUS_FEAT_OK != 0
}

/// Where the parts of a legacy split virtqueue lie in its memory.
pub struct QueueLayout {
    pub qsize: usize,
    pub desc_size: usize,
    pub avail_size: usize,
    pub used_size: usize,
    /// Offset of the used ring: the end of the available ring rounded up
    /// to a 4096-byte page.
    pub used_offset: usize,
    pub total: usize,
}

/// `x` rounded up to a multiple of 4096.
pub open spec fn page_round_up(x: int) -> int {
    ((x + 4095) / 4096) * 4096
}

impl QueueLayout {
    /// The layout for a device that offers at most `qmax` entries: the
    /// queue has `min(qmax, 64)` entries of 16 descriptor bytes, an
    /// available ring of `6 + 2n` bytes and a used ring of `6 + 8n` bytes on
    /// the next page.
    pub fn new(qmax: u32) -> (l: QueueLayout)
        ensures
            l.qsize == if qmax < MAX_QUEUE { qmax as usize } else { MAX_QUEUE },
            l.desc_size == l.qsize * 16,
            l.avail_size == 6 + 2 * l.qsize,
            l.used_size == 6 + 8 * l.qsize,
            l.used_offset == page_round_up(l.desc_size + l.avail_size),
            l.total == l.used_offset + l.used_size,
    {
        let qsize: usize = if (qmax as usize) < MAX_QUEUE { qmax as usize } else { MAX_QUEUE };
        let desc_size = qsize * 16;
        let avail_size = 6 + 2 * qsize;
        let used_size = 6 + 8 * qsize;
        let x: usize = desc_size + avail_size;
        let y: usize = x + 4095;
        let used_offset = y & !4095usize;
        assert(y & !4095usize == (y / 4096) * 4096) by (bit_vector)
            requires
                y <= 8000,
        ;
        QueueLayout {
            qsize,
            desc_size,
            avail_size,
            used_size,
            used_offset,
            total: used_offset + used_size,
        }
    }
}

/// Where one command goes in the queue: two descriptor slots per command,
/// command then response, and one available-ring entry.
pub struct SendPlan {
    pub cmd_slot: usize,
    pub resp_slot: usize,
    pub avail_pos: usize,
    /// The available index the device sees after this command.
    pub new_avail: u16,
    /// The driver's running command count after this command.
    pub next_idx: u64,
}

/// The slots of command number `idx` in a queue of `qsize` entries.
pub fn plan_send(idx: u64, qsize: usize) -> (p: SendPlan)
    requires
        qsize > 0,
        idx * 2 <= usize::MAX,
    ensures
        p.cmd_slot == (idx as int * 2) % (qsize as int),
        p.resp_slot == (p.cmd_slot + 1) % (qsize as int),
        p.avail_pos == (idx as int) % (qsize as int),
        p.new_avail == (idx + 1) % 0x1_0000,
        p.next_idx == (idx + 1) % 0x1_0000_0000_0000_0000,
        p.cmd_slot < qsize && p.resp_slot < qsize && p.avail_pos < qsize,
{
    let i = idx as usize;
    let cmd_slot = (i * 2) % qsize;
    let resp_slot = (cmd_slot + 1) % qsize;
    let avail_pos = i % qsize;
    let next = idx.wrapping_add(1);
    let new_avail = (next & 0xffff) as u16;
    assert(next & 0xffff == next % 0x1_0000) by (bit_vector);
    SendPlan { cmd_slot, resp_slot, avail_pos, new_avail, next_idx: next }
}

/// With a queue of at least two entries, a command and its response get
/// different descriptor slots, and the command slot is even.
pub proof fn lemma_send_slots_distinct(idx: int, qsize: int)
    requires
        qsize >= 2,
        qsize % 2 == 0,
        idx >= 0,
    ensures
        (idx * 2) % qsize != ((idx * 2) % qsize + 1) % qsize,
        ((idx * 2) % qsize) % 2 == 0,
{
    let c = (idx * 2) % qsize;
    assert(0 <= c < qsize);
    assert(c % 2 == 0) by (nonlinear_arith)
        requires
            c == (idx * 2) % qsize,
            qsize % 2 == 0,
            qsize >= 2,
            idx >= 0,
    {
        vstd::arithmetic::div_mod::lemma_fundamental_div_mod(idx * 2, qsize);
        let q = (idx * 2) / qsize;
        let h = qsize / 2;
        assert(qsize == 2 * h);
        assert(idx * 2 == qsize * q + c);
        assert(c == 2 * (idx - h * q));
    }
    if c + 1 < qsize {
        vstd::arithmetic::div_mod::lemma_small_mod((c + 1) as nat, qsize as nat);
    } else {
        vstd::arithmetic::div_mod::lemma_mod_self_0(qsize);
    }
}

/// The control queue as the driver set it up: the addresses of its
/// descriptor table and rings, and its size.
#[derive(Clone, Copy, Debug, PartialEq, Eq, Structural)]
pub struct GpuQueue {
    pub mmio_base: u64,
    pub desc_base: u64,
    pub avail_base: u64,
    pub used_base: u64,
    pub qsize: usize,
}

/// The memory writes that submit one command.
pub struct SendWrites {
    /// Where the command descriptor goes, and its bytes.
    pub cmd_desc_addr: u64,
    pub cmd_desc: Vec<u8>,
    /// Where the response descriptor goes, and its bytes.
    pub resp_desc_addr: u64,
    pub resp_desc: Vec<u8>,
    /// The available-ring entry: its address and the head slot.
    pub avail_entry_addr: u64,
    pub avail_entry: u16,
    /// The available index: its address and new value.
    pub avail_idx_addr: u64,
    pub avail_idx: u16,
    /// The used index to wait for.
    pub expected_used: u16,
}

impl GpuQueue {
    /// The queue laid out by `layout` at `base`.
    pub fn new(mmio_base: u64, base: u64, layout: &QueueLayout) -> (q: GpuQueue)
        requires
            base + layout.total <= u64::MAX,
            layout.desc_size <= layout.used_offset <= layout.total,
        ensures
            q.mmio_base == mmio_base,
            q.desc_base == base,
            q.avail_base == base + layout.desc_size,
            q.used_base == base + layout.used_offset,
            q.qsize == layout.qsize,
    {
        GpuQueue {
            mmio_base,
            desc_base: base,
            avail_base: base + layout.desc_size as u64,
            used_base: base + layout.used_offset as u64,
            qsize: layout.qsize,
        }
    }

    /// Submitting command number `idx` (command of `cmd_len` bytes at
    /// `cmd_pa`, response of `resp_len` bytes at `resp_pa`) when `used` is
    /// the driver's count of completed commands: two descriptors in slots
    /// `2 idx` and `2 idx + 1` (modulo the size), the command slot in the
    /// available ring, and the new available index.
    pub fn send_cmd(&self, idx: u64, used: u64, cmd_pa: u64, cmd_len: u32, resp_pa: u64, resp_len: u32) -> (w: SendWrites)
        requires
            0 < self.qsize <= 64,
            idx * 2 <= usize::MAX,
            self.desc_base + 64 * 16 <= u64::MAX,
            self.avail_base + 4 + 2 * 64 <= u64::MAX,
        ensures
            ({
                let cmd_slot = (idx as int * 2) % (self.qsize as int);
                let resp_slot = (cmd_slot + 1) % (self.qsize as int);
                let pos = (idx as int) % (self.qsize as int);
                &&& w.cmd_desc_addr == self.desc_base + cmd_slot * 16
                &&& w.cmd_desc@ == desc_spec(cmd_pa, cmd_len, VIRTIO_DESC_F_NEXT, resp_slot as u16)
                &&& w.resp_desc_addr == self.desc_base + resp_slot * 16
                &&& w.resp_desc@ == desc_spec(resp_pa, resp_len, VIRTIO_DESC_F_WRITE, 0)
                &&& w.avail_entry_addr == self.avail_base + 4 + 2 * pos
                &&& w.avail_entry == cmd_slot
                &&& w.avail_idx_addr == self.avail_base + 2
                &&& w.avail_idx == (idx + 1) % 0x1_0000
                &&& w.expected_used == (used + 1) % 0x1_0000
            }),
    {
        let plan = plan_send(idx, self.qsize);
        let (d0, d1) = command_descriptors(&plan, cmd_pa, cmd_len, resp_pa, resp_len);
        let next_used = used.wrapping_add(1);
        assert(next_used & 0xffff == next_used % 0x1_0000) by (bit_vector);
        SendWrites {
            cmd_desc_addr: self.desc_base + (plan.cmd_slot as u64) * 16,
            cmd_desc: d0,
            resp_desc_addr: self.desc_base + (plan.resp_slot as u64) * 16,
            resp_desc: d1,
            avail_entry_addr: self.avail_base + 4 + 2 * (plan.avail_pos as u64),
            avail_entry: plan.cmd_slot as u16,
            avail_idx_addr: self.avail_base + 2,
            avail_idx: plan.new_avail,
            expected_used: (next_used & 0xffff) as u16,
        }
    }
}

/// The register writes that reset the device, announce the driver, accept
/// no feature and set `FEATURES_OK`, before the status is read back.
pub open spec fn reset_writes_spec() -> Seq<(usize, u32)> {
    seq![
        (REG_STATUS, 0u32),
        (REG_STATUS, 3u32),
        (REG_DRIVER_FEATURES, 0u32),
        (REG_STATUS, 11u32),
    ]
}

pub fn reset_writes() -> (w: Vec<(usize, u32)>)
    ensures
        w@ == reset_writes_spec(),
{
    let mut w: Vec<(usize, u32)> = Vec::new();
    w.push((REG_STATUS, 0));
    w.push((REG_STATUS, STATUS_ACK | STATUS_DRIVER));
    w.push((REG_DRIVER_FEATURES, 0));
    w.push((REG_STATUS, STATUS_ACK | STATUS_DRIVER | STATUS_FEAT_OK));
    assert(1u32 | 2u32 == 3u32 && (1u32 | 2u32) | 8u32 == 11u32) by (bit_vector);
    assert(w@ =~= reset_writes_spec());
    w
}

/// The register writes that set up queue 0 of `qsize` entries at page
/// frame `base_pa / 4096` and declare the driver ready; the guest page
/// size and queue selection come first, before the maximum size is read.
pub fn queue_setup_writes(qsize: usize, base_pa: u64) -> (w: (Vec<(usize, u32)>, Vec<(usize, u32)>))
    requires
        qsize <= MAX_QUEUE,
        base_pa / 4096 <= u32::MAX,
    ensures
        w.0@ == seq![(REG_GUEST_PAGE_SIZE, 4096u32), (REG_QUEUE_SEL, 0u32)],
        w.1@ == seq![
            (REG_QUEUE_NUM, qsize as u32),
            (REG_QUEUE_ALIGN, 4096u32),
            (REG_QUEUE_PFN, (base_pa / 4096) as u32),
            (REG_STATUS, 15u32),
        ],
{
    let mut before: Vec<(usize, u32)> = Vec::new();
    before.push((REG_GUEST_PAGE_SIZE, 4096));
    before.push((REG_QUEUE_SEL, 0));
    let mut after: Vec<(usize, u32)> = Vec::new();
    after.push((REG_QUEUE_NUM, qsize as u32));
    after.push((REG_QUEUE_ALIGN, 4096));
    after.push((REG_QUEUE_PFN, (base_pa / 4096) as u32));
    after.push((REG_STATUS, STATUS_ACK | STATUS_DRIVER | STATUS_FEAT_OK | STATUS_DRV_OK));
    assert(((1u32 | 2u32) | 8u32) | 4u32 == 15u32) by (bit_vector);
    assert(before@ =~= seq![(REG_GUEST_PAGE_SIZE, 4096u32), (REG_QUEUE_SEL, 0u32)]);
    assert(after@ =~= seq![
        (REG_QUEUE_NUM, qsize as u32),
        (REG_QUEUE_ALIGN, 4096u32),
        (REG_QUEUE_PFN, (base_pa / 4096) as u32),
        (REG_STATUS, 15u32),
    ]);
    (before, after)
}

/// The commands that bring up the scanout after the display query, in
/// order: create the framebuffer resource, back it with the framebuffer
/// memory, and bind it to scanout 0.
pub fn scanout_commands() -> (c: (Vec<u8>, Vec<u8>, Vec<u8>))
    ensures
        c.0@ == command_spec(
            CMD_RESOURCE_CREATE_2D,
            le32(RESOURCE_ID) + le32(FORMAT_B8G8R8X8_UNORM) + le32(FB_WIDTH) + le32(FB_HEIGHT),
        ),
        c.1@ == command_spec(
            CMD_RESOURCE_ATTACH_BACKING,
            le32(RESOURCE_ID) + le32(1) + le64(FB_PA) + le32(FB_SIZE as u32) + le32(0),
        ),
        c.2@ == command_spec(
            CMD_SET_SCANOUT,
            le32(0) + le32(0) + le32(FB_WIDTH) + le32(FB_HEIGHT) + le32(0) + le32(RESOURCE_ID),
        ),
{
    (
        resource_create_2d_cmd(RESOURCE_ID, FB_WIDTH, FB_HEIGHT),
        attach_backing_cmd(RESOURCE_ID, FB_PA, FB_SIZE as u32),
        set_scanout_cmd(RESOURCE_ID, FB_WIDTH, FB_HEIGHT),
    )
}

/// The 16 bytes of a descriptor: address, length, flags, next.
pub open spec fn desc_spec(addr: u64, len: u32, flags: u16, next: u16) -> Seq<u8> {
    le64(addr) + le32(len) + le16(flags) + le16(next)
}

pub fn encode_desc(addr: u64, len: u32, flags: u16, next: u16) -> (d: Vec<u8>)
    ensures
        d@ == desc_spec(addr, len, flags, next),
        d@.len() == 16,
{
    let mut d: Vec<u8> = Vec::new();
    push_u64(&mut d, addr);
    push_u32(&mut d, len);
    push_u16(&mut d, flags);
    push_u16(&mut d, next);
    d
}

/// The two descriptors of a command: the device-readable command chained
/// to the device-writable response.
pub fn command_descriptors(plan: &SendPlan, cmd_pa: u64, cmd_len: u32, resp_pa: u64, resp_len: u32) -> (r: (Vec<u8>, Vec<u8>))
    requires
        plan.resp_slot < 0x1_0000,
    ensures
        r.0@ == desc_spec(cmd_pa, cmd_len, VIRTIO_DESC_F_NEXT, plan.resp_slot as u16),
        r.1@ == desc_spec(resp_pa, resp_len, VIRTIO_DESC_F_WRITE, 0),
{
    (
        encode_desc(cmd_pa, cmd_len, VIRTIO_DESC_F_NEXT, plan.resp_slot as u16),
        encode_desc(resp_pa, resp_len, VIRTIO_DESC_F_WRITE, 0),
    )
}

/// A command: its type, zeros to the end of the 24-byte header, and its body.
pub open spec fn command_spec(cmd: u32, body: Seq<u8>) -> Seq<u8> {
    le32(cmd) + zeros(20) + body
}

fn start_command(cmd: u32) -> (b: Vec<u8>)
    ensures
        b@ == le32(cmd) + zeros(20),
{
    let mut b: Vec<u8> = Vec::new();
    push_u32(&mut b, cmd);
    push_zeros(&mut b, 20);
    b
}

/// `GET_DISPLAY_INFO`: the header alone.
pub fn get_display_info_cmd() -> (b: Vec<u8>)
    ensures
        b@ == command_spec(CMD_GET_DISPLAY_INFO, Seq::empty()),
        b@.len() == 24,
{
    let b = start_command(CMD_GET_DISPLAY_INFO);
    assert(b@ =~= command_spec(CMD_GET_DISPLAY_INFO, Seq::empty()));
    b
}

/// `RESOURCE_CREATE_2D` of an XRGB8888 resource.
pub fn resource_create_2d_cmd(resource_id: u32, width: u32, height: u32) -> (b: Vec<u8>)
    ensures
        b@ == command_spec(
            CMD_RESOURCE_CREATE_2D,
            le32(resource_id) + le32(FORMAT_B8G8R8X8_UNORM) + le32(width) + le32(height),
        ),
        b@.len() == 40,
{
    let mut b = start_command(CMD_RESOURCE_CREATE_2D);
    push_u32(&mut b, resource_id);
    push_u32(&mut b, FORMAT_B8G8R8X8_UNORM);
    push_u32(&mut b, width);
    push_u32(&mut b, height);
    assert(b@ =~= command_spec(
        CMD_RESOURCE_CREATE_2D,
        le32(resource_id) + le32(FORMAT_B8G8R8X8_UNORM) + le32(width) + le32(height),
    ));
    b
}

/// `RESOURCE_ATTACH_BACKING` with one entry of `len` bytes at `pa`.
pub fn attach_backing_cmd(resource_id: u32, pa: u64, len: u32) -> (b: Vec<u8>)
    ensures
        b@ == command_spec(
            CMD_RESOURCE_ATTACH_BACKING,
            le32(resource_id) + le32(1) + le64(pa) + le32(len) + le32(0),
        ),
        b@.len() == 48,
{
    let mut b = start_command(CMD_RESOURCE_ATTACH_BACKING);
    push_u32(&mut b, resource_id);
    push_u32(&mut b, 1);
    push_u64(&mut b, pa);
    push_u32(&mut b, len);
    push_u32(&mut b, 0);
    assert(b@ =~= command_spec(
        CMD_RESOURCE_ATTACH_BACKING,
        le32(resource_id) + le32(1) + le64(pa) + le32(len) + le32(0),
    ));
    b
}

/// `SET_SCANOUT` binding a `width` x `height` rectangle of the resource to
/// scanout 0.
pub fn set_scanout_cmd(resource_id: u32, width: u32, height: u32) -> (b: Vec<u8>)
    ensures
        b@ == command_spec(
            CMD_SET_SCANOUT,
            le32(0) + le32(0) + le32(width) + le32(height) + le32(0) + le32(resource_id),
        ),
        b@.len() == 48,
{
    let mut b = start_command(CMD_SET_SCANOUT);
    push_u32(&mut b, 0);
    push_u32(&mut b, 0);
    push_u32(&mut b, width);
    push_u32(&mut b, height);
    push_u32(&mut b, 0);
    push_u32(&mut b, resource_id);
    assert(b@ =~= command_spec(
        CMD_SET_SCANOUT,
        le32(0) + le32(0) + le32(width) + le32(height) + le32(0) + le32(resource_id),
    ));
    b
}

/// `TRANSFER_TO_HOST_2D` of the whole `width` x `height` resource.
pub fn transfer_to_host_cmd(resource_id: u32, width: u32, height: u32) -> (b: Vec<u8>)
    ensures
        b@ == command_spec(
            CMD_TRANSFER_TO_HOST_2D,
            le32(0) + le32(0) + le32(width) + le32(height) + le64(0) + le32(resource_id) + le32(0),
        ),
        b@.len() == 56,
{
    let mut b = start_command(CMD_TRANSFER_TO_HOST_2D);
    push_u32(&mut b, 0);
    push_u32(&mut b, 0);
    push_u32(&mut b, width);
    push_u32(&mut b, height);
    push_u64(&mut b, 0);
    push_u32(&mut b, resource_id);
    push_u32(&mut b, 0);
    assert(b@ =~= command_spec(
        CMD_TRANSFER_TO_HOST_2D,
        le32(0) + le32(0) + le32(width) + le32(height) + le64(0) + le32(resource_id) + le32(0),
    ));
    b
}

/// `RESOURCE_FLUSH` of the whole `width` x `height` resource.
pub fn resource_flush_cmd(resource_id: u32, width: u32, height: u32) -> (b: Vec<u8>)
    ensures
        b@ == command_spec(
            CMD_RESOURCE_FLUSH,
            le32(0) + le32(0) + le32(width) + le32(height) + le32(resource_id) + le32(0),
        ),
        b@.len() == 48,
{
    let mut b = start_command(CMD_RESOURCE_FLUSH);
    push_u32(&mut b, 0);
    push_u32(&mut b, 0);
    push_u32(&mut b, width);
    push_u32(&mut b, height);
    push_u32(&mut b, resource_id);
    push_u32(&mut b, 0);
    assert(b@ =~= command_spec(
        CMD_RESOURCE_FLUSH,
        le32(0) + le32(0) + le32(width) + le32(height) + le32(resource_id) + le32(0),
    ));
    b
}

/// `UPDATE_CURSOR`: show image `resource_id` (0 hides the cursor) with hot
/// spot `(hot_x, hot_y)` at `(pos_x, pos_y)` on scanout 0.
pub fn update_cursor_hw(resource_id: u32, hot_x: u32, hot_y: u32, pos_x: u32, pos_y: u32) -> (b: Vec<u8>)
    ensures
        b@ == command_spec(
            CMD_UPDATE_CURSOR,
            le32(resource_id) + le32(hot_x) + le32(hot_y) + le32(0) + le32(pos_x) + le32(pos_y) + le32(0),
        ),
        b@.len() == 52,
{
    let mut b = start_command(CMD_UPDATE_CURSOR);
    push_u32(&mut b, resource_id);
    push_u32(&mut b, hot_x);
    push_u32(&mut b, hot_y);
    push_u32(&mut b, 0);
    push_u32(&mut b, pos_x);
    push_u32(&mut b, pos_y);
    push_u32(&mut b, 0);
    assert(b@ =~= command_spec(
        CMD_UPDATE_CURSOR,
        le32(resource_id) + le32(hot_x) + le32(hot_y) + le32(0) + le32(pos_x) + le32(pos_y) + le32(0),
    ));
    b
}

/// `MOVE_CURSOR` to `(x, y)` on scanout 0.
pub fn move_cursor_cmd(x: u32, y: u32) -> (b: Vec<u8>)
    ensures
        b@ == command_spec(CMD_MOVE_CURSOR, zeros(12) + le32(0) + le32(x) + le32(y) + le32(0)),
        b@.len() == 52,
{
    let mut b = start_command(CMD_MOVE_CURSOR);
    push_zeros(&mut b, 12);
    push_u32(&mut b, 0);
    push_u32(&mut b, x);
    push_u32(&mut b, y);
    push_u32(&mut b, 0);
    assert(b@ =~= command_spec(CMD_MOVE_CURSOR, zeros(12) + le32(0) + le32(x) + le32(y) + le32(0)));
    b
}

/// The display size a `GET_DISPLAY_INFO` response gives: scanout 0's size
/// when the response is a display-info response, 1280x800 otherwise.
pub open spec fn display_size_spec(resp: Seq<u8>) -> (u32, u32) {
    if u32_at(resp, 0) == RESP_OK_DISPLAY_INFO {
        (u32_at(resp, 32), u32_at(resp, 36))
    } else {
        (FB_WIDTH, FB_HEIGHT)
    }
}

pub fn display_size(resp: &[u8]) -> (s: (u32, u32))
    requires
        resp@.len() >= 40,
    ensures
        s == display_size_spec(resp@),
{
    let rt = read_u32_le(resp, 0);
    if rt == RESP_OK_DISPLAY_INFO {
        (read_u32_le(resp, 32), read_u32_le(resp, 36))
    } else {
        (FB_WIDTH, FB_HEIGHT)
    }
}

/// The physical address of `va` from the `PAR_EL1` value of an address
/// translation: page frame and page offset on success (bit 0 clear), the
/// linear-mapping offset otherwise.
pub open spec fn translate_spec(par: u64, va: u64) -> int {
    if par & 1 == 0 {
        ((par & 0x0000_FFFF_F000u64) | (va & 0xFFFu64)) as int
    } else if va >= LINEAR_BASE {
        va - LINEAR_BASE
    } else {
        va + (u64::MAX + 1 - LINEAR_BASE)
    }
}

pub fn translate_va_to_pa(par: u64, va: u64) -> (pa: u64)
    ensures
        pa == translate_spec(par, va),
{
    if par & 1 == 0 {
        (par & 0x0000_FFFF_F000u64) | (va & 0xFFFu64)
    } else {
        va.wrapping_sub(LINEAR_BASE)
    }
}

/// The driver's readiness, counters and cursor position. The fields are
/// private: only the methods below change them, and each of them keeps
/// the GPU ready once it is (`mark_ready` is the one that makes it ready).
pub struct RawGpuState {
    ready: bool,
    flush_count: u8,
    callback_count: u32,
    cursor_x: u32,
    cursor_y: u32,
}

/// What the contracts see of a [`RawGpuState`].
pub struct RawGpuView {
    pub ready: bool,
    pub flush_count: u8,
    pub callback_count: u32,
    pub cursor_x: u32,
    pub cursor_y: u32,
}

impl RawGpuState {
    pub closed spec fn state(&self) -> RawGpuView {
        RawGpuView {
            ready: self.ready,
            flush_count: self.flush_count,
            callback_count: self.callback_count,
            cursor_x: self.cursor_x,
            cursor_y: self.cursor_y,
        }
    }
}

impl View for RawGpuState {
    type V = RawGpuView;

    open spec fn view(&self) -> RawGpuView {
        self.state()
    }
}

/// Readiness never falls back: a step that leaves the state as `after`
/// keeps the GPU ready if it was ready before.
pub open spec fn keeps_ready(before: RawGpuView, after: RawGpuView) -> bool {
    before.ready ==> after.ready
}

impl RawGpuState {
    /// Not ready, no flushes yet, the cursor at (600, 400).
    pub fn new() -> (s: RawGpuState)
        ensures
            !s@.ready && s@.flush_count == 0 && s@.callback_count == 0,
            s@.cursor_x == 600 && s@.cursor_y == 400,
    {
        RawGpuState { ready: false, flush_count: 0, callback_count: 0, cursor_x: 600, cursor_y: 400 }
    }

    /// Whether the GPU has been set up: false until [`RawGpuState::mark_ready`],
    /// and whenever it is true, [`RawGpuState::framebuffer_info`] has the
    /// framebuffer.
    pub fn is_ready(&self) -> (r: bool)
        ensures
            r == self@.ready,
            r == self.framebuffer_info_spec() is Some,
    {
        self.ready
    }

    /// Flushes counted so far (wrapping at 256).
    pub fn flush_count(&self) -> (n: u8)
        ensures
            n == self@.flush_count,
    {
        self.flush_count
    }

    /// Flush callbacks counted so far (wrapping).
    pub fn callback_count(&self) -> (n: u32)
        ensures
            n == self@.callback_count,
    {
        self.callback_count
    }

    /// The cursor position.
    pub fn cursor(&self) -> (p: (u32, u32))
        ensures
            p == (self@.cursor_x, self@.cursor_y),
    {
        (self.cursor_x, self.cursor_y)
    }

    /// What [`RawGpuState::framebuffer_info`] gives.
    pub open spec fn framebuffer_info_spec(&self) -> Option<(u64, u32, u32, usize)> {
        if self@.ready {
            Some(((LINEAR_BASE + FB_PA) as u64, FB_WIDTH, FB_HEIGHT, (FB_WIDTH as usize * FB_BPP) as usize))
        } else {
            None
        }
    }

    /// The framebuffer once the GPU is set up: its kernel-virtual address,
    /// width, height and line length in bytes.
    pub fn framebuffer_info(&self) -> (r: Option<(u64, u32, u32, usize)>)
        ensures
            r == self.framebuffer_info_spec(),
            r is Some == self@.ready,
    {
        if self.ready {
            Some((LINEAR_BASE + FB_PA, FB_WIDTH, FB_HEIGHT, FB_WIDTH as usize * FB_BPP))
        } else {
            None
        }
    }

    /// Records that the GPU accepted its features and shows the scanout
    /// resource: from now on it is ready. Nothing else changes.
    pub fn mark_ready(&mut self)
        ensures
            keeps_ready(old(self)@, final(self)@),
            final(self)@.ready,
            final(self)@.flush_count == old(self)@.flush_count,
            final(self)@.callback_count == old(self)@.callback_count,
            final(self)@.cursor_x == old(self)@.cursor_x,
            final(self)@.cursor_y == old(self)@.cursor_y,
    {
        self.ready = true;
    }

    /// Whether a flush goes to the device: only once the GPU is ready and
    /// while fewer than `FLUSH_CAP` flushes were counted. Every flush
    /// attempt on a ready GPU counts, the counter wrapping at 256.
    pub fn begin_flush(&mut self) -> (go: bool)
        ensures
            keeps_ready(old(self)@, final(self)@),
            go == (old(self)@.ready && old(self)@.flush_count < FLUSH_CAP),
            final(self)@.flush_count == if old(self)@.ready {
                ((old(self)@.flush_count + 1) % 256) as u8
            } else {
                old(self)@.flush_count
            },
            final(self)@.ready == old(self)@.ready,
            final(self)@.callback_count == old(self)@.callback_count,
            final(self)@.cursor_x == old(self)@.cursor_x,
            final(self)@.cursor_y == old(self)@.cursor_y,
    {
        if !self.ready {
            return false;
        }
        let count = self.flush_count;
        self.flush_count = count.wrapping_add(1);
        count < FLUSH_CAP
    }

    /// Whether a flush callback flushes: every `FLUSH_EVERY`-th call, the
    /// first one included. Every call counts, the counter wrapping.
    pub fn raw_flush_callback(&mut self) -> (due: bool)
        ensures
            keeps_ready(old(self)@, final(self)@),
            due == (old(self)@.callback_count % FLUSH_EVERY == 0),
            final(self)@.callback_count == ((old(self)@.callback_count + 1) % 0x1_0000_0000) as u32,
            final(self)@.ready == old(self)@.ready,
            final(self)@.flush_count == old(self)@.flush_count,
            final(self)@.cursor_x == old(self)@.cursor_x,
            final(self)@.cursor_y == old(self)@.cursor_y,
    {
        let n = self.callback_count;
        self.callback_count = n.wrapping_add(1);
        n % FLUSH_EVERY == 0
    }

    /// Flushing the framebuffer: when `begin_flush` lets it through, the
    /// transfer of the whole framebuffer to its resource, then the flush of
    /// the resource to the display.
    pub fn flush_framebuffer(&mut self) -> (cmds: Option<(Vec<u8>, Vec<u8>)>)
        ensures
            keeps_ready(old(self)@, final(self)@),
            cmds is Some == (old(self)@.ready && old(self)@.flush_count < FLUSH_CAP),
            cmds is Some ==> (cmds->0).0@ == command_spec(
                CMD_TRANSFER_TO_HOST_2D,
                le32(0) + le32(0) + le32(FB_WIDTH) + le32(FB_HEIGHT) + le64(0) + le32(RESOURCE_ID)
                    + le32(0),
            ) && (cmds->0).1@ == command_spec(
                CMD_RESOURCE_FLUSH,
                le32(0) + le32(0) + le32(FB_WIDTH) + le32(FB_HEIGHT) + le32(RESOURCE_ID) + le32(0),
            ),
            final(self)@.flush_count == if old(self)@.ready {
                ((old(self)@.flush_count + 1) % 256) as u8
            } else {
                old(self)@.flush_count
            },
            final(self)@.ready == old(self)@.ready,
            final(self)@.callback_count == old(self)@.callback_count,
            final(self)@.cursor_x == old(self)@.cursor_x,
            final(self)@.cursor_y == old(self)@.cursor_y,
    {
        if !self.begin_flush() {
            return None;
        }
        Some(
            (
                transfer_to_host_cmd(RESOURCE_ID, FB_WIDTH, FB_HEIGHT),
                resource_flush_cmd(RESOURCE_ID, FB_WIDTH, FB_HEIGHT),
            ),
        )
    }

    /// Setting up the hardware cursor: nothing before the GPU is ready;
    /// then the commands that create the 64x64 cursor resource, back it
    /// with the cursor image memory, upload the image, and show it at the
    /// current cursor position with the hot spot at its top left.
    pub fn init_cursor(&self) -> (cmds: Option<Vec<Vec<u8>>>)
        ensures
            !self@.ready ==> cmds is None,
            self@.ready ==> cmds is Some && cmds->0@.len() == 4 && cmds->0@[0]@ == command_spec(
                CMD_RESOURCE_CREATE_2D,
                le32(CURSOR_RESOURCE_ID) + le32(FORMAT_B8G8R8X8_UNORM) + le32(CURSOR_SIZE) + le32(
                    CURSOR_SIZE,
                ),
            ) && cmds->0@[1]@ == command_spec(
                CMD_RESOURCE_ATTACH_BACKING,
                le32(CURSOR_RESOURCE_ID) + le32(1) + le64(CURSOR_PA) + le32(CURSOR_BUF_SIZE as u32)
                    + le32(0),
            ) && cmds->0@[2]@ == command_spec(
                CMD_TRANSFER_TO_HOST_2D,
                le32(0) + le32(0) + le32(CURSOR_SIZE) + le32(CURSOR_SIZE) + le64(0) + le32(
                    CURSOR_RESOURCE_ID,
                ) + le32(0),
            ) && cmds->0@[3]@ == command_spec(
                CMD_UPDATE_CURSOR,
                le32(CURSOR_RESOURCE_ID) + le32(0) + le32(0) + le32(0) + le32(self@.cursor_x) + le32(
                    self@.cursor_y,
                ) + le32(0),
            ),
    {
        if !self.ready {
            return None;
        }
        let mut cmds: Vec<Vec<u8>> = Vec::new();
        cmds.push(resource_create_2d_cmd(CURSOR_RESOURCE_ID, CURSOR_SIZE, CURSOR_SIZE));
        cmds.push(attach_backing_cmd(CURSOR_RESOURCE_ID, CURSOR_PA, CURSOR_BUF_SIZE as u32));
        cmds.push(transfer_to_host_cmd(CURSOR_RESOURCE_ID, CURSOR_SIZE, CURSOR_SIZE));
        cmds.push(update_cursor_hw(CURSOR_RESOURCE_ID, 0, 0, self.cursor_x, self.cursor_y));
        Some(cmds)
    }

    /// Moving the hardware cursor: nothing before the GPU is ready;
    /// afterwards the position is kept and the `MOVE_CURSOR` command is
    /// returned for sending.
    pub fn move_cursor_hw(&mut self, x: u32, y: u32) -> (cmd: Option<Vec<u8>>)
        ensures
            keeps_ready(old(self)@, final(self)@),
            !old(self)@.ready ==> cmd is None && final(self)@ == old(self)@,
            old(self)@.ready ==> cmd is Some && cmd->0@ == command_spec(
                CMD_MOVE_CURSOR,
                zeros(12) + le32(0) + le32(x) + le32(y) + le32(0),
            ) && final(self)@.cursor_x == x && final(self)@.cursor_y == y
                && final(self)@.ready == old(self)@.ready && final(self)@.flush_count
                == old(self)@.flush_count && final(self)@.callback_count == old(self)@.callback_count,
    {
        if !self.ready {
            return None;
        }
        self.cursor_x = x;
        self.cursor_y = y;
        Some(move_cursor_cmd(x, y))
    }
}


/// The run of black border pixels in row `row` of the arrow cursor
/// (start column, length); the rest of the 24 columns of rows 0..22 are
/// white.
pub open spec fn cursor_run(row: int) -> (int, int) {
    if row == 0 || row == 19 {
        (0, 1)
    } else if 1 <= row <= 11 {
        (1, row + 1)
    } else if row == 12 {
        (1, 14)
    } else if 13 <= row <= 18 {
        (1, 19 - row)
    } else {
        (0, 0)
    }
}

/// Byte `i` of the 64x64 BGRA cursor image: the arrow in the top-left
/// 24x22 pixels (white inside a black border, opaque), transparent black
/// elsewhere.
pub open spec fn cursor_byte(i: int) -> u8 {
    let px = i / 4;
    let x = px % 64;
    let y = px / 64;
    let k = i % 4;
    if y < 22 && x < 24 {
        let (start, len) = cursor_run(y);
        if start <= x < start + len {
            if k == 3 { 0xFF } else { 0x00 }
        } else {
            0xFF
        }
    } else {
        0
    }
}

fn cursor_run_exec(row: usize) -> (r: (usize, usize))
    requires
        row < 22,
    ensures
        r.0 == cursor_run(row as int).0,
        r.1 == cursor_run(row as int).1,
{
    if row == 0 || row == 19 {
        (0, 1)
    } else if 1 <= row && row <= 11 {
        (1, row + 1)
    } else if row == 12 {
        (1, 14)
    } else if 13 <= row && row <= 18 {
        (1, 19 - row)
    } else {
        (0, 0)
    }
}

/// The cursor image uploaded to the cursor resource.
pub fn cursor_bitmap() -> (b: Vec<u8>)
    ensures
        b@.len() == CURSOR_BUF_SIZE,
        forall|i: int| 0 <= i < CURSOR_BUF_SIZE ==> b@[i] == cursor_byte(i),
{
    let mut b: Vec<u8> = Vec::new();
    let mut i: usize = 0;
    while i < CURSOR_BUF_SIZE
        invariant
            0 <= i <= CURSOR_BUF_SIZE,
            b@.len() == i,
            forall|j: int| 0 <= j < i ==> b@[j] == cursor_byte(j),
        decreases CURSOR_BUF_SIZE - i,
    {
        let px = i / 4;
        let x = px % 64;
        let y = px / 64;
        let k = i % 4;
        let v: u8 = if y < 22 && x < 24 {
            let (start, len) = cursor_run_exec(y);
            if start <= x && x < start + len {
                if k == 3 { 0xFF } else { 0x00 }
            } else {
                0xFF
            }
        } else {
            0
        };
        b.push(v);
        i = i + 1;
    }
    b
}

/// The 5x7 font: seven rows per character, the five pixels of a row in
/// bits 7..3, leftmost first.
pub open spec fn font5x7(c: u8) -> Option<[u8; 7]> {
    match c {
        0x20 => Some([0x00, 0x00, 0x00, 0x00, 0x00, 0x00, 0x00]),
        0x21 => Some([0x20, 0x20, 0x20, 0x20, 0x20, 0x00, 0x20]),
        0x2e => Some([0x00, 0x00, 0x00, 0x00, 0x00, 0x60, 0x60]),
        0x2f => Some([0x08, 0x10, 0x20, 0x40, 0x00, 0x00, 0x00]),
        0x30 => Some([0xF8, 0x88, 0xA8, 0xB8, 0xF8, 0x00, 0x00]),
        0x31 => Some([0x00, 0x40, 0xF8, 0x00, 0x00, 0x00, 0x00]),
        0x32 => Some([0x70, 0x88, 0x10, 0x60, 0xF8, 0x00, 0x00]),
        0x33 => Some([0xF0, 0x08, 0x30, 0x08, 0xF0, 0x00, 0x00]),
        0x34 => Some([0x20, 0x60, 0xA0, 0xF8, 0x20, 0x00, 0x00]),
        0x35 => Some([0xF8, 0x80, 0xF0, 0x08, 0xF0, 0x00, 0x00]),
        0x36 => Some([0x30, 0x40, 0xF0, 0x88, 0x70, 0x00, 0x00]),
        0x37 => Some([0xF8, 0x08, 0x10, 0x20, 0x40, 0x00, 0x00]),
        0x38 => Some([0x70, 0x88, 0x70, 0x88, 0x70, 0x00, 0x00]),
        0x39 => Some([0x70, 0x88, 0x78, 0x08, 0x30, 0x00, 0x00]),
        0x3a => Some([0x00, 0x60, 0x00, 0x00, 0x60, 0x00, 0x00]),
        0x41 => Some([0x70, 0x88, 0xF8, 0x88, 0x88, 0x00, 0x00]),
        0x42 => Some([0xF0, 0x88, 0xF0, 0x88, 0xF0, 0x00, 0x00]),
        0x43 => Some([0x70, 0x88, 0x80, 0x88, 0x70, 0x00, 0x00]),
        0x44 => Some([0xE0, 0x90, 0x88, 0x90, 0xE0, 0x00, 0x00]),
        0x45 => Some([0xF8, 0x80, 0xE0, 0x80, 0xF8, 0x00, 0x00]),
        0x46 => Some([0xF8, 0x80, 0xE0, 0x80, 0x80, 0x00, 0x00]),
        0x47 => Some([0x70, 0x88, 0x80, 0x98, 0x78, 0x00, 0x00]),
        0x48 => Some([0x88, 0x88, 0xF8, 0x88, 0x88, 0x00, 0x00]),
        0x49 => Some([0x70, 0x20, 0x20, 0x20, 0x70, 0x00, 0x00]),
        0x4b => Some([0x88, 0x90, 0xE0, 0x90, 0x88, 0x00, 0x00]),
        0x4c => Some([0x80, 0x80, 0x80, 0x80, 0xF8, 0x00, 0x00]),
        0x4d => Some([0x88, 0xD8, 0xA8, 0x88, 0x88, 0x00, 0x00]),
        0x4e => Some([0x88, 0xC8, 0xA8, 0x98, 0x88, 0x00, 0x00]),
        0x4f => Some([0x70, 0x88, 0x88, 0x88, 0x70, 0x00, 0x00]),
        0x50 => Some([0xF0, 0x88, 0xF0, 0x80, 0x80, 0x00, 0x00]),
        0x52 => Some([0xF0, 0x88, 0xF0, 0x90, 0x88, 0x00, 0x00]),
        0x53 => Some([0x70, 0x80, 0x70, 0x08, 0xF0, 0x00, 0x00]),
        0x54 => Some([0xF8, 0x20, 0x20, 0x20, 0x20, 0x00, 0x00]),
        0x55 => Some([0x88, 0x88, 0x88, 0x88, 0x70, 0x00, 0x00]),
        0x56 => Some([0x88, 0x88, 0x88, 0x50, 0x20, 0x00, 0x00]),
        0x57 => Some([0x88, 0x88, 0xA8, 0xD8, 0x88, 0x00, 0x00]),
        0x58 => Some([0x88, 0x50, 0x20, 0x50, 0x88, 0x00, 0x00]),
        0x61 => Some([0x00, 0x00, 0x78, 0x88, 0x78, 0x00, 0x00]),
        0x62 => Some([0x80, 0x80, 0xF0, 0x88, 0xF0, 0x00, 0x00]),
        0x63 => Some([0x00, 0x00, 0x70, 0x80, 0x70, 0x00, 0x00]),
        0x64 => Some([0x08, 0x08, 0x78, 0x88, 0x78, 0x00, 0x00]),
        0x65 => Some([0x00, 0x00, 0x70, 0xF8, 0x30, 0x00, 0x00]),
        0x67 => Some([0x00, 0x70, 0x88, 0x78, 0x08, 0x70, 0x00]),
        0x68 => Some([0x80, 0x80, 0xF0, 0x88, 0x88, 0x00, 0x00]),
        0x69 => Some([0x20, 0x00, 0x60, 0x20, 0x70, 0x00, 0x00]),
        0x6b => Some([0x80, 0x80, 0x90, 0xE0, 0x90, 0x00, 0x00]),
        0x6c => Some([0x60, 0x20, 0x20, 0x20, 0x70, 0x00, 0x00]),
        0x6d => Some([0x00, 0x00, 0xD0, 0xA8, 0x88, 0x00, 0x00]),
        0x6e => Some([0x00, 0x00, 0xF0, 0x88, 0x88, 0x00, 0x00]),
        0x6f => Some([0x00, 0x00, 0x70, 0x88, 0x70, 0x00, 0x00]),
        0x70 => Some([0x00, 0xF0, 0x88, 0xF0, 0x80, 0x80, 0x00]),
        0x72 => Some([0x00, 0x00, 0xF0, 0x88, 0x80, 0x00, 0x00]),
        0x73 => Some([0x00, 0x00, 0x78, 0x80, 0xF0, 0x00, 0x00]),
        0x74 => Some([0x40, 0x40, 0xE0, 0x40, 0x40, 0x00, 0x00]),
        0x75 => Some([0x00, 0x00, 0x88, 0x88, 0x78, 0x00, 0x00]),
        0x77 => Some([0x00, 0x00, 0x88, 0xA8, 0x50, 0x00, 0x00]),
        0x78 => Some([0x00, 0x00, 0x88, 0x70, 0x88, 0x00, 0x00]),
        _ => None,
    }
}

fn font5x7_lookup(c: u8) -> (r: Option<[u8; 7]>)
    ensures
        r == font5x7(c),
{
    match c {
        0x20 => Some([0x00, 0x00, 0x00, 0x00, 0x00, 0x00, 0x00]),
        0x21 => Some([0x20, 0x20, 0x20, 0x20, 0x20, 0x00, 0x20]),
        0x2e => Some([0x00, 0x00, 0x00, 0x00, 0x00, 0x60, 0x60]),
        0x2f => Some([0x08, 0x10, 0x20, 0x40, 0x00, 0x00, 0x00]),
        0x30 => Some([0xF8, 0x88, 0xA8, 0xB8, 0xF8, 0x00, 0x00]),
        0x31 => Some([0x00, 0x40, 0xF8, 0x00, 0x00, 0x00, 0x00]),
        0x32 => Some([0x70, 0x88, 0x10, 0x60, 0xF8, 0x00, 0x00]),
        0x33 => Some([0xF0, 0x08, 0x30, 0x08, 0xF0, 0x00, 0x00]),
        0x34 => Some([0x20, 0x60, 0xA0, 0xF8, 0x20, 0x00, 0x00]),
        0x35 => Some([0xF8, 0x80, 0xF0, 0x08, 0xF0, 0x00, 0x00]),
        0x36 => Some([0x30, 0x40, 0xF0, 0x88, 0x70, 0x00, 0x00]),
        0x37 => Some([0xF8, 0x08, 0x10, 0x20, 0x40, 0x00, 0x00]),
        0x38 => Some([0x70, 0x88, 0x70, 0x88, 0x70, 0x00, 0x00]),
        0x39 => Some([0x70, 0x88, 0x78, 0x08, 0x30, 0x00, 0x00]),
        0x3a => Some([0x00, 0x60, 0x00, 0x00, 0x60, 0x00, 0x00]),
        0x41 => Some([0x70, 0x88, 0xF8, 0x88, 0x88, 0x00, 0x00]),
        0x42 => Some([0xF0, 0x88, 0xF0, 0x88, 0xF0, 0x00, 0x00]),
        0x43 => Some([0x70, 0x88, 0x80, 0x88, 0x70, 0x00, 0x00]),
        0x44 => Some([0xE0, 0x90, 0x88, 0x90, 0xE0, 0x00, 0x00]),
        0x45 => Some([0xF8, 0x80, 0xE0, 0x80, 0xF8, 0x00, 0x00]),
        0x46 => Some([0xF8, 0x80, 0xE0, 0x80, 0x80, 0x00, 0x00]),
        0x47 => Some([0x70, 0x88, 0x80, 0x98, 0x78, 0x00, 0x00]),
        0x48 => Some([0x88, 0x88, 0xF8, 0x88, 0x88, 0x00, 0x00]),
        0x49 => Some([0x70, 0x20, 0x20, 0x20, 0x70, 0x00, 0x00]),
        0x4b => Some([0x88, 0x90, 0xE0, 0x90, 0x88, 0x00, 0x00]),
        0x4c => Some([0x80, 0x80, 0x80, 0x80, 0xF8, 0x00, 0x00]),
        0x4d => Some([0x88, 0xD8, 0xA8, 0x88, 0x88, 0x00, 0x00]),
        0x4e => Some([0x88, 0xC8, 0xA8, 0x98, 0x88, 0x00, 0x00]),
        0x4f => Some([0x70, 0x88, 0x88, 0x88, 0x70, 0x00, 0x00]),
        0x50 => Some([0xF0, 0x88, 0xF0, 0x80, 0x80, 0x00, 0x00]),
        0x52 => Some([0xF0, 0x88, 0xF0, 0x90, 0x88, 0x00, 0x00]),
        0x53 => Some([0x70, 0x80, 0x70, 0x08, 0xF0, 0x00, 0x00]),
        0x54 => Some([0xF8, 0x20, 0x20, 0x20, 0x20, 0x00, 0x00]),
        0x55 => Some([0x88, 0x88, 0x88, 0x88, 0x70, 0x00, 0x00]),
        0x56 => Some([0x88, 0x88, 0x88, 0x50, 0x20, 0x00, 0x00]),
        0x57 => Some([0x88, 0x88, 0xA8, 0xD8, 0x88, 0x00, 0x00]),
        0x58 => Some([0x88, 0x50, 0x20, 0x50, 0x88, 0x00, 0x00]),
        0x61 => Some([0x00, 0x00, 0x78, 0x88, 0x78, 0x00, 0x00]),
        0x62 => Some([0x80, 0x80, 0xF0, 0x88, 0xF0, 0x00, 0x00]),
        0x63 => Some([0x00, 0x00, 0x70, 0x80, 0x70, 0x00, 0x00]),
        0x64 => Some([0x08, 0x08, 0x78, 0x88, 0x78, 0x00, 0x00]),
        0x65 => Some([0x00, 0x00, 0x70, 0xF8, 0x30, 0x00, 0x00]),
        0x67 => Some([0x00, 0x70, 0x88, 0x78, 0x08, 0x70, 0x00]),
        0x68 => Some([0x80, 0x80, 0xF0, 0x88, 0x88, 0x00, 0x00]),
        0x69 => Some([0x20, 0x00, 0x60, 0x20, 0x70, 0x00, 0x00]),
        0x6b => Some([0x80, 0x80, 0x90, 0xE0, 0x90, 0x00, 0x00]),
        0x6c => Some([0x60, 0x20, 0x20, 0x20, 0x70, 0x00, 0x00]),
        0x6d => Some([0x00, 0x00, 0xD0, 0xA8, 0x88, 0x00, 0x00]),
        0x6e => Some([0x00, 0x00, 0xF0, 0x88, 0x88, 0x00, 0x00]),
        0x6f => Some([0x00, 0x00, 0x70, 0x88, 0x70, 0x00, 0x00]),
        0x70 => Some([0x00, 0xF0, 0x88, 0xF0, 0x80, 0x80, 0x00]),
        0x72 => Some([0x00, 0x00, 0xF0, 0x88, 0x80, 0x00, 0x00]),
        0x73 => Some([0x00, 0x00, 0x78, 0x80, 0xF0, 0x00, 0x00]),
        0x74 => Some([0x40, 0x40, 0xE0, 0x40, 0x40, 0x00, 0x00]),
        0x75 => Some([0x00, 0x00, 0x88, 0x88, 0x78, 0x00, 0x00]),
        0x77 => Some([0x00, 0x00, 0x88, 0xA8, 0x50, 0x00, 0x00]),
        0x78 => Some([0x00, 0x00, 0x88, 0x70, 0x88, 0x00, 0x00]),
        _ => None,
    }
}

/// The glyph of `c`: its own, else that of its upper case for a lower-case
/// letter, else blank.
pub open spec fn font_glyph_spec(c: u8) -> [u8; 7] {
    match font5x7(c) {
        Some(g) => g,
        None => if 0x61 <= c <= 0x7a {
            match font5x7((c - 32) as u8) {
                Some(g) => g,
                None => [0u8, 0, 0, 0, 0, 0, 0],
            }
        } else {
            [0u8, 0, 0, 0, 0, 0, 0]
        },
    }
}

pub fn font_glyph(c: u8) -> (g: [u8; 7])
    ensures
        g == font_glyph_spec(c),
{
    if let Some(g) = font5x7_lookup(c) {
        return g;
    }
    if 0x61 <= c && c <= 0x7a {
        if let Some(g) = font5x7_lookup(c - 32) {
            return g;
        }
    }
    [0u8, 0, 0, 0, 0, 0, 0]
}

/// Pixel `col` (0 = leftmost) of a glyph row is set.
pub open spec fn glyph_bit(bits: u8, col: int) -> bool {
    (bits >> ((7 - col) as u8)) & 1 != 0
}

/// Pixel `px` of the row is lit by `text` drawn from `x_start` with glyph
/// row `yt`, counting only characters before `upto`: characters are 5
/// pixels wide with a 1-pixel gap.
pub open spec fn text_lit(text: Seq<u8>, x_start: int, yt: int, px: int, upto: int) -> bool {
    let c = (px - x_start) / 6;
    let m = (px - x_start) % 6;
    &&& yt < 7
    &&& px >= x_start
    &&& c < text.len()
    &&& c < upto
    &&& m < 5
    &&& glyph_bit(font_glyph_spec(text[c])[yt], m)
}

/// Byte `k` of a BGRA pixel of colour `(r, g, b)`, opaque.
pub open spec fn bgra(r: u8, g: u8, b: u8, k: int) -> u8 {
    if k == 0 {
        b
    } else if k == 1 {
        g
    } else if k == 2 {
        r
    } else {
        0xFF
    }
}

/// The row after painting the lit pixels below `w` in colour `(r, g, b)`.
pub open spec fn paint_text(
    row: Seq<u8>,
    w: int,
    text: Seq<u8>,
    x_start: int,
    yt: int,
    r: u8,
    g: u8,
    b: u8,
    upto: int,
) -> Seq<u8> {
    Seq::new(
        row.len(),
        |j: int|
            if j / 4 < w && text_lit(text, x_start, yt, j / 4, upto) {
                bgra(r, g, b, j % 4)
            } else {
                row[j]
            },
    )
}

proof fn lemma_div_mod(a: int, d: int, q: int, m: int)
    requires
        d > 0,
        0 <= m < d,
        a == q * d + m,
    ensures
        a / d == q,
        a % d == m,
{
    vstd::arithmetic::div_mod::lemma_fundamental_div_mod_converse(a, d, q, m);
}

/// Sets pixel `px` of a BGRA row.
fn set_pixel(row: &mut Vec<u8>, px: usize, r: u8, g: u8, b: u8)
    requires
        px * 4 + 4 <= old(row)@.len(),
    ensures
        final(row)@ == Seq::new(
            old(row)@.len(),
            |j: int|
                if j / 4 == px {
                    bgra(r, g, b, j % 4)
                } else {
                    old(row)@[j]
                },
        ),
{
    let ghost old_row = row@;
    let _len = row.len();
    row.set(px * 4, b);
    row.set(px * 4 + 1, g);
    row.set(px * 4 + 2, r);
    row.set(px * 4 + 3, 0xFF);
    proof {
        assert forall|j: int| 0 <= j < old_row.len() implies row@[j] == (if j / 4 == px {
            bgra(r, g, b, j % 4)
        } else {
            old_row[j]
        }) by {
            if px * 4 <= j < px * 4 + 4 {
                lemma_div_mod(j, 4, px as int, j - px * 4);
            } else {
                assert(j / 4 != px) by (nonlinear_arith)
                    requires
                        !(px * 4 <= j < px * 4 + 4),
                        0 <= j,
                ;
            }
        }
        assert(row@ =~= Seq::new(
            old_row.len(),
            |j: int|
                if j / 4 == px {
                    bgra(r, g, b, j % 4)
                } else {
                    old_row[j]
                },
        ));
    }
}

/// Draws `text` into a BGRA pixel row at `x_start`, glyph row `y_in_text`
/// (0..7; other rows draw nothing), in colour `(r, g, b)`. Only the set
/// pixels of the glyphs left of `w` are written.
pub fn draw_text_into_row(
    row: &mut Vec<u8>,
    w: usize,
    text: &[u8],
    x_start: usize,
    y_in_text: usize,
    r: u8,
    g: u8,
    b: u8,
)
    requires
        x_start + 6 * text@.len() <= usize::MAX,
        forall|px: int|
            0 <= px < w && text_lit(text@, x_start as int, y_in_text as int, px, text@.len() as int)
                ==> px * 4 + 4 <= old(row)@.len(),
    ensures
        final(row)@ == paint_text(
            old(row)@,
            w as int,
            text@,
            x_start as int,
            y_in_text as int,
            r,
            g,
            b,
            text@.len() as int,
        ),
{
    let ghost row0 = row@;
    let mut x = x_start;
    let mut ci: usize = 0;
    proof {
        assert(row@ =~= paint_text(row0, w as int, text@, x_start as int, y_in_text as int, r, g, b, 0));
    }
    while ci < text.len()
        invariant
            0 <= ci <= text@.len(),
            x == x_start + 6 * ci,
            x_start + 6 * text@.len() <= usize::MAX,
            row@.len() == row0.len(),
            forall|px: int|
                0 <= px < w && text_lit(text@, x_start as int, y_in_text as int, px, text@.len() as int)
                    ==> px * 4 + 4 <= row0.len(),
            row@ == paint_text(row0, w as int, text@, x_start as int, y_in_text as int, r, g, b, ci as int),
        decreases text@.len() - ci,
    {
        let glyph = font_glyph(text[ci]);
        if y_in_text < 7 {
            let bits = glyph[y_in_text];
            let mut col: usize = 0;
            while col < 5
                invariant
                    0 <= col <= 5,
                    ci < text@.len(),
                    y_in_text < 7,
                    glyph == font_glyph_spec(text@[ci as int]),
                    bits == glyph[y_in_text as int],
                    x == x_start + 6 * ci,
                    x_start + 6 * text@.len() <= usize::MAX,
                    row@.len() == row0.len(),
                    forall|px: int|
                        0 <= px < w && text_lit(
                            text@,
                            x_start as int,
                            y_in_text as int,
                            px,
                            text@.len() as int,
                        ) ==> px * 4 + 4 <= row0.len(),
                    forall|j: int|
                        0 <= j < row0.len() ==> #[trigger] row@[j] == if j / 4 < w && (text_lit(
                            text@,
                            x_start as int,
                            y_in_text as int,
                            j / 4,
                            ci as int,
                        ) || (j / 4 >= x && j / 4 < x + col && glyph_bit(bits, j / 4 - x))) {
                            bgra(r, g, b, j % 4)
                        } else {
                            row0[j]
                        },
                decreases 5 - col,
            {
                if (bits >> (7 - col) as u8) & 1 != 0 {
                    let px = x + col;
                    if px < w {
                        proof {
                            lemma_div_mod(px - x_start, 6, ci as int, col as int);
                            assert(text_lit(text@, x_start as int, y_in_text as int, px as int, text@.len() as int));
                        }
                        let ghost before = row@;
                        set_pixel(row, px, r, g, b);
                        proof {
                            assert forall|j: int| 0 <= j < row0.len() implies #[trigger] row@[j] == if j / 4 < w && (text_lit(
                                text@,
                                x_start as int,
                                y_in_text as int,
                                j / 4,
                                ci as int,
                            ) || (j / 4 >= x && j / 4 < x + col + 1 && glyph_bit(bits, j / 4 - x))) {
                                bgra(r, g, b, j % 4)
                            } else {
                                row0[j]
                            } by {
                                assert(before[j] == row@[j] || j / 4 == px);
                            }
                        }
                    }
                }
                col = col + 1;
            }
            proof {
                assert forall|j: int| 0 <= j < row0.len() implies row@[j] == paint_text(
                    row0,
                    w as int,
                    text@,
                    x_start as int,
                    y_in_text as int,
                    r,
                    g,
                    b,
                    ci + 1,
                )[j] by {
                    let px = j / 4;
                    if px >= x && px < x + 5 {
                        lemma_div_mod(px - x_start, 6, ci as int, px - x);
                    } else if px >= x_start {
                        let c = (px - x_start) / 6;
                        let m = (px - x_start) % 6;
                        assert(px - x_start == c * 6 + m) by (nonlinear_arith)
                            requires
                                c == (px - x_start) / 6,
                                m == (px - x_start) % 6,
                        ;
                        if c == ci {
                            assert(m == 5);
                        }
                    }
                }
                assert(row@ =~= paint_text(row0, w as int, text@, x_start as int, y_in_text as int, r, g, b, ci + 1));
            }
        } else {
            proof {
                assert(row@ =~= paint_text(row0, w as int, text@, x_start as int, y_in_text as int, r, g, b, ci + 1));
            }
        }
        x = x + 6;
        ci = ci + 1;
    }
}


/// A row of `w` opaque pixels of colour `(r, g, b)`.
pub open spec fn solid_row(w: int, r: u8, g: u8, b: u8) -> Seq<u8> {
    Seq::new((w * 4) as nat, |j: int| bgra(r, g, b, j % 4))
}

/// The word drawn on the boot banner.
pub open spec fn banner_word() -> Seq<u8> {
    seq![0x6bu8, 0x65, 0x69]
}

/// The line drawn under it.
pub open spec fn banner_loading() -> Seq<u8> {
    seq![0x4cu8, 0x6f, 0x61, 0x64, 0x69, 0x6e, 0x67, 0x2e, 0x2e, 0x2e]
}

/// Row `y` of the boot banner: dark slate, with the word in white from
/// row 18 and the loading line in grey from row 42, both centred.
pub open spec fn banner_row_spec(y: int) -> Seq<u8> {
    let w = FB_WIDTH as int;
    let base = solid_row(w, 0x1e, 0x2c, 0x3c);
    let with_word = if 18 <= y < 38 {
        paint_text(base, w, banner_word(), w / 2 - 12, y - 18, 0xFF, 0xFF, 0xFF, 3)
    } else {
        base
    };
    if 42 <= y < 52 {
        paint_text(with_word, w, banner_loading(), w / 2 - 30, y - 42, 0x8a, 0x94, 0xa6, 10)
    } else {
        with_word
    }
}

/// The pixels of row `y` of the boot banner, for the first 60 rows of the
/// framebuffer.
pub fn banner_row(y: usize) -> (row: Vec<u8>)
    ensures
        row@ == banner_row_spec(y as int),
{
    let w = FB_WIDTH as usize;
    let mut row: Vec<u8> = Vec::new();
    let mut j: usize = 0;
    while j < w * 4
        invariant
            w == FB_WIDTH,
            0 <= j <= w * 4,
            row@.len() == j,
            forall|i: int| 0 <= i < j ==> row@[i] == bgra(0x1e, 0x2c, 0x3c, i % 4),
        decreases w * 4 - j,
    {
        let k = j % 4;
        let v: u8 = if k == 0 {
            0x3c
        } else if k == 1 {
            0x2c
        } else if k == 2 {
            0x1e
        } else {
            0xFF
        };
        row.push(v);
        j = j + 1;
    }
    assert(row@ =~= solid_row(w as int, 0x1e, 0x2c, 0x3c));
    if y >= 18 && y < 38 {
        let word: Vec<u8> = vec![0x6b, 0x65, 0x69];
        assert(word@ =~= banner_word());
        draw_text_into_row(&mut row, w, word.as_slice(), w / 2 - 12, y - 18, 0xFF, 0xFF, 0xFF);
    }
    if y >= 42 && y < 52 {
        let line: Vec<u8> = vec![0x4c, 0x6f, 0x61, 0x64, 0x69, 0x6e, 0x67, 0x2e, 0x2e, 0x2e];
        assert(line@ =~= banner_loading());
        draw_text_into_row(&mut row, w, line.as_slice(), w / 2 - 30, y - 42, 0x8a, 0x94, 0xa6);
    }
    row
}

/// The first 60 rows of the boot banner, top first.
pub fn draw_desktop_banner() -> (rows: Vec<Vec<u8>>)
    ensures
        rows@.len() == 60,
        forall|y: int| 0 <= y < 60 ==> (#[trigger] rows@[y])@ == banner_row_spec(y),
{
    let mut rows: Vec<Vec<u8>> = Vec::new();
    let mut y: usize = 0;
    while y < 60
        invariant
            0 <= y <= 60,
            rows@.len() == y,
            forall|k: int| 0 <= k < y ==> (#[trigger] rows@[k])@ == banner_row_spec(k),
        decreases 60 - y,
    {
        rows.push(banner_row(y));
        y = y + 1;
    }
    rows
}

} // verus!
