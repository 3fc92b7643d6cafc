//! virtio device discovery and feature negotiation: which features the
//! driver accepts, the status steps of device set-up, the MMIO transport
//! version, and whether an MMIO window holds a device.

use vstd::prelude::*;

use crate::framebuffer::IoMemRegion;

verus! {

pub const FEATURE_NOTIFY_ON_EMPTY: u64 = 0x0100_0000;
pub const FEATURE_ANY_LAYOUT: u64 = 0x0800_0000;
pub const FEATURE_RING_INDIRECT_DESC: u64 = 0x1000_0000;
pub const FEATURE_RING_EVENT_IDX: u64 = 0x2000_0000;
pub const FEATURE_UNUSED: u64 = 0x4000_0000;
pub const FEATURE_VERSION_1: u64 = 0x1_0000_0000;
pub const FEATURE_ACCESS_PLATFORM: u64 = 0x2_0000_0000;
pub const FEATURE_RING_PACKED: u64 = 0x4_0000_0000;
pub const FEATURE_IN_ORDER: u64 = 0x8_0000_0000;
pub const FEATURE_ORDER_PLATFORM: u64 = 0x10_0000_0000;
pub const FEATURE_SR_IOV: u64 = 0x20_0000_0000;
pub const FEATURE_NOTIFICATION_DATA: u64 = 0x40_0000_0000;
pub const FEATURE_NOTIF_CONFIG_DATA: u64 = 0x80_0000_0000;
pub const FEATURE_RING_RESET: u64 = 0x100_0000_0000;

/// Every transport feature the driver knows.
pub const KNOWN_TRANSPORT_FEATURES: u64 = 0x1FF_7900_0000;

/// The device-specific feature bits: 0..24 and 50..74 (truncated to 64).
pub const DEVICE_FEATURE_MASK: u64 = 0xFFFC_0000_00FF_FFFF;

pub const STATUS_ACKNOWLEDGE: u8 = 1;
pub const STATUS_DRIVER: u8 = 2;
pub const STATUS_FEATURES_OK: u8 = 8;

/// The device-specific part of the offered features.
pub fn device_specified_features(features: u64) -> (f: u64)
    ensures
        f == features & DEVICE_FEATURE_MASK,
{
    features & DEVICE_FEATURE_MASK
}

/// The features the driver accepts: the known transport features the
/// device offers except `RING_EVENT_IDX`, and what the device driver
/// accepts of its own, all within what was offered.
pub open spec fn driver_features_spec(features: u64, device_support: u64) -> u64 {
    features & ((features & KNOWN_TRANSPORT_FEATURES & !FEATURE_RING_EVENT_IDX) | device_support)
}

pub fn driver_features(features: u64, device_support: u64) -> (f: u64)
    ensures
        f == driver_features_spec(features, device_support),
{
    let support = (features & KNOWN_TRANSPORT_FEATURES) & !FEATURE_RING_EVENT_IDX;
    features & (support | device_support)
}

/// The driver never accepts a feature the device did not offer, nor
/// `RING_EVENT_IDX` unless a device driver asks for it.
pub proof fn lemma_driver_features_offered(features: u64, device_support: u64)
    ensures
        driver_features_spec(features, device_support) & !features == 0,
        device_support & FEATURE_RING_EVENT_IDX == 0 ==> driver_features_spec(features, device_support)
            & FEATURE_RING_EVENT_IDX == 0,
{
    assert((features & ((features & 0x1FF_7900_0000u64 & !0x2000_0000u64) | device_support))
        & !features == 0) by (bit_vector);
    assert(device_support & 0x2000_0000u64 == 0 ==> (features & ((features & 0x1FF_7900_0000u64
        & !0x2000_0000u64) | device_support)) & 0x2000_0000u64 == 0) by (bit_vector);
}

/// The status values written while setting a device up: reset, then
/// acknowledge and driver, then (for non-legacy devices) features OK.
pub fn init_status_steps(is_legacy: bool) -> (s: Vec<u8>)
    ensures
        !is_legacy ==> s@ == seq![0u8, 3, 11],
        is_legacy ==> s@ == seq![0u8, 3],
{
    let mut s: Vec<u8> = Vec::new();
    s.push(0);
    s.push(STATUS_ACKNOWLEDGE | STATUS_DRIVER);
    if !is_legacy {
        s.push(STATUS_ACKNOWLEDGE | STATUS_DRIVER | STATUS_FEATURES_OK);
    }
    assert(1u8 | 2u8 == 3u8 && (1u8 | 2u8) | 8u8 == 11u8) by (bit_vector);
    proof {
        if is_legacy {
            assert(s@ =~= seq![0u8, 3]);
        } else {
            assert(s@ =~= seq![0u8, 3, 11]);
        }
    }
    s
}

/// The virtio-mmio transport versions.
#[derive(Clone, Copy, Debug, PartialEq, Eq, Structural)]
pub enum VirtioMmioVersion {
    Legacy,
    Modern,
}

/// Errors of MMIO transport access.
#[derive(Clone, Copy, Debug, PartialEq, Eq, Structural)]
pub enum MmioError {
    InvalidArgs,
}

impl VirtioMmioVersion {
    /// Version 1 is legacy, 2 modern; others are refused.
    pub fn try_from(v: u32) -> (r: Result<VirtioMmioVersion, MmioError>)
        ensures
            v == 1 ==> r == Ok::<VirtioMmioVersion, MmioError>(VirtioMmioVersion::Legacy),
            v == 2 ==> r == Ok::<VirtioMmioVersion, MmioError>(VirtioMmioVersion::Modern),
            v != 1 && v != 2 ==> r == Err::<VirtioMmioVersion, MmioError>(MmioError::InvalidArgs),
    {
        if v == 1 {
            Ok(VirtioMmioVersion::Legacy)
        } else if v == 2 {
            Ok(VirtioMmioVersion::Modern)
        } else {
            Err(MmioError::InvalidArgs)
        }
    }
}

/// A virtio-mmio device: its register window and interrupt line.
#[derive(Clone, Copy, Debug, PartialEq, Eq, Structural)]
pub struct MmioCommonDevice {
    pub io_mem: IoMemRegion,
    pub irq: u32,
}

impl MmioCommonDevice {
    pub fn new(io_mem: IoMemRegion, irq: u32) -> (d: MmioCommonDevice)
        ensures
            d.io_mem == io_mem && d.irq == irq,
    {
        MmioCommonDevice { io_mem, irq }
    }

    pub fn io_mem(&self) -> (io: IoMemRegion)
        ensures
            io == self.io_mem,
    {
        self.io_mem
    }

    pub fn io_mem_paddr(&self) -> (p: usize)
        ensures
            p == self.io_mem.paddr,
    {
        self.io_mem.paddr
    }

    pub fn irq(&self) -> (i: u32)
        ensures
            i == self.irq,
    {
        self.irq
    }

    /// The version from the version register's value.
    pub fn read_version(&self, raw: u32) -> (r: Result<VirtioMmioVersion, MmioError>)
        ensures
            r == if raw == 1 {
                Ok::<VirtioMmioVersion, MmioError>(VirtioMmioVersion::Legacy)
            } else if raw == 2 {
                Ok(VirtioMmioVersion::Modern)
            } else {
                Err(MmioError::InvalidArgs)
            },
    {
        VirtioMmioVersion::try_from(raw)
    }
}

/// Why an MMIO window is not registered.
#[derive(Clone, Copy, Debug, PartialEq, Eq, Structural)]
pub enum MmioRegisterError {
    MmioUnavailable,
    MagicMismatch,
    NoDevice,
    IrqUnavailable,
}

/// The magic value of a virtio-mmio register block.
pub const VIRTIO_MMIO_MAGIC: u32 = 0x7472_6976;

/// An MMIO window holds a device when it has the virtio magic and a
/// non-zero device id.
pub fn check_mmio_device(magic: u32, device_id: u32) -> (r: Result<(), MmioRegisterError>)
    ensures
        magic != VIRTIO_MMIO_MAGIC ==> r == Err::<(), MmioRegisterError>(MmioRegisterError::MagicMismatch),
        magic == VIRTIO_MMIO_MAGIC && device_id == 0 ==> r == Err::<(), MmioRegisterError>(
            MmioRegisterError::NoDevice,
        ),
        magic == VIRTIO_MMIO_MAGIC && device_id != 0 ==> r == Ok::<(), MmioRegisterError>(()),
{
    if magic != VIRTIO_MMIO_MAGIC {
        return Err(MmioRegisterError::MagicMismatch);
    }
    if device_id == 0 {
        return Err(MmioRegisterError::NoDevice);
    }
    Ok(())
}

} // verus!
