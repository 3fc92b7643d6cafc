//! The serial console device that user space reads and writes on aarch64
//! and riscv64: its access checks, poll events and transfer sizes. Moving
//! the bytes through the UART is the caller's.

use vstd::prelude::*;

use crate::errno::Errno;

verus! {

/// Most bytes one read returns.
pub const SERIAL_READ_MAX: usize = 256;

/// Most bytes one write sends.
pub const SERIAL_WRITE_MAX: usize = 1024;

pub const POLLIN: u32 = 0x0001;
pub const POLLOUT: u32 = 0x0004;

/// How a file was opened.
#[derive(Clone, Copy, Debug, PartialEq, Eq, Structural)]
pub enum AccessMode {
    ReadOnly,
    WriteOnly,
    ReadWrite,
}

impl AccessMode {
    pub open spec fn spec_readable(self) -> bool {
        self != AccessMode::WriteOnly
    }

    pub open spec fn spec_writable(self) -> bool {
        self != AccessMode::ReadOnly
    }

    pub fn is_readable(&self) -> (r: bool)
        ensures
            r == self.spec_readable(),
    {
        match self {
            AccessMode::WriteOnly => false,
            _ => true,
        }
    }

    pub fn is_writable(&self) -> (w: bool)
        ensures
            w == self.spec_writable(),
    {
        match self {
            AccessMode::ReadOnly => false,
            _ => true,
        }
    }
}

/// The serial console file.
#[derive(Clone, Copy, Debug, PartialEq, Eq, Structural)]
pub struct SerialConsole {
    pub access_mode: AccessMode,
}

impl SerialConsole {
    pub fn new(access_mode: AccessMode) -> (c: SerialConsole)
        ensures
            c.access_mode == access_mode,
    {
        SerialConsole { access_mode }
    }

    /// Always ready for both directions: the asked-for ones of `POLLIN`
    /// and `POLLOUT`.
    pub fn poll(&self, mask: u32) -> (events: u32)
        ensures
            events == (if mask & POLLOUT != 0 { POLLOUT } else { 0 }) | (if mask & POLLIN != 0 {
                POLLIN
            } else {
                0
            }),
    {
        let mut events: u32 = 0;
        if mask & POLLOUT != 0 {
            events = events | POLLOUT;
        }
        if mask & POLLIN != 0 {
            events = events | POLLIN;
        }
        assert((0u32 | 4u32) | 1u32 == 5u32 && 0u32 | 4u32 == 4u32 && 0u32 | 1u32 == 1u32
            && (0u32 | 0u32) == 0u32 && 4u32 | 0u32 == 4u32) by (bit_vector);
        events
    }

    /// A read that received `received` from the UART (at most
    /// `SERIAL_READ_MAX` bytes, as many as were waiting): `EBADF` when not
    /// opened for reading, `EAGAIN` when nothing was waiting, else the
    /// count.
    pub fn read(&self, received: &[u8]) -> (r: Result<usize, Errno>)
        requires
            received@.len() <= SERIAL_READ_MAX,
        ensures
            !self.access_mode.spec_readable() ==> r == Err::<usize, Errno>(Errno::EBADF),
            self.access_mode.spec_readable() && received@.len() == 0 ==> r == Err::<usize, Errno>(
                Errno::EAGAIN,
            ),
            self.access_mode.spec_readable() && received@.len() > 0 ==> r == Ok::<usize, Errno>(
                received@.len() as usize,
            ),
    {
        if !self.access_mode.is_readable() {
            return Err(Errno::EBADF);
        }
        if received.len() == 0 {
            return Err(Errno::EAGAIN);
        }
        Ok(received.len())
    }

    /// A write of `data`: `EBADF` when not opened for writing, else the
    /// first `SERIAL_WRITE_MAX` bytes at most, to send in order.
    pub fn write(&self, data: &[u8]) -> (r: Result<Vec<u8>, Errno>)
        ensures
            !self.access_mode.spec_writable() ==> r is Err && r->Err_0 == Errno::EBADF,
            self.access_mode.spec_writable() ==> r is Ok && r->Ok_0@ == data@.subrange(
                0,
                if data@.len() < SERIAL_WRITE_MAX { data@.len() as int } else { SERIAL_WRITE_MAX as int },
            ),
    {
        if !self.access_mode.is_writable() {
            return Err(Errno::EBADF);
        }
        let n = if data.len() < SERIAL_WRITE_MAX {
            data.len()
        } else {
            SERIAL_WRITE_MAX
        };
        let mut out: Vec<u8> = Vec::new();
        let mut i: usize = 0;
        while i < n
            invariant
                0 <= i <= n,
                n <= data@.len(),
                out@ == data@.subrange(0, i as int),
            decreases n - i,
        {
            out.push(data[i]);
            i = i + 1;
            proof {
                assert(out@ =~= data@.subrange(0, i as int));
            }
        }
        Ok(out)
    }
}

} // verus!
