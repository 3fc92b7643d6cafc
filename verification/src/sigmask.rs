//! `rt_sigprocmask`: how a thread's blocked-signal mask changes.

use vstd::prelude::*;

use crate::errno::Errno;

verus! {

/// The bits of `SIGKILL` (9) and `SIGSTOP` (19), which cannot be blocked.
pub const KILL_STOP: u64 = 0x4_0100;

/// How the mask changes.
#[derive(Clone, Copy, Debug, PartialEq, Eq, Structural)]
pub enum MaskOp {
    Block,
    Unblock,
    SetMask,
}

impl MaskOp {
    /// The operation numbered `how` (0, 1, 2); `EINVAL` for others.
    pub fn try_from(how: u32) -> (r: Result<MaskOp, Errno>)
        ensures
            how == 0 ==> r == Ok::<MaskOp, Errno>(MaskOp::Block),
            how == 1 ==> r == Ok::<MaskOp, Errno>(MaskOp::Unblock),
            how == 2 ==> r == Ok::<MaskOp, Errno>(MaskOp::SetMask),
            how > 2 ==> r == Err::<MaskOp, Errno>(Errno::EINVAL),
    {
        match how {
            0 => Ok(MaskOp::Block),
            1 => Ok(MaskOp::Unblock),
            2 => Ok(MaskOp::SetMask),
            _ => Err(Errno::EINVAL),
        }
    }
}

/// The mask after applying `set` to `old` with `op`: blocking adds the
/// signals of `set`, unblocking removes them, setting replaces the mask;
/// `SIGKILL` and `SIGSTOP` are never added.
pub open spec fn new_mask_spec(op: MaskOp, old: u64, set: u64) -> u64 {
    match op {
        MaskOp::Block => old | (set & !KILL_STOP),
        MaskOp::Unblock => old & !set,
        MaskOp::SetMask => set & !KILL_STOP,
    }
}

/// What each operation does to each signal. Unblocking: no signal of
/// `set` stays blocked, and the others keep their state. Blocking: every
/// signal of `set` but `SIGKILL` and `SIGSTOP` is blocked, the others keep
/// their state, and `SIGKILL` and `SIGSTOP` keep theirs. Setting: the mask
/// is `set` apart from `SIGKILL` and `SIGSTOP`, which end unblocked.
pub proof fn lemma_mask_ops(old: u64, set: u64)
    ensures
        new_mask_spec(MaskOp::Unblock, old, set) & set == 0,
        new_mask_spec(MaskOp::Unblock, old, set) & !set == old & !set,
        new_mask_spec(MaskOp::Block, old, set) & !set == old & !set,
        (set & !KILL_STOP) & !new_mask_spec(MaskOp::Block, old, set) == 0,
        new_mask_spec(MaskOp::Block, old, set) & KILL_STOP == old & KILL_STOP,
        new_mask_spec(MaskOp::SetMask, old, set) & !KILL_STOP == set & !KILL_STOP,
        new_mask_spec(MaskOp::SetMask, old, set) & KILL_STOP == 0,
{
    let u = new_mask_spec(MaskOp::Unblock, old, set);
    let b = new_mask_spec(MaskOp::Block, old, set);
    let m = new_mask_spec(MaskOp::SetMask, old, set);
    assert(u & set == 0 && u & !set == old & !set) by (bit_vector)
        requires
            u == old & !set,
    ;
    assert(b & !set == old & !set && (set & !0x4_0100u64) & !b == 0 && b & 0x4_0100u64 == old & 0x4_0100u64)
        by (bit_vector)
        requires
            b == old | (set & !0x4_0100u64),
    ;
    assert(m & !0x4_0100u64 == set & !0x4_0100u64 && m & 0x4_0100u64 == 0) by (bit_vector)
        requires
            m == set & !0x4_0100u64,
    ;
}

pub fn new_sig_mask(op: MaskOp, old: u64, set: u64) -> (m: u64)
    ensures
        m == new_mask_spec(op, old, set),
        op == MaskOp::Unblock ==> m & set == 0 && m & !set == old & !set,
        op == MaskOp::Block ==> m & !set == old & !set && (set & !KILL_STOP) & !m == 0 && m & KILL_STOP
            == old & KILL_STOP,
        op == MaskOp::SetMask ==> m & !KILL_STOP == set & !KILL_STOP && m & KILL_STOP == 0,
{
    proof {
        lemma_mask_ops(old, set);
    }
    match op {
        MaskOp::Block => old | (set & !KILL_STOP),
        MaskOp::Unblock => old & !set,
        MaskOp::SetMask => set & !KILL_STOP,
    }
}

/// The thread's mask after `rt_sigprocmask` with operation `op`, from
/// `current` and the set read from user space, if one was given.
pub fn do_rt_sigprocmask(op: MaskOp, set: Option<u64>, current: u64) -> (m: u64)
    ensures
        m == match set {
            Some(s) => new_mask_spec(op, current, s),
            None => current,
        },
{
    match set {
        Some(s) => new_sig_mask(op, current, s),
        None => current,
    }
}

/// `rt_sigprocmask(how, set, oldset, sigsetsize)` on a thread whose mask
/// is `current`, with `set` the mask read from user space if one was
/// given: `EINVAL` for an unknown `how` or a set size under 8 bytes;
/// otherwise the new mask (unchanged when no set was given). The old mask
/// is `current`.
pub fn sys_rt_sigprocmask(how: u32, set: Option<u64>, sigset_size: usize, current: u64) -> (r: Result<u64, Errno>)
    ensures
        (how > 2 || sigset_size < 8) ==> r == Err::<u64, Errno>(Errno::EINVAL),
        how <= 2 && sigset_size >= 8 ==> r == Ok::<u64, Errno>(
            match set {
                Some(s) => new_mask_spec(
                    if how == 0 {
                        MaskOp::Block
                    } else if how == 1 {
                        MaskOp::Unblock
                    } else {
                        MaskOp::SetMask
                    },
                    current,
                    s,
                ),
                None => current,
            },
        ),
{
    let op = match MaskOp::try_from(how) {
        Ok(op) => op,
        Err(e) => {
            return Err(e);
        },
    };
    if sigset_size < 8 {
        return Err(Errno::EINVAL);
    }
    Ok(do_rt_sigprocmask(op, set, current))
}

/// No operation blocks `SIGKILL` or `SIGSTOP` that was not blocked before.
pub proof fn lemma_kill_stop_never_newly_blocked(op: MaskOp, old: u64, set: u64)
    ensures
        new_mask_spec(op, old, set) & KILL_STOP & !(old & KILL_STOP) == 0,
{
    match op {
        MaskOp::Block => {
            assert((old | (set & !0x4_0100u64)) & 0x4_0100u64 & !(old & 0x4_0100u64) == 0)
                by (bit_vector);
        },
        MaskOp::Unblock => {
            assert((old & !set) & 0x4_0100u64 & !(old & 0x4_0100u64) == 0) by (bit_vector);
        },
        MaskOp::SetMask => {
            assert((set & !0x4_0100u64) & 0x4_0100u64 & !(old & 0x4_0100u64) == 0)
                by (bit_vector);
        },
    }
}

/// Setting the mask leaves `SIGKILL` and `SIGSTOP` unblocked.
pub proof fn lemma_set_mask_clears_kill_stop(old: u64, set: u64)
    ensures
        new_mask_spec(MaskOp::SetMask, old, set) & KILL_STOP == 0,
{
    assert((set & !0x4_0100u64) & 0x4_0100u64 == 0) by (bit_vector);
}

/// Unblocking only removes signals, and blocking only adds them.
pub proof fn lemma_unblock_block_monotone(old: u64, set: u64)
    ensures
        new_mask_spec(MaskOp::Unblock, old, set) & !old == 0,
        old & !new_mask_spec(MaskOp::Block, old, set) == 0,
{
    assert((old & !set) & !old == 0) by (bit_vector);
    assert(old & !(old | (set & !0x4_0100u64)) == 0) by (bit_vector);
}

/// `setsockopt` on aarch64: every option is accepted without effect.
pub fn sys_setsockopt(sockfd: i32, level: i32, optname: i32, optval: usize, optlen: u32) -> (r: Result<i32, Errno>)
    ensures
        r == Ok::<i32, Errno>(0),
{
    Ok(0)
}

} // verus!
