//! `poll(2)`: the descriptors asked about, which are ready, how long to
//! keep checking; and when a network interface is polled next.

use vstd::prelude::*;

use crate::errno::Errno;

verus! {

pub const POLLIN: u32 = 0x0001;
pub const POLLPRI: u32 = 0x0002;
pub const POLLOUT: u32 = 0x0004;
pub const POLLERR: u32 = 0x0008;
pub const POLLHUP: u32 = 0x0010;
pub const POLLNVAL: u32 = 0x0020;
pub const POLLRDNORM: u32 = 0x0040;
pub const POLLRDBAND: u32 = 0x0080;
pub const POLLWRNORM: u32 = 0x0100;
pub const POLLWRBAND: u32 = 0x0200;
pub const POLLMSG: u32 = 0x0400;
pub const POLLRDHUP: u32 = 0x2000;

/// Every event bit the kernel knows.
pub const ALL_EVENTS: u32 = 0x27FF;

/// A `struct pollfd` as user space lays it out.
#[derive(Clone, Copy, Debug, PartialEq, Eq, Structural)]
pub struct CPollFd {
    pub fd: i32,
    pub events: i16,
    pub revents: i16,
}

/// One descriptor of a poll: the file (none for a negative number), the
/// events asked about and those found.
#[derive(Clone, Copy, Debug, PartialEq, Eq, Structural)]
pub struct PollFd {
    pub fd: Option<i32>,
    pub events: u32,
    pub revents: u32,
}

impl PollFd {
    pub fn new(fd: Option<i32>, events: u32) -> (p: PollFd)
        ensures
            p.fd == fd && p.events == events && p.revents == 0,
    {
        PollFd { fd, events, revents: 0 }
    }

    pub fn fd(&self) -> (fd: Option<i32>)
        ensures
            fd == self.fd,
    {
        self.fd
    }

    pub fn events(&self) -> (e: u32)
        ensures
            e == self.events,
    {
        self.events
    }

    pub fn revents(&self) -> (e: u32)
        ensures
            e == self.revents,
    {
        self.revents
    }

    /// The events of a descriptor whose file is not open: `POLLNVAL` for a
    /// real descriptor, nothing for an ignored one.
    pub fn revents_for_missing_file(&self) -> (e: u32)
        ensures
            e == if self.fd is Some { POLLNVAL } else { 0 },
    {
        if self.fd.is_some() {
            POLLNVAL
        } else {
            0
        }
    }

    /// What [`PollFd::from`] makes of a user-space record.
    pub open spec fn from_spec(raw: CPollFd) -> PollFd {
        PollFd {
            fd: if raw.fd >= 0 { Some(raw.fd) } else { None },
            events: (raw.events as u32) & ALL_EVENTS,
            revents: (raw.revents as u32) & ALL_EVENTS,
        }
    }

    /// The descriptor from its user-space form: negative numbers are
    /// ignored, unknown event bits dropped (after sign extension, as the
    /// kernel widens the 16-bit fields).
    pub fn from(raw: CPollFd) -> (p: PollFd)
        ensures
            p == PollFd::from_spec(raw),
            raw.fd >= 0 ==> p.fd == Some(raw.fd),
            raw.fd < 0 ==> p.fd is None,
            p.events & !ALL_EVENTS == 0,
            known_events(raw.events) ==> p.events == raw.events as u32,
            p.revents & !ALL_EVENTS == 0,
            known_events(raw.revents) ==> p.revents == raw.revents as u32,
    {
        proof {
            lemma_from_record(raw);
        }
        let fd = if raw.fd >= 0 {
            Some(raw.fd)
        } else {
            None
        };
        PollFd { fd, events: (raw.events as u32) & ALL_EVENTS, revents: (raw.revents as u32) & ALL_EVENTS }
    }
}

/// The descriptors of a `poll` call from their user-space records, each
/// with its `revents` cleared first: user space may leave anything there.
pub fn poll_fds_from_raw(raw: &[CPollFd]) -> (fds: Vec<PollFd>)
    ensures
        fds@.len() == raw@.len(),
        forall|i: int|
            0 <= i < raw@.len() ==> #[trigger] fds@[i] == (PollFd {
                revents: 0,
                ..PollFd::from_spec(raw@[i])
            }),
{
    let mut fds: Vec<PollFd> = Vec::new();
    let mut i: usize = 0;
    while i < raw.len()
        invariant
            i <= raw@.len(),
            fds@.len() == i,
            forall|k: int|
                0 <= k < i ==> #[trigger] fds@[k] == (PollFd { revents: 0, ..PollFd::from_spec(raw@[k]) }),
        decreases raw@.len() - i,
    {
        let mut p = PollFd::from(raw[i]);
        p.revents = 0;
        fds.push(p);
        i = i + 1;
    }
    fds
}

/// A user-space event field that asks only for events the kernel knows.
pub open spec fn known_events(e: i16) -> bool {
    e >= 0 && (e as u32) & !ALL_EVENTS == 0
}

/// How a user-space record becomes a descriptor: every non-negative number
/// (0, standard input, among them) is a descriptor to poll and only negative
/// ones are ignored; the event fields keep no bit the kernel does not know,
/// and fields that ask only for known events are kept as they are.
pub proof fn lemma_from_record(raw: CPollFd)
    ensures
        raw.fd >= 0 ==> PollFd::from_spec(raw).fd == Some(raw.fd),
        raw.fd < 0 ==> PollFd::from_spec(raw).fd is None,
        PollFd::from_spec(raw).events & !ALL_EVENTS == 0,
        known_events(raw.events) ==> PollFd::from_spec(raw).events == raw.events as u32,
        PollFd::from_spec(raw).revents & !ALL_EVENTS == 0,
        known_events(raw.revents) ==> PollFd::from_spec(raw).revents == raw.revents as u32,
{
    let p = PollFd::from_spec(raw);
    let e = raw.events as u32;
    let r = raw.revents as u32;
    assert((e & 0x27FFu32) & !0x27FFu32 == 0 && (e & !0x27FFu32 == 0 ==> e & 0x27FFu32 == e)) by (bit_vector);
    assert((r & 0x27FFu32) & !0x27FFu32 == 0 && (r & !0x27FFu32 == 0 ==> r & 0x27FFu32 == r)) by (bit_vector);
}

/// How many of `events[start..]` are not empty.
pub open spec fn ready_count(events: Seq<u32>, start: int) -> nat
    decreases events.len() - start,
{
    if start < 0 || start >= events.len() {
        0
    } else {
        (if events[start] != 0 { 1nat } else { 0nat }) + ready_count(events, start + 1)
    }
}

/// The number of ready descriptors from `start` on is the number of
/// non-empty event sets found there.
pub proof fn lemma_ready_count_counts(events: Seq<u32>, start: int)
    requires
        0 <= start <= events.len(),
    ensures
        ready_count(events, start) == events.subrange(start, events.len() as int).filter(|e: u32| e != 0).len(),
    decreases events.len() - start,
{
    let pred = |e: u32| e != 0;
    let sub = events.subrange(start, events.len() as int);
    reveal_with_fuel(Seq::filter, 2);
    if start == events.len() {
        assert(sub =~= Seq::<u32>::empty());
    } else {
        lemma_ready_count_counts(events, start + 1);
        let head = seq![events[start]];
        let rest = events.subrange(start + 1, events.len() as int);
        assert(sub =~= head + rest);
        Seq::filter_distributes_over_add(head, rest, pred);
        assert(head.drop_last() =~= Seq::<u32>::empty());
        assert(head.last() == events[start]);
    }
}

/// Counts the ready descriptors from `start` on, given what polling each
/// descriptor's file found, and records the events found.
pub fn count_events_from(fds: &mut Vec<PollFd>, events: &[u32], start: usize) -> (n: usize)
    requires
        old(fds)@.len() == events@.len(),
    ensures
        n == ready_count(events@, start as int),
        start <= events@.len() ==> n <= events@.len() - start,
        final(fds)@.len() == old(fds)@.len(),
        forall|i: int|
            0 <= i < events@.len() ==> #[trigger] final(fds)@[i] == if i >= start && events@[i] != 0 {
                PollFd { revents: events@[i], ..old(fds)@[i] }
            } else {
                old(fds)@[i]
            },
{
    let mut counter: usize = 0;
    let mut i: usize = start;
    if i > events.len() {
        return 0;
    }
    while i < events.len()
        invariant
            start <= i <= events@.len(),
            fds@.len() == events@.len(),
            counter + ready_count(events@, i as int) == ready_count(events@, start as int),
            counter <= i - start,
            forall|k: int|
                0 <= k < events@.len() ==> #[trigger] fds@[k] == if start <= k < i && events@[k] != 0 {
                    PollFd { revents: events@[k], ..old(fds)@[k] }
                } else {
                    old(fds)@[k]
                },
        decreases events@.len() - i,
    {
        if events[i] != 0 {
            let mut p = fds[i];
            p.revents = events[i];
            fds.set(i, p);
            counter = counter + 1;
        }
        i = i + 1;
    }
    counter
}

/// The outcome of registering the descriptors with a poller.
#[derive(Clone, Copy, Debug, PartialEq, Eq, Structural)]
pub enum PollerResult {
    /// Nothing ready: wait.
    Registered,
    /// This many descriptors are ready.
    FoundEvents(usize),
}

/// The first ready descriptor at or after `i`, if any.
pub open spec fn first_ready(events: Seq<u32>, i: int) -> Option<int>
    decreases events.len() - i,
{
    if i < 0 || i >= events.len() {
        None
    } else if events[i] != 0 {
        Some(i)
    } else {
        first_ready(events, i + 1)
    }
}

/// The first ready descriptor at or after `i` is one whose events are not
/// empty, with none ready between `i` and it; there is none exactly when
/// every descriptor from `i` on has empty events.
pub proof fn lemma_first_ready(events: Seq<u32>, i: int)
    requires
        0 <= i,
    ensures
        first_ready(events, i) matches Some(j) ==> i <= j < events.len() && events[j] != 0 && forall|k: int|
            i <= k < j ==> events[k] == 0,
        first_ready(events, i) is None <==> forall|k: int| i <= k < events.len() ==> events[k] == 0,
    decreases events.len() - i,
{
    if i < events.len() {
        lemma_first_ready(events, i + 1);
    }
}

/// Registering: at the first ready descriptor, all ready ones are counted
/// and each records the events found; with none ready, the poller waits
/// and no descriptor changes.
pub fn register_poller(fds: &mut Vec<PollFd>, events: &[u32]) -> (r: PollerResult)
    requires
        old(fds)@.len() == events@.len(),
    ensures
        first_ready(events@, 0) is None ==> r == PollerResult::Registered,
        first_ready(events@, 0) is Some ==> r == PollerResult::FoundEvents(ready_count(events@, 0) as usize),
        final(fds)@.len() == old(fds)@.len(),
        forall|k: int|
            0 <= k < events@.len() ==> #[trigger] final(fds)@[k] == if events@[k] != 0 {
                PollFd { revents: events@[k], ..old(fds)@[k] }
            } else {
                old(fds)@[k]
            },
{
    let mut i: usize = 0;
    while i < events.len()
        invariant
            0 <= i <= events@.len(),
            fds@.len() == events@.len(),
            old(fds)@.len() == events@.len(),
            fds@ == old(fds)@,
            forall|k: int| 0 <= k < i ==> #[trigger] events@[k] == 0,
            first_ready(events@, 0) == first_ready(events@, i as int),
            ready_count(events@, 0) == ready_count(events@, i as int),
        decreases events@.len() - i,
    {
        if events[i] != 0 {
            let mut p = fds[i];
            p.revents = events[i];
            fds.set(i, p);
            let rest = count_events_from(fds, events, i + 1);
            assert(ready_count(events@, i as int) == 1 + ready_count(events@, i + 1));
            return PollerResult::FoundEvents(1 + rest);
        }
        i = i + 1;
    }
    PollerResult::Registered
}

/// `poll`'s timeout: milliseconds when non-negative, none (wait forever)
/// when negative.
pub fn sys_poll_timeout(timeout: i32) -> (t: Option<u64>)
    ensures
        t == if timeout >= 0 { Some(timeout as u64) } else { None::<u64> },
{
    if timeout >= 0 {
        Some(timeout as u64)
    } else {
        None
    }
}

/// More descriptors than the open-file limit is `EINVAL`.
pub fn check_nfds(nfds: u32, rlimit_nofile: u64) -> (r: Result<(), Errno>)
    ensures
        r == if nfds > rlimit_nofile { Err::<(), Errno>(Errno::EINVAL) } else { Ok::<(), Errno>(()) },
{
    if nfds as u64 > rlimit_nofile {
        Err(Errno::EINVAL)
    } else {
        Ok(())
    }
}

/// How many times the descriptors are checked before a timeout: forever
/// without a timeout, once for zero, else about a hundred times per
/// millisecond.
pub fn max_poll_iters(timeout_ms: Option<u64>) -> (n: usize)
    ensures
        n == match timeout_ms {
            None => usize::MAX,
            Some(ms) => if ms == 0 {
                1
            } else {
                (ms * 100) as usize
            },
        },
{
    match timeout_ms {
        None => usize::MAX,
        Some(ms) => {
            if ms == 0 {
                1
            } else {
                ((ms as u128) * 100) as usize
            }
        },
    }
}

/// What the busy-polling wait does after check number `iter` (from 0) of
/// at most `max_iters` found `ready` descriptors ready.
#[derive(Clone, Copy, Debug, PartialEq, Eq, Structural)]
pub enum PollStep {
    /// Return this many ready descriptors.
    Ready(usize),
    /// Yield and check again.
    Again,
    /// The timeout expired: return 0.
    TimedOut,
}

/// Ready descriptors end the wait; otherwise it goes on while checks are
/// left.
pub fn poll_loop_step(iter: usize, max_iters: usize, ready: usize) -> (s: PollStep)
    ensures
        ready > 0 ==> s == PollStep::Ready(ready),
        ready == 0 && iter + 1 < max_iters ==> s == PollStep::Again,
        ready == 0 && iter + 1 >= max_iters ==> s == PollStep::TimedOut,
{
    if ready > 0 {
        PollStep::Ready(ready)
    } else if iter < max_iters && max_iters - iter > 1 {
        PollStep::Again
    } else {
        PollStep::TimedOut
    }
}

/// What a network interface's poll thread does next.
#[derive(Clone, Copy, Debug, PartialEq, Eq, Structural)]
pub enum IfacePollAction {
    /// Poll now.
    PollNow,
    /// Wait this many milliseconds (or until the poll time moves earlier).
    Wait(u64),
}

/// Poll when the scheduled time has come, else wait for the rest.
pub fn next_iface_poll(now_ms: u64, next_poll_at_ms: u64) -> (a: IfacePollAction)
    ensures
        now_ms >= next_poll_at_ms ==> a == IfacePollAction::PollNow,
        now_ms < next_poll_at_ms ==> a == IfacePollAction::Wait((next_poll_at_ms - now_ms) as u64),
{
    if now_ms >= next_poll_at_ms {
        IfacePollAction::PollNow
    } else {
        IfacePollAction::Wait(next_poll_at_ms - now_ms)
    }
}

} // verus!
