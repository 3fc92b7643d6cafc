//! The console component: the table of console devices by name (kept in
//! name order), where printed text goes, and the UART console's line
//! endings.

use vstd::prelude::*;

verus! {

/// `a` sorts strictly before `b`, byte by byte, a prefix first.
pub open spec fn lex_lt(a: Seq<u8>, b: Seq<u8>) -> bool
    decreases a.len(),
{
    if b.len() == 0 {
        false
    } else if a.len() == 0 {
        true
    } else if a[0] != b[0] {
        a[0] < b[0]
    } else {
        lex_lt(a.subrange(1, a.len() as int), b.subrange(1, b.len() as int))
    }
}

/// Names in strictly increasing order.
pub open spec fn names_sorted(s: Seq<(Seq<u8>, u64)>) -> bool {
    forall|i: int, j: int| 0 <= i < j < s.len() ==> lex_lt(s[i].0, s[j].0)
}

proof fn lemma_lex_trans(a: Seq<u8>, b: Seq<u8>, c: Seq<u8>)
    requires
        lex_lt(a, b),
        lex_lt(b, c),
    ensures
        lex_lt(a, c),
    decreases a.len(),
{
    if a.len() > 0 && b.len() > 0 && c.len() > 0 && a[0] == b[0] && b[0] == c[0] {
        lemma_lex_trans(
            a.subrange(1, a.len() as int),
            b.subrange(1, b.len() as int),
            c.subrange(1, c.len() as int),
        );
    }
}

proof fn lemma_lex_total(a: Seq<u8>, b: Seq<u8>)
    ensures
        a == b || lex_lt(a, b) || lex_lt(b, a),
    decreases a.len(),
{
    if a.len() > 0 && b.len() > 0 && a[0] == b[0] {
        lemma_lex_total(a.subrange(1, a.len() as int), b.subrange(1, b.len() as int));
        if a.subrange(1, a.len() as int) == b.subrange(1, b.len() as int) {
            assert(a =~= seq![a[0]] + a.subrange(1, a.len() as int));
            assert(b =~= seq![b[0]] + b.subrange(1, b.len() as int));
        }
    } else if a.len() == 0 && b.len() == 0 {
        assert(a =~= b);
    }
}

proof fn lemma_lex_irrefl(a: Seq<u8>)
    ensures
        !lex_lt(a, a),
    decreases a.len(),
{
    if a.len() > 0 {
        lemma_lex_irrefl(a.subrange(1, a.len() as int));
    }
}

/// Compares two names: -1, 0 or 1.
fn compare_names(a: &Vec<u8>, b: &Vec<u8>) -> (c: i8)
    ensures
        c == 0 <==> a@ == b@,
        c < 0 <==> lex_lt(a@, b@),
        c > 0 <==> lex_lt(b@, a@),
{
    let mut i: usize = 0;
    let n = a.len();
    let m = b.len();
    proof {
        assert(a@.subrange(0, n as int) =~= a@);
        assert(b@.subrange(0, m as int) =~= b@);
        assert(a@.subrange(0, 0) =~= b@.subrange(0, 0));
    }
    while i < n && i < m && a[i] == b[i]
        invariant
            0 <= i <= n,
            i <= m,
            n == a@.len(),
            m == b@.len(),
            a@.subrange(0, i as int) == b@.subrange(0, i as int),
            lex_lt(a@, b@) == lex_lt(a@.subrange(i as int, n as int), b@.subrange(i as int, m as int)),
            lex_lt(b@, a@) == lex_lt(b@.subrange(i as int, m as int), a@.subrange(i as int, n as int)),
        decreases n - i,
    {
        proof {
            let sa = a@.subrange(i as int, n as int);
            let sb = b@.subrange(i as int, m as int);
            assert(sa.subrange(1, sa.len() as int) =~= a@.subrange(i + 1, n as int));
            assert(sb.subrange(1, sb.len() as int) =~= b@.subrange(i + 1, m as int));
            assert(a@.subrange(0, i + 1) =~= a@.subrange(0, i as int).push(a@[i as int]));
            assert(b@.subrange(0, i + 1) =~= b@.subrange(0, i as int).push(b@[i as int]));
        }
        i = i + 1;
    }
    proof {
        lemma_lex_irrefl(a@);
        lemma_lex_total(a@, b@);
    }
    if i < n && i < m {
        if a[i] < b[i] {
            -1
        } else {
            proof {
                assert(a@ != b@) by {
                    if a@ == b@ {
                        assert(a@[i as int] == b@[i as int]);
                    }
                }
            }
            1
        }
    } else if i < m {
        proof {
            assert(a@ != b@) by {
                if a@ == b@ {
                    assert(a@.len() == b@.len());
                }
            }
        }
        -1
    } else if i < n {
        proof {
            assert(a@ != b@) by {
                if a@ == b@ {
                    assert(a@.len() == b@.len());
                }
            }
        }
        1
    } else {
        proof {
            assert(a@ =~= a@.subrange(0, i as int));
            assert(b@ =~= b@.subrange(0, i as int));
        }
        0
    }
}

/// The console devices by name, kept in name order with no name twice; a
/// device is known by its handle.
pub struct Component {
    console_device_table: Vec<(Vec<u8>, u64)>,
}

/// The names and handles of a table.
pub open spec fn table_view(t: Seq<(Vec<u8>, u64)>) -> Seq<(Seq<u8>, u64)> {
    Seq::new(t.len(), |i: int| (t[i].0@, t[i].1))
}

impl Component {
    pub closed spec fn table(&self) -> Seq<(Seq<u8>, u64)> {
        table_view(self.console_device_table@)
    }

    /// The table is in strict name order.
    #[verifier::type_invariant]
    closed spec fn sorted_by_name(&self) -> bool {
        names_sorted(self.table())
    }
}

impl View for Component {
    type V = Seq<(Seq<u8>, u64)>;

    open spec fn view(&self) -> Seq<(Seq<u8>, u64)> {
        self.table()
    }
}

/// The table as a map from names to devices.
pub open spec fn table_map(t: Seq<(Seq<u8>, u64)>) -> Map<Seq<u8>, u64> {
    Map::new(
        |k: Seq<u8>| exists|i: int| 0 <= i < t.len() && t[i].0 == k,
        |k: Seq<u8>| t[choose|i: int| 0 <= i < t.len() && t[i].0 == k].1,
    )
}

impl Component {
    /// An empty table.
    pub fn init() -> (c: Component)
        ensures
            c@.len() == 0,
    {
        Component { console_device_table: Vec::new() }
    }

    /// Registers `device` under `name`, replacing a device of that name;
    /// the table stays in name order.
    pub fn register_device(&mut self, name: Vec<u8>, device: u64)
        ensures
            names_sorted(final(self)@),
            table_map(final(self)@) == table_map(old(self)@).insert(name@, device),
    {
        proof {
            use_type_invariant(&*self);
        }
        let ghost old_t = self@;
        let ghost name_v = name@;
        let mut t: Vec<(Vec<u8>, u64)> = Vec::new();
        std::mem::swap(&mut t, &mut self.console_device_table);
        assert(table_view(t@) == old_t);
        let n = t.len();
        let mut i: usize = 0;
        let mut stop = false;
        while i < n && !stop
            invariant
                0 <= i <= n,
                n == t@.len(),
                table_view(t@) == old_t,
                old_t == old(self)@,
                name@ == name_v,
                names_sorted(old_t),
                forall|k: int| 0 <= k < i ==> lex_lt(old_t[k].0, name_v),
                stop ==> i < n && lex_lt(name_v, old_t[i as int].0),
            decreases n - i + (if stop { 0int } else { 1int }),
        {
            let c = compare_names(&t[i].0, &name);
            if c == 0 {
                t.set(i, (name, device));
                proof {
                    assert(table_view(t@) =~= old_t.update(i as int, (name_v, device)));
                    assert(table_view(t@)[i as int].0 == name_v);
                    assert forall|a: int, b: int| 0 <= a < b < table_view(t@).len() implies lex_lt(table_view(t@)[a].0, table_view(t@)[b].0) by {
                        assert(old_t[a].0 == table_view(t@)[a].0 && old_t[b].0 == table_view(t@)[b].0);
                    }
                    assert(table_map(table_view(t@)) =~= table_map(old_t).insert(name_v, device)) by {
                        assert forall|k: Seq<u8>| #[trigger] table_map(table_view(t@)).contains_key(k) <==> table_map(old_t).insert(name_v, device).contains_key(k) by {
                            if table_map(old_t).contains_key(k) {
                                let j = choose|j: int| 0 <= j < old_t.len() && old_t[j].0 == k;
                                assert(table_view(t@)[j].0 == k);
                            }
                            if k == name_v {
                                assert(table_view(t@)[i as int].0 == k);
                            }
                            if table_map(table_view(t@)).contains_key(k) {
                                let j = choose|j: int| 0 <= j < table_view(t@).len() && table_view(t@)[j].0 == k;
                                assert(old_t[j].0 == k);
                            }
                        }
                        assert forall|k: Seq<u8>| #[trigger] table_map(table_view(t@)).contains_key(k) implies table_map(table_view(t@))[k] == table_map(old_t).insert(name_v, device)[k] by {
                            let j = choose|j: int| 0 <= j < table_view(t@).len() && table_view(t@)[j].0 == k;
                            if k == name_v {
                                unique_index(table_view(t@), j, i as int);
                            } else {
                                let j2 = choose|j2: int| 0 <= j2 < old_t.len() && old_t[j2].0 == k;
                                unique_index(old_t, j2, j);
                            }
                        }
                    }
                    assert(table_map(table_view(t@)) == table_map(old(self)@).insert(name_v, device));
                }
                self.console_device_table = t;
                return;
            }
            if c > 0 {
                stop = true;
            } else {
                i = i + 1;
            }
        }
        t.insert(i, (name, device));
        proof {
            assert(table_view(t@) =~= old_t.insert(i as int, (name_v, device)));
            assert forall|k: int| i <= k < old_t.len() implies lex_lt(name_v, old_t[k].0) by {
                if k > i {
                    lemma_lex_trans(name_v, old_t[i as int].0, old_t[k].0);
                }
            }
            assert forall|a: int, b: int| 0 <= a < b < table_view(t@).len() implies lex_lt(table_view(t@)[a].0, table_view(t@)[b].0) by {
                if a < i && b > i {
                    lemma_lex_trans(table_view(t@)[a].0, name_v, table_view(t@)[b].0);
                }
            }
            assert forall|k: int| 0 <= k < old_t.len() implies old_t[k].0 != name_v by {
                lemma_lex_irrefl(name_v);
            }
            assert(table_map(table_view(t@)) =~= table_map(old_t).insert(name_v, device)) by {
                assert forall|k: Seq<u8>| #[trigger] table_map(table_view(t@)).contains_key(k) <==> table_map(old_t).insert(name_v, device).contains_key(k) by {
                    if table_map(old_t).contains_key(k) {
                        let j = choose|j: int| 0 <= j < old_t.len() && old_t[j].0 == k;
                        if j < i {
                            assert(table_view(t@)[j].0 == k);
                        } else {
                            assert(table_view(t@)[j + 1].0 == k);
                        }
                    }
                    if k == name_v {
                        assert(table_view(t@)[i as int].0 == k);
                    }
                    if table_map(table_view(t@)).contains_key(k) && k != name_v {
                        let j = choose|j: int| 0 <= j < table_view(t@).len() && table_view(t@)[j].0 == k;
                        if j < i {
                            assert(old_t[j].0 == k);
                        } else {
                            assert(old_t[j - 1].0 == k);
                        }
                    }
                }
                assert forall|k: Seq<u8>| #[trigger] table_map(table_view(t@)).contains_key(k) implies table_map(table_view(t@))[k] == table_map(old_t).insert(name_v, device)[k] by {
                    let j = choose|j: int| 0 <= j < table_view(t@).len() && table_view(t@)[j].0 == k;
                    if k == name_v {
                        unique_index(table_view(t@), j, i as int);
                    } else {
                        let j2 = choose|j2: int| 0 <= j2 < old_t.len() && old_t[j2].0 == k;
                        if j2 < i {
                            unique_index(table_view(t@), j, j2);
                        } else {
                            unique_index(table_view(t@), j, j2 + 1);
                        }
                    }
                }
            }
        }
        self.console_device_table = t;
    }

    /// The devices with their names, in name order.
    pub fn all_devices(&self) -> (d: Vec<(Vec<u8>, u64)>)
        ensures
            d@.len() == self@.len(),
            forall|i: int| 0 <= i < d@.len() ==> (#[trigger] d@[i]).0@ == self@[i].0 && d@[i].1 == self@[i].1,
    {
        let mut d: Vec<(Vec<u8>, u64)> = Vec::new();
        let mut i: usize = 0;
        while i < self.console_device_table.len()
            invariant
                0 <= i <= self@.len(),
                d@.len() == i,
                forall|k: int| 0 <= k < i ==> (#[trigger] d@[k]).0@ == self@[k].0 && d@[k].1 == self@[k].1,
            decreases self@.len() - i,
        {
            let name = copy_name(&self.console_device_table[i].0);
            d.push((name, self.console_device_table[i].1));
            i = i + 1;
        }
        d
    }
}

proof fn unique_index(t: Seq<(Seq<u8>, u64)>, a: int, b: int)
    requires
        names_sorted(t),
        0 <= a < t.len(),
        0 <= b < t.len(),
        t[a].0 == t[b].0,
    ensures
        a == b,
{
    if a < b {
        lemma_lex_irrefl(t[a].0);
    } else if b < a {
        lemma_lex_irrefl(t[a].0);
    }
}

fn copy_name(n: &Vec<u8>) -> (v: Vec<u8>)
    ensures
        v@ == n@,
{
    let mut v: Vec<u8> = Vec::new();
    let mut i: usize = 0;
    while i < n.len()
        invariant
            0 <= i <= n@.len(),
            v@ == n@.subrange(0, i as int),
        decreases n@.len() - i,
    {
        v.push(n[i]);
        i = i + 1;
        proof {
            assert(v@ =~= n@.subrange(0, i as int));
        }
    }
    proof {
        assert(n@.subrange(0, n@.len() as int) =~= n@);
    }
    v
}

/// Where printed text goes.
#[derive(Clone, Copy, Debug, PartialEq, Eq, Structural)]
pub enum PrintTarget {
    /// The early boot console.
    Early,
    /// Every registered console device.
    Devices,
}

/// Text goes to the registered devices, or to the early console while
/// the component is not set up or has no device.
pub fn print_target(component_ready: bool, device_count: usize) -> (t: PrintTarget)
    ensures
        t == if component_ready && device_count > 0 { PrintTarget::Devices } else { PrintTarget::Early },
{
    if component_ready && device_count > 0 {
        PrintTarget::Devices
    } else {
        PrintTarget::Early
    }
}

/// The bytes a UART console puts on the line for `buf`: a carriage return
/// before each line feed.
pub open spec fn uart_bytes(buf: Seq<u8>) -> Seq<u8>
    decreases buf.len(),
{
    if buf.len() == 0 {
        Seq::empty()
    } else {
        let rest = uart_bytes(buf.subrange(0, buf.len() - 1));
        let b = buf[buf.len() - 1];
        if b == 0x0a {
            rest + seq![0x0du8, 0x0a]
        } else {
            rest.push(b)
        }
    }
}

/// A console device.
pub trait AnyConsoleDevice {
    /// The bytes that sending `buf` puts on the device.
    fn send(&self, buf: &[u8]) -> Vec<u8>;

    /// Registers a receive callback by its handle.
    fn register_callback(&mut self, callback: u64);
}

/// The UART console.
pub struct UartConsole {
    pub callbacks: Vec<u64>,
}

impl UartConsole {
    pub fn new() -> (c: UartConsole)
        ensures
            c.callbacks@.len() == 0,
    {
        UartConsole { callbacks: Vec::new() }
    }
}

impl AnyConsoleDevice for UartConsole {
    fn send(&self, buf: &[u8]) -> (out: Vec<u8>)
        ensures
            out@ == uart_bytes(buf@),
    {
        let mut out: Vec<u8> = Vec::new();
        let mut i: usize = 0;
        while i < buf.len()
            invariant
                0 <= i <= buf@.len(),
                out@ == uart_bytes(buf@.subrange(0, i as int)),
            decreases buf@.len() - i,
        {
            let b = buf[i];
            if b == 0x0a {
                out.push(0x0d);
            }
            out.push(b);
            proof {
                let s = buf@.subrange(0, i + 1);
                assert(s.subrange(0, s.len() - 1) =~= buf@.subrange(0, i as int));
                if b == 0x0a {
                    assert(out@ =~= uart_bytes(buf@.subrange(0, i as int)) + seq![0x0du8, 0x0a]);
                }
            }
            i = i + 1;
        }
        proof {
            assert(buf@.subrange(0, buf@.len() as int) =~= buf@);
        }
        out
    }

    fn register_callback(&mut self, callback: u64)
        ensures
            final(self).callbacks@ == old(self).callbacks@.push(callback),
    {
        self.callbacks.push(callback);
    }
}

} // verus!
