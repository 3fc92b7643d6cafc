//! The component system's bookkeeping: decoding the paths that cargo
//! metadata percent-encodes, finding a component's base directory from the
//! source path of its init function, matching it to the known components,
//! and ordering the matched components by priority. Calling the init
//! functions is the caller's.

use vstd::prelude::*;

verus! {

/// The initialization stages of the component system.
#[derive(Clone, Copy, Debug, PartialEq, Eq, Structural)]
pub enum InitStage {
    Bootstrap,
    Kthread,
    Process,
}

/// A known component: its name, its base path and its priority (lower
/// first).
#[derive(Debug)]
pub struct ComponentInfo {
    pub name: Vec<u8>,
    pub path: Vec<u8>,
    pub priority: u32,
}

impl ComponentInfo {
    pub fn new(name: &[u8], path: &[u8], priority: u32) -> (c: ComponentInfo)
        ensures
            c.name@ == name@ && c.path@ == path@ && c.priority == priority,
    {
        ComponentInfo { name: slice_to_vec(name), path: slice_to_vec(path), priority }
    }
}

fn slice_to_vec(s: &[u8]) -> (v: Vec<u8>)
    ensures
        v@ == s@,
{
    let mut v: Vec<u8> = Vec::new();
    let mut i: usize = 0;
    while i < s.len()
        invariant
            0 <= i <= s@.len(),
            v@ == s@.subrange(0, i as int),
        decreases s@.len() - i,
    {
        v.push(s[i]);
        i = i + 1;
        proof {
            assert(v@ =~= s@.subrange(0, i as int));
        }
    }
    proof {
        assert(s@.subrange(0, s@.len() as int) =~= s@);
    }
    v
}

/// The value of a hexadecimal digit.
pub open spec fn hex_val(b: u8) -> Option<u8> {
    if 0x30 <= b <= 0x39 {
        Some((b - 0x30) as u8)
    } else if 0x61 <= b <= 0x66 {
        Some((b - 0x61 + 10) as u8)
    } else if 0x41 <= b <= 0x46 {
        Some((b - 0x41 + 10) as u8)
    } else {
        None
    }
}

fn hex_val_exec(b: u8) -> (r: Option<u8>)
    ensures
        r == hex_val(b),
{
    if 0x30 <= b && b <= 0x39 {
        Some(b - 0x30)
    } else if 0x61 <= b && b <= 0x66 {
        Some(b - 0x61 + 10)
    } else if 0x41 <= b && b <= 0x46 {
        Some(b - 0x41 + 10)
    } else {
        None
    }
}

/// The bytes of `s` from `i` on with each `%` followed by two hexadecimal
/// digits replaced by the byte they spell; any other byte is kept.
pub open spec fn percent_decode_from(s: Seq<u8>, i: int) -> Seq<u8>
    decreases s.len() - i,
{
    if i < 0 || i >= s.len() {
        Seq::empty()
    } else if s[i] == 0x25 && i + 2 < s.len() && hex_val(s[i + 1]) is Some && hex_val(s[i + 2]) is Some {
        seq![((hex_val(s[i + 1])->0 as u8) * 16 + hex_val(s[i + 2])->0) as u8] + percent_decode_from(s, i + 3)
    } else {
        seq![s[i]] + percent_decode_from(s, i + 1)
    }
}

/// What `String::from_utf8_lossy` makes of `bytes`, as UTF-8 bytes.
pub uninterp spec fn utf8_lossy(bytes: Seq<u8>) -> Seq<u8>;

/// Whether every byte is ASCII.
pub open spec fn all_ascii(bytes: Seq<u8>) -> bool {
    forall|k: int| 0 <= k < bytes.len() ==> #[trigger] bytes[k] < 0x80
}

/// `String::from_utf8_lossy(bytes)`, as the bytes of the resulting string.
/// Its result is named by `utf8_lossy`: the documentation describes it as
/// the input with each invalid sequence replaced by U+FFFD, and a valid
/// input (an all-ASCII one among them) comes back unchanged; only that last
/// fact is stated.
#[verifier::external_body]
fn utf8_lossy_bytes(bytes: &[u8]) -> (out: Vec<u8>)
    ensures
        out@ == utf8_lossy(bytes@),
        all_ascii(bytes@) ==> out@ == bytes@,
{
    String::from_utf8_lossy(bytes).into_owned().into_bytes()
}

/// Decodes a path as components are keyed by: its `%XX` sequences decoded,
/// then the bytes read as UTF-8, lossily.
pub fn percent_decode_path(path: &[u8]) -> (out: Vec<u8>)
    ensures
        out@ == utf8_lossy(percent_decode_from(path@, 0)),
{
    let decoded = percent_decode_bytes(path);
    utf8_lossy_bytes(decoded.as_slice())
}

/// Decodes the `%XX` sequences of a path, byte for byte.
pub fn percent_decode_bytes(path: &[u8]) -> (out: Vec<u8>)
    ensures
        out@ == percent_decode_from(path@, 0),
{
    let mut out: Vec<u8> = Vec::new();
    let mut i: usize = 0;
    let n = path.len();
    while i < n
        invariant
            0 <= i <= n,
            n == path@.len(),
            out@ + percent_decode_from(path@, i as int) == percent_decode_from(path@, 0),
        decreases n - i,
    {
        if path[i] == 0x25 && n - i > 2 {
            let h = hex_val_exec(path[i + 1]);
            let l = hex_val_exec(path[i + 2]);
            if h.is_some() && l.is_some() {
                let hv = h.unwrap();
                let lv = l.unwrap();
                assert(hv < 16 && lv < 16);
                let byte = (hv << 4) | lv;
                assert((hv << 4) | lv == hv * 16 + lv) by (bit_vector)
                    requires
                        hv < 16,
                        lv < 16,
                ;
                out.push(byte);
                proof {
                    assert(out@ + percent_decode_from(path@, i + 3) =~= percent_decode_from(path@, 0));
                }
                i = i + 3;
                continue;
            }
        }
        out.push(path[i]);
        proof {
            assert(out@ + percent_decode_from(path@, i + 1) =~= percent_decode_from(path@, 0));
        }
        i = i + 1;
    }
    proof {
        assert(out@ =~= out@ + percent_decode_from(path@, n as int));
    }
    out
}

/// A path without `%` decodes to itself.
pub proof fn lemma_percent_decode_plain(s: Seq<u8>, i: int)
    requires
        0 <= i <= s.len(),
        forall|k: int| 0 <= k < s.len() ==> s[k] != 0x25,
    ensures
        percent_decode_from(s, i) == s.subrange(i, s.len() as int),
    decreases s.len() - i,
{
    if i < s.len() {
        lemma_percent_decode_plain(s, i + 1);
        assert(seq![s[i]] + s.subrange(i + 1, s.len() as int) =~= s.subrange(i, s.len() as int));
    } else {
        assert(s.subrange(i, s.len() as int) =~= Seq::<u8>::empty());
    }
}

/// `pat` occurs in `s` at `i`.
pub open spec fn occurs_at(s: Seq<u8>, pat: Seq<u8>, i: int) -> bool {
    0 <= i && i + pat.len() <= s.len() && s.subrange(i, i + pat.len()) == pat
}

/// The first occurrence of `pat` in `s` at or after `i`.
pub open spec fn find_from(s: Seq<u8>, pat: Seq<u8>, i: int) -> Option<int>
    decreases s.len() - i,
{
    if i < 0 || i >= s.len() || i + pat.len() > s.len() {
        None
    } else if occurs_at(s, pat, i) {
        Some(i)
    } else {
        find_from(s, pat, i + 1)
    }
}

/// `s` without its trailing slashes.
pub open spec fn trim_trailing_slashes(s: Seq<u8>) -> Seq<u8>
    decreases s.len(),
{
    if s.len() > 0 && s[s.len() - 1] == 0x2f {
        trim_trailing_slashes(s.subrange(0, s.len() - 1))
    } else {
        s
    }
}

/// Backslashes made slashes.
pub open spec fn slashes(s: Seq<u8>) -> Seq<u8> {
    Seq::new(s.len(), |i: int| if s[i] == 0x5c { 0x2fu8 } else { s[i] })
}

pub open spec fn src_dir() -> Seq<u8> {
    seq![0x73u8, 0x72, 0x63, 0x2f]
}

pub open spec fn tests_dir() -> Seq<u8> {
    seq![0x74u8, 0x65, 0x73, 0x74, 0x73, 0x2f]
}

/// The base directory of a component from the source path of its init
/// function: the path (with slashes for backslashes) up to its first
/// `src/`, else up to its first `tests/`, without trailing slashes; none
/// for a path with neither.
pub open spec fn base_path_spec(path: Seq<u8>) -> Option<Seq<u8>> {
    let p = slashes(path);
    match find_from(p, src_dir(), 0) {
        Some(i) => Some(trim_trailing_slashes(p.subrange(0, i))),
        None => match find_from(p, tests_dir(), 0) {
            Some(i) => Some(trim_trailing_slashes(p.subrange(0, i))),
            None => None,
        },
    }
}

fn matches_at(s: &Vec<u8>, pat: &[u8], i: usize) -> (m: bool)
    requires
        i + pat@.len() <= s@.len(),
    ensures
        m == occurs_at(s@, pat@, i as int),
{
    let _n = s.len();
    let mut k: usize = 0;
    while k < pat.len()
        invariant
            0 <= k <= pat@.len(),
            i + pat@.len() <= s@.len(),
            s@.len() <= usize::MAX,
            forall|j: int| 0 <= j < k ==> s@[i + j] == pat@[j],
        decreases pat@.len() - k,
    {
        if s[i + k] != pat[k] {
            proof {
                assert(s@.subrange(i as int, i + pat@.len())[k as int] != pat@[k as int]);
            }
            return false;
        }
        k = k + 1;
    }
    proof {
        assert(s@.subrange(i as int, i + pat@.len()) =~= pat@);
    }
    true
}

fn find_first(s: &Vec<u8>, pat: &[u8]) -> (r: Option<usize>)
    requires
        pat@.len() > 0,
    ensures
        match r {
            Some(i) => find_from(s@, pat@, 0) == Some(i as int),
            None => find_from(s@, pat@, 0) is None,
        },
{
    let n = s.len();
    let m = pat.len();
    if m > n {
        return None;
    }
    let mut i: usize = 0;
    while i <= n - m
        invariant
            n == s@.len(),
            m == pat@.len(),
            0 < m <= n,
            0 <= i <= n - m + 1,
            find_from(s@, pat@, 0) == find_from(s@, pat@, i as int),
        decreases n - m + 1 - i,
    {
        if matches_at(s, pat, i) {
            return Some(i);
        }
        i = i + 1;
    }
    None
}

fn trim_slashes_to(s: &Vec<u8>, end: usize) -> (v: Vec<u8>)
    requires
        end <= s@.len(),
    ensures
        v@ == trim_trailing_slashes(s@.subrange(0, end as int)),
{
    let mut e = end;
    while e > 0 && s[e - 1] == 0x2f
        invariant
            0 <= e <= end,
            end <= s@.len(),
            trim_trailing_slashes(s@.subrange(0, end as int)) == trim_trailing_slashes(s@.subrange(0, e as int)),
        decreases e,
    {
        proof {
            assert(s@.subrange(0, e as int).subrange(0, e - 1) =~= s@.subrange(0, e - 1));
        }
        e = e - 1;
    }
    let mut v: Vec<u8> = Vec::new();
    let mut i: usize = 0;
    while i < e
        invariant
            0 <= i <= e,
            e <= s@.len(),
            v@ == s@.subrange(0, i as int),
        decreases e - i,
    {
        v.push(s[i]);
        i = i + 1;
        proof {
            assert(v@ =~= s@.subrange(0, i as int));
        }
    }
    v
}

/// The base directory of the component whose init function is in `path`.
pub fn component_base_path(path: &[u8]) -> (r: Option<Vec<u8>>)
    ensures
        match r {
            Some(v) => base_path_spec(path@) == Some(v@),
            None => base_path_spec(path@) is None,
        },
{
    let mut p: Vec<u8> = Vec::new();
    let mut i: usize = 0;
    while i < path.len()
        invariant
            0 <= i <= path@.len(),
            p@ == slashes(path@).subrange(0, i as int),
        decreases path@.len() - i,
    {
        let c = if path[i] == 0x5c {
            0x2f
        } else {
            path[i]
        };
        p.push(c);
        i = i + 1;
        proof {
            assert(p@ =~= slashes(path@).subrange(0, i as int));
        }
    }
    proof {
        assert(p@ =~= slashes(path@));
    }
    let src: Vec<u8> = vec![0x73, 0x72, 0x63, 0x2f];
    let tests: Vec<u8> = vec![0x74, 0x65, 0x73, 0x74, 0x73, 0x2f];
    assert(src@ =~= src_dir());
    assert(tests@ =~= tests_dir());
    match find_first(&p, src.as_slice()) {
        Some(idx) => {
            proof {
                vstd_find_bound(p@, src_dir(), 0);
            }
            Some(trim_slashes_to(&p, idx))
        },
        None => match find_first(&p, tests.as_slice()) {
            Some(idx) => {
                proof {
                    vstd_find_bound(p@, tests_dir(), 0);
                }
                Some(trim_slashes_to(&p, idx))
            },
            None => None,
        },
    }
}

proof fn vstd_find_bound(s: Seq<u8>, pat: Seq<u8>, i: int)
    ensures
        find_from(s, pat, i) matches Some(k) ==> i <= k && k + pat.len() <= s.len(),
    decreases s.len() - i,
{
    if !(i < 0 || i >= s.len() || i + pat.len() > s.len()) && !occurs_at(s, pat, i) {
        vstd_find_bound(s, pat, i + 1);
    }
}

/// `key` is a proper path suffix of `path`: a shorter tail preceded by a
/// slash.
pub open spec fn is_path_suffix(path: Seq<u8>, key: Seq<u8>) -> bool {
    &&& path.len() > key.len()
    &&& path.subrange(path.len() - key.len(), path.len() as int) == key
    &&& path[path.len() - key.len() - 1] == 0x2f
}

fn is_path_suffix_exec(path: &Vec<u8>, key: &Vec<u8>) -> (b: bool)
    ensures
        b == is_path_suffix(path@, key@),
{
    let n = path.len();
    let m = key.len();
    if n <= m {
        return false;
    }
    if !matches_at(path, key.as_slice(), n - m) {
        return false;
    }
    path[n - m - 1] == 0x2f
}

fn same_bytes(a: &Vec<u8>, b: &Vec<u8>) -> (e: bool)
    ensures
        e == (a@ == b@),
{
    if a.len() != b.len() {
        return false;
    }
    let r = matches_at(a, b.as_slice(), 0);
    proof {
        assert(a@.subrange(0, b@.len() as int) =~= a@);
    }
    r
}

/// Which of the known components (by base path) a registry path belongs
/// to: the one with exactly that path, else the longest one that is a path
/// suffix of it.
pub open spec fn match_component_spec(paths: Seq<Seq<u8>>, base: Seq<u8>) -> Option<int> {
    if exists|i: int| 0 <= i < paths.len() && paths[i] == base {
        Some(choose|i: int| 0 <= i < paths.len() && paths[i] == base)
    } else if exists|i: int| 0 <= i < paths.len() && is_path_suffix(base, paths[i]) {
        Some(
            choose|i: int|
                0 <= i < paths.len() && is_path_suffix(base, paths[i]) && forall|j: int|
                    0 <= j < paths.len() && is_path_suffix(base, paths[j]) ==> paths[j].len()
                        <= paths[i].len(),
        )
    } else {
        None
    }
}

/// The index of the component `base` belongs to: an exact match first,
/// else a longest path-suffix match.
pub fn match_component(components: &Vec<ComponentInfo>, base: &Vec<u8>) -> (r: Option<usize>)
    ensures
        match r {
            Some(i) => i < components@.len() && (components@[i as int].path@ == base@ || (
            is_path_suffix(base@, components@[i as int].path@) && (forall|j: int|
                0 <= j < components@.len() ==> components@[j].path@ != base@) && forall|j: int|
                0 <= j < components@.len() && is_path_suffix(base@, components@[j].path@)
                    ==> components@[j].path@.len() <= components@[i as int].path@.len())),
            None => forall|j: int|
                0 <= j < components@.len() ==> components@[j].path@ != base@ && !is_path_suffix(
                    base@,
                    components@[j].path@,
                ),
        },
{
    let mut i: usize = 0;
    while i < components.len()
        invariant
            0 <= i <= components@.len(),
            forall|j: int| 0 <= j < i ==> components@[j].path@ != base@,
        decreases components@.len() - i,
    {
        if same_bytes(&components[i].path, base) {
            return Some(i);
        }
        i = i + 1;
    }
    let mut best: Option<usize> = None;
    let mut k: usize = 0;
    while k < components.len()
        invariant
            0 <= k <= components@.len(),
            forall|j: int| 0 <= j < components@.len() ==> components@[j].path@ != base@,
            match best {
                Some(b) => b < k && is_path_suffix(base@, components@[b as int].path@) && forall|j: int|
                    0 <= j < k && is_path_suffix(base@, components@[j].path@)
                        ==> components@[j].path@.len() <= components@[b as int].path@.len(),
                None => forall|j: int| 0 <= j < k ==> !is_path_suffix(base@, components@[j].path@),
            },
        decreases components@.len() - k,
    {
        if is_path_suffix_exec(base, &components[k].path) {
            match best {
                Some(b) => {
                    if components[k].path.len() >= components[b].path.len() {
                        best = Some(k);
                    }
                },
                None => {
                    best = Some(k);
                },
            }
        }
        k = k + 1;
    }
    best
}

/// `p` comes no later than `q`: lower priority first, then lower tag.
pub open spec fn key_le(p: (u32, usize), q: (u32, usize)) -> bool {
    p.0 < q.0 || (p.0 == q.0 && p.1 <= q.1)
}

/// `s` is ordered by priority, and by tag among equal priorities.
pub open spec fn key_sorted(s: Seq<(u32, usize)>) -> bool {
    forall|i: int, j: int| 0 <= i < j < s.len() ==> key_le(s[i], s[j])
}

/// `s` is ordered by priority.
pub open spec fn sorted_by_priority(s: Seq<(u32, usize)>) -> bool {
    forall|i: int, j: int| 0 <= i < j < s.len() ==> s[i].0 <= s[j].0
}

/// Entries of equal priority keep the order of their tags.
pub open spec fn stable_by_tag(s: Seq<(u32, usize)>) -> bool {
    forall|i: int, j: int| 0 <= i < j < s.len() && s[i].0 == s[j].0 ==> s[i].1 <= s[j].1
}

proof fn swap_multiset(s: Seq<(u32, usize)>, a: int, b: int)
    requires
        0 <= a < b < s.len(),
    ensures
        s.update(a, s[b]).update(b, s[a]).to_multiset() == s.to_multiset(),
{
    broadcast use vstd::seq_lib::group_to_multiset_ensures;
    broadcast use vstd::multiset::group_multiset_properties;

    let t = s.update(a, s[b]);
    assert(t[b] == s[b]);
    assert(s.to_multiset().count(s[a]) > 0);
    assert(s.to_multiset().insert(s[b]).remove(s[a]).insert(s[a]).remove(s[b]) =~= s.to_multiset());
}

/// Orders `(priority, tag)` entries by priority, and by tag among equal
/// priorities. With each entry tagged by its position, this is the order
/// a stable sort by priority gives.
pub fn sort_by_priority(v: &mut Vec<(u32, usize)>)
    ensures
        final(v)@.to_multiset() == old(v)@.to_multiset(),
        key_sorted(final(v)@),
        sorted_by_priority(final(v)@),
        stable_by_tag(final(v)@),
{
    let n = v.len();
    let mut i: usize = 0;
    while i < n
        invariant
            0 <= i <= n,
            n == v@.len(),
            v@.to_multiset() == old(v)@.to_multiset(),
            forall|a: int, b: int| 0 <= a < b < i ==> key_le(v@[a], v@[b]),
        decreases n - i,
    {
        let mut j = i;
        while j > 0 && (v[j].0 < v[j - 1].0 || (v[j].0 == v[j - 1].0 && v[j].1 < v[j - 1].1))
            invariant
                0 <= j <= i < n,
                n == v@.len(),
                v@.to_multiset() == old(v)@.to_multiset(),
                forall|a: int, b: int| 0 <= a < b <= i && a != j && b != j ==> key_le(v@[a], v@[b]),
                forall|b: int| j < b <= i ==> key_le(v@[j as int], v@[b]),
            decreases j,
        {
            let x = v[j - 1];
            let y = v[j];
            let ghost before = v@;
            v.set(j - 1, y);
            v.set(j, x);
            proof {
                assert(v@ == before.update(j - 1, before[j as int]).update(j as int, before[j - 1]));
                swap_multiset(before, j - 1, j as int);
            }
            j = j - 1;
        }
        proof {
            assert forall|a: int, b: int| 0 <= a < b <= i implies key_le(v@[a], v@[b]) by {
                if b == j && a < j {
                    if a < j - 1 {
                        assert(key_le(v@[a], v@[j - 1]));
                    }
                }
            }
        }
        i = i + 1;
    }
    proof {
        assert forall|a: int, b: int| 0 <= a < b < v@.len() implies v@[a].0 <= v@[b].0 by {
            assert(key_le(v@[a], v@[b]));
        }
        assert forall|a: int, b: int| 0 <= a < b < v@.len() && v@[a].0 == v@[b].0 implies v@[a].1 <= v@[b].1 by {
            assert(key_le(v@[a], v@[b]));
        }
    }
}

/// A registered init function, by the stage it runs in and the source
/// path it was declared in. The function itself stays with the caller,
/// which finds it by the entry's position.
#[derive(Debug)]
pub struct ComponentRegistry {
    pub stage: InitStage,
    pub path: Vec<u8>,
}

impl ComponentRegistry {
    pub fn new(stage: InitStage, path: &[u8]) -> (r: ComponentRegistry)
        ensures
            r.stage == stage && r.path@ == path@,
    {
        ComponentRegistry { stage, path: slice_to_vec(path) }
    }
}

/// The base paths of the components.
pub open spec fn comp_paths(cs: Seq<ComponentInfo>) -> Seq<Seq<u8>> {
    Seq::new(cs.len(), |i: int| cs[i].path@)
}

/// No two of the paths are equal.
pub open spec fn paths_unique(paths: Seq<Seq<u8>>) -> bool {
    forall|i: int, j: int| 0 <= i < j < paths.len() ==> paths[i] != paths[j]
}

/// Component `i`'s path, decoded.
pub open spec fn decoded_path(cs: Seq<ComponentInfo>, i: int) -> Seq<u8> {
    utf8_lossy(percent_decode_from(cs[i].path@, 0))
}

/// No later component has the same decoded path as component `i`.
pub open spec fn last_with_path(cs: Seq<ComponentInfo>, i: int) -> bool {
    forall|j: int| i < j < cs.len() ==> decoded_path(cs, j) != decoded_path(cs, i)
}

/// The entry `e` is component `i` of `cs`, the last with its decoded
/// path, keyed by that path.
pub open spec fn entry_from(e: ComponentInfo, cs: Seq<ComponentInfo>, i: int) -> bool {
    &&& 0 <= i < cs.len()
    &&& last_with_path(cs, i)
    &&& e.path@ == decoded_path(cs, i)
    &&& e.name@ == cs[i].name@
    &&& e.priority == cs[i].priority
}

/// The entry `e` is some component of `cs`, the last with its decoded
/// path, keyed by that path.
pub open spec fn from_last_component(e: ComponentInfo, cs: Seq<ComponentInfo>) -> bool {
    exists|i: int| entry_from(e, cs, i)
}

/// Entry `k` of `r` is keyed by `p`.
pub open spec fn covers(r: Seq<ComponentInfo>, p: Seq<u8>, k: int) -> bool {
    0 <= k < r.len() && r[k].path@ == p
}

/// Some entry of `r` is keyed by `p`.
pub open spec fn has_key(r: Seq<ComponentInfo>, p: Seq<u8>) -> bool {
    exists|k: int| covers(r, p, k)
}

/// The known components keyed by their decoded paths: one entry per
/// distinct decoded path, the last component that has it.
pub fn parse_input(components: Vec<ComponentInfo>) -> (r: Vec<ComponentInfo>)
    ensures
        paths_unique(comp_paths(r@)),
        forall|k: int| 0 <= k < r@.len() ==> from_last_component(#[trigger] r@[k], components@),
        forall|i: int| 0 <= i < components@.len() ==> has_key(r@, #[trigger] decoded_path(components@, i)),
{
    let n = components.len();
    let mut out: Vec<ComponentInfo> = Vec::new();
    let ghost mut src: Seq<int> = Seq::empty();
    let ghost mut cover: Seq<int> = Seq::empty();
    let mut i: usize = 0;
    while i < n
        invariant
            0 <= i <= n,
            n == components@.len(),
            out@.len() == src.len(),
            cover.len() == i,
            paths_unique(comp_paths(out@)),
            forall|k: int|
                0 <= k < out@.len() ==> 0 <= #[trigger] src[k] < i && out@[k].path@ == decoded_path(components@, src[k])
                    && out@[k].name@ == components@[src[k]].name@ && out@[k].priority == components@[src[k]].priority,
            forall|k: int, j: int|
                #![trigger src[k], decoded_path(components@, j)]
                0 <= k < out@.len() && src[k] < j < i ==> decoded_path(components@, j) != decoded_path(components@, src[k]),
            forall|j: int|
                0 <= j < i ==> 0 <= #[trigger] cover[j] < out@.len() && out@[cover[j]].path@ == decoded_path(components@, j),
        decreases n - i,
    {
        let c = ComponentInfo {
            name: slice_to_vec(components[i].name.as_slice()),
            path: percent_decode_path(components[i].path.as_slice()),
            priority: components[i].priority,
        };
        let mut k: usize = 0;
        let mut found: Option<usize> = None;
        while k < out.len()
            invariant_except_break
                found is None,
                forall|m: int| 0 <= m < k ==> out@[m].path@ != c.path@,
            invariant
                0 <= k <= out@.len(),
            ensures
                match found {
                    Some(f) => f < out@.len() && out@[f as int].path@ == c.path@,
                    None => forall|m: int| 0 <= m < out@.len() ==> out@[m].path@ != c.path@,
                },
            decreases out@.len() - k,
        {
            if same_bytes(&out[k].path, &c.path) {
                found = Some(k);
                break;
            }
            k = k + 1;
        }
        let ghost old_out = out@;
        let ghost old_src = src;
        let ghost old_cover = cover;
        match found {
            Some(k) => {
                out.set(k, c);
                proof {
                    src = src.update(k as int, i as int);
                    cover = cover.push(k as int);
                    assert forall|a: int, b: int| 0 <= a < b < out@.len() implies comp_paths(out@)[a] != comp_paths(out@)[b] by {
                        assert(comp_paths(old_out)[a] != comp_paths(old_out)[b]);
                    }
                    assert forall|j: int| 0 <= j < i + 1 implies 0 <= #[trigger] cover[j] < out@.len() && out@[cover[j]].path@ == decoded_path(components@, j) by {
                        if j < i {
                            assert(old_cover[j] == cover[j]);
                        }
                    }
                    assert forall|a: int, j: int| #![trigger src[a], decoded_path(components@, j)] 0 <= a < out@.len() && src[a] < j < i + 1 implies decoded_path(components@, j) != decoded_path(components@, src[a]) by {
                        if a != k && j == i {
                            assert(comp_paths(old_out)[a] != comp_paths(old_out)[k as int]);
                        }
                    }
                }
            },
            None => {
                out.push(c);
                proof {
                    src = src.push(i as int);
                    cover = cover.push(old_out.len() as int);
                    assert forall|a: int, b: int| 0 <= a < b < out@.len() implies comp_paths(out@)[a] != comp_paths(out@)[b] by {
                        if b < old_out.len() {
                            assert(comp_paths(old_out)[a] != comp_paths(old_out)[b]);
                        }
                    }
                    assert forall|j: int| 0 <= j < i + 1 implies 0 <= #[trigger] cover[j] < out@.len() && out@[cover[j]].path@ == decoded_path(components@, j) by {
                        if j < i {
                            assert(old_cover[j] == cover[j]);
                        }
                    }
                    assert forall|a: int, j: int| #![trigger src[a], decoded_path(components@, j)] 0 <= a < out@.len() && src[a] < j < i + 1 implies decoded_path(components@, j) != decoded_path(components@, src[a]) by {
                        if a < old_out.len() && j == i {
                            assert(old_out[a].path@ != c.path@);
                        }
                    }
                }
            },
        }
        i = i + 1;
    }
    proof {
        assert forall|k: int| 0 <= k < out@.len() implies from_last_component(#[trigger] out@[k], components@) by {
            let i0 = src[k];
            assert forall|j: int| i0 < j < components@.len() implies decoded_path(components@, j) != decoded_path(components@, i0) by {
                assert(src[k] == i0);
            }
            assert(entry_from(out@[k], components@, i0));
        }
        assert forall|j: int| 0 <= j < components@.len() implies has_key(out@, #[trigger] decoded_path(components@, j)) by {
            assert(covers(out@, decoded_path(components@, j), cover[j]));
        }
    }
    out
}

/// With distinct component paths, the component `match_component` finds
/// is the one `match_component_spec` names.
proof fn lemma_match_determined(cs: Seq<ComponentInfo>, base: Seq<u8>, r: Option<usize>)
    requires
        paths_unique(comp_paths(cs)),
        match r {
            Some(i) => i < cs.len() && (cs[i as int].path@ == base || (is_path_suffix(base, cs[i as int].path@)
                && (forall|j: int| 0 <= j < cs.len() ==> cs[j].path@ != base) && forall|j: int|
                0 <= j < cs.len() && is_path_suffix(base, cs[j].path@) ==> cs[j].path@.len()
                    <= cs[i as int].path@.len())),
            None => forall|j: int|
                0 <= j < cs.len() ==> cs[j].path@ != base && !is_path_suffix(base, cs[j].path@),
        },
    ensures
        match r {
            Some(i) => match_component_spec(comp_paths(cs), base) == Some(i as int),
            None => match_component_spec(comp_paths(cs), base) is None,
        },
{
    let paths = comp_paths(cs);
    match r {
        Some(i) => {
            let i = i as int;
            assert(paths[i] == cs[i].path@);
            if cs[i].path@ == base {
                assert(0 <= i < paths.len() && paths[i] == base);
                let c = choose|c: int| 0 <= c < paths.len() && paths[c] == base;
                if c != i {
                    if c < i {
                        assert(paths[c] != paths[i]);
                    } else {
                        assert(paths[i] != paths[c]);
                    }
                }
            } else {
                assert(!exists|c: int| 0 <= c < paths.len() && paths[c] == base) by {
                    assert forall|c: int| 0 <= c < paths.len() implies paths[c] != base by {
                        assert(paths[c] == cs[c].path@);
                    }
                }
                assert(0 <= i < paths.len() && is_path_suffix(base, paths[i]));
                assert(forall|j: int|
                    0 <= j < paths.len() && is_path_suffix(base, paths[j]) ==> paths[j].len() <= paths[i].len()) by {
                    assert forall|j: int| 0 <= j < paths.len() && is_path_suffix(base, paths[j]) implies paths[j].len()
                        <= paths[i].len() by {
                        assert(paths[j] == cs[j].path@);
                    }
                }
                let c = choose|c: int|
                    0 <= c < paths.len() && is_path_suffix(base, paths[c]) && forall|j: int|
                        0 <= j < paths.len() && is_path_suffix(base, paths[j]) ==> paths[j].len() <= paths[c].len();
                assert(paths[c].len() == paths[i].len());
                assert(paths[c] =~= paths[i]);
                if c != i {
                    if c < i {
                        assert(paths[c] != paths[i]);
                    } else {
                        assert(paths[i] != paths[c]);
                    }
                }
            }
        },
        None => {
            assert forall|c: int| 0 <= c < paths.len() implies paths[c] != base && !is_path_suffix(base, paths[c]) by {
                assert(paths[c] == cs[c].path@);
            }
        },
    }
}

/// Removing a component keeps the paths distinct.
proof fn lemma_remove_unique(cs: Seq<ComponentInfo>, i: int)
    requires
        paths_unique(comp_paths(cs)),
        0 <= i < cs.len(),
    ensures
        paths_unique(comp_paths(cs.remove(i))),
{
    let rs = cs.remove(i);
    assert forall|a: int, b: int| 0 <= a < b < comp_paths(rs).len() implies comp_paths(rs)[a] != comp_paths(rs)[b] by {
        let a0 = if a < i { a } else { a + 1 };
        let b0 = if b < i { b } else { b + 1 };
        assert(rs[a] == cs[a0]);
        assert(rs[b] == cs[b0]);
        assert(comp_paths(cs)[a0] != comp_paths(cs)[b0]);
    }
}

/// One registered init function `reg`, at index `k`, of stage `stage`,
/// matched against the components left in `prev.1`: it takes the
/// component of its base path (exact, else longest path suffix) out, and
/// becomes a call `(priority, k)` after those of `prev.0`.
pub open spec fn plan_step(stage: InitStage, reg: ComponentRegistry, k: int, prev: (Seq<(u32, usize)>, Seq<ComponentInfo>)) -> (
    Seq<(u32, usize)>,
    Seq<ComponentInfo>,
) {
    if reg.stage != stage {
        prev
    } else {
        match base_path_spec(reg.path@) {
            None => prev,
            Some(base) => match match_component_spec(comp_paths(prev.1), base) {
                None => prev,
                Some(i) => (prev.0.push((prev.1[i].priority, k as usize)), prev.1.remove(i)),
            },
        }
    }
}

/// The registered init functions `regs[..n]` matched in order against the
/// known components `cs`: the calls and the components left over.
pub open spec fn match_plan(stage: InitStage, regs: Seq<ComponentRegistry>, cs: Seq<ComponentInfo>, n: int) -> (
    Seq<(u32, usize)>,
    Seq<ComponentInfo>,
)
    decreases n,
{
    if n <= 0 {
        (Seq::empty(), cs)
    } else {
        plan_step(stage, regs[n - 1], n - 1, match_plan(stage, regs, cs, n - 1))
    }
}

fn match_one(
    stage: InitStage,
    reg: &ComponentRegistry,
    k: usize,
    infos: &mut Vec<(u32, usize)>,
    rest: &mut Vec<ComponentInfo>,
)
    requires
        paths_unique(comp_paths(old(rest)@)),
    ensures
        paths_unique(comp_paths(final(rest)@)),
        (final(infos)@, final(rest)@) == plan_step(stage, *reg, k as int, (old(infos)@, old(rest)@)),
{
    if reg.stage == stage {
        match component_base_path(reg.path.as_slice()) {
            None => {},
            Some(base) => {
                let m = match_component(rest, &base);
                proof {
                    lemma_match_determined(rest@, base@, m);
                }
                match m {
                    None => {},
                    Some(i) => {
                        let prio = rest[i].priority;
                        proof {
                            lemma_remove_unique(rest@, i as int);
                        }
                        let _taken = rest.remove(i);
                        infos.push((prio, k));
                    },
                }
            },
        }
    }
}

/// The init functions to call for `stage`, in the order to call them: each
/// registered function of that stage whose base path matches one of the
/// known components (with distinct paths), ordered by the component's
/// priority and, among equal priorities, by registration order, as
/// `(priority, registry index)`. The components no function matched are
/// returned too.
pub fn match_and_call(stage: InitStage, registries: &Vec<ComponentRegistry>, components: Vec<ComponentInfo>) -> (r: (
    Vec<(u32, usize)>,
    Vec<ComponentInfo>,
))
    requires
        paths_unique(comp_paths(components@)),
    ensures
        r.0@.to_multiset() == match_plan(stage, registries@, components@, registries@.len() as int).0.to_multiset(),
        key_sorted(r.0@),
        r.1@ == match_plan(stage, registries@, components@, registries@.len() as int).1,
{
    let ghost cs0 = components@;
    let mut rest = components;
    let mut infos: Vec<(u32, usize)> = Vec::new();
    let mut k: usize = 0;
    while k < registries.len()
        invariant
            0 <= k <= registries@.len(),
            (infos@, rest@) == match_plan(stage, registries@, cs0, k as int),
            paths_unique(comp_paths(rest@)),
        decreases registries@.len() - k,
    {
        match_one(stage, &registries[k], k, &mut infos, &mut rest);
        k = k + 1;
    }
    sort_by_priority(&mut infos);
    (infos, rest)
}

/// `r` keys the components `cs` by decoded path as `parse_input` does.
pub open spec fn parsed_from(cs: Seq<ComponentInfo>, r: Seq<ComponentInfo>) -> bool {
    &&& paths_unique(comp_paths(r))
    &&& forall|k: int| 0 <= k < r.len() ==> from_last_component(#[trigger] r[k], cs)
    &&& forall|i: int| 0 <= i < cs.len() ==> has_key(r, #[trigger] decoded_path(cs, i))
}

/// The calls `calls` are, in some order, those `match_and_call` plans for
/// `stage` against some keying `parsed` of the components `cs`.
pub open spec fn planned_calls(
    stage: InitStage,
    regs: Seq<ComponentRegistry>,
    cs: Seq<ComponentInfo>,
    calls: Seq<(u32, usize)>,
) -> bool {
    exists|parsed: Seq<ComponentInfo>|
        parsed_from(cs, parsed) && calls.to_multiset() == #[trigger] match_plan(stage, regs, parsed, regs.len() as int).0.to_multiset()
}

/// Errors of the component system.
#[derive(Debug)]
pub enum ComponentSystemInitError {
    FileNotValid,
    NotIncludeAllComponent(Vec<u8>),
}

/// The init functions to call for `stage`, in order, as `(priority,
/// registry index)`: the known components are keyed by decoded path and
/// matched against the registered functions.
pub fn init_all(stage: InitStage, registries: &Vec<ComponentRegistry>, components: Vec<ComponentInfo>) -> (r: Result<Vec<(u32, usize)>, ComponentSystemInitError>)
    ensures
        r matches Ok(calls) && key_sorted(calls@) && planned_calls(stage, registries@, components@, calls@),
{
    let ghost cs = components@;
    let parsed = parse_input(components);
    let (calls, _left) = match_and_call(stage, registries, parsed);
    proof {
        assert(parsed_from(cs, parsed@));
        assert(calls@.to_multiset() == match_plan(stage, registries@, parsed@, registries@.len() as int).0.to_multiset());
    }
    Ok(calls)
}

} // verus!
