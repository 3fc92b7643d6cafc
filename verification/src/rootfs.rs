//! Preparing the initramfs: gzip decompression through `zune_inflate`,
//! and how each CPIO entry's name and type become a node of the root file
//! system. Walking the archive and creating the nodes are the caller's.

use vstd::prelude::*;

use zune_inflate::errors::InflateDecodeErrors;
use zune_inflate::DeflateDecoder;

use crate::errno::Errno;

verus! {

#[verifier::external_type_specification]
#[verifier::external_body]
pub struct ExInflateDecodeErrors(InflateDecodeErrors);

/// What `DeflateDecoder::new(data).decode_gzip()` decompresses `data` to,
/// if it succeeds (with the decoder's default options).
pub uninterp spec fn gzip_decoded(data: Seq<u8>) -> Option<Seq<u8>>;

/// `zune_inflate::DeflateDecoder::new(data).decode_gzip()` with default
/// options. Its result is named by `gzip_decoded`; the decoder's source
/// shows that it refuses inputs shorter than 18 bytes and inputs that do
/// not start with the gzip magic `1F 8B` and the deflate method `08`. What
/// the decompressed bytes are is not stated. Nor is it stated that the call
/// returns on every input: the inflate loop unwraps slices whose bounds rest
/// on the decoder's own bookkeeping, and its source does not show that these
/// never fail, so the clauses speak only of the calls that return.
#[verifier::external_body]
fn decode_gzip(data: &[u8]) -> (r: Result<Vec<u8>, InflateDecodeErrors>)
    ensures
        match r {
            Ok(v) => gzip_decoded(data@) == Some(v@),
            Err(_) => gzip_decoded(data@) is None,
        },
        data@.len() < 18 ==> r is Err,
        data@.len() >= 3 && (data@[0] != 0x1F || data@[1] != 0x8B || data@[2] != 0x08) ==> r is Err,
{
    DeflateDecoder::new(data).decode_gzip()
}

/// The buffer starts with the gzip magic number.
pub open spec fn is_gzip(buf: Seq<u8>) -> bool {
    buf[0] == 0x1F && buf[1] == 0x8B
}

/// The CPIO archive in the initramfs: decompressed when it is gzipped
/// (`EINVAL` when that fails), as it is otherwise. Also whether it was
/// gzipped. A gzipped archive goes through `zune_inflate`'s decoder, whose
/// source does not show that it returns on every input: that this function
/// does not panic holds only as far as the decoder does.
pub fn initramfs_archive(buf: &[u8]) -> (r: Result<(Vec<u8>, bool), Errno>)
    requires
        buf@.len() >= 4,
    ensures
        is_gzip(buf@) ==> match gzip_decoded(buf@) {
            Some(d) => r is Ok && r->Ok_0.0@ == d && r->Ok_0.1,
            None => r == Err::<(Vec<u8>, bool), Errno>(Errno::EINVAL),
        },
        !is_gzip(buf@) ==> r is Ok && r->Ok_0.0@ == buf@ && !r->Ok_0.1,
{
    if buf[0] == 0x1F && buf[1] == 0x8B {
        match decode_gzip(buf) {
            Ok(v) => Ok((v, true)),
            Err(_) => Err(Errno::EINVAL),
        }
    } else {
        let mut v: Vec<u8> = Vec::new();
        let mut i: usize = 0;
        while i < buf.len()
            invariant
                0 <= i <= buf@.len(),
                v@ == buf@.subrange(0, i as int),
            decreases buf@.len() - i,
        {
            v.push(buf[i]);
            i = i + 1;
            proof {
                assert(v@ =~= buf@.subrange(0, i as int));
            }
        }
        proof {
            assert(buf@.subrange(0, buf@.len() as int) =~= buf@);
        }
        Ok((v, false))
    }
}

/// Where an entry goes.
#[derive(Debug, PartialEq, Eq)]
pub enum EntryPath {
    /// The archive's `.` entry: nothing to create.
    Skip,
    /// Directly under the root.
    Root { name: Vec<u8> },
    /// Under the directory `prefix`, which an earlier entry created.
    Child { prefix: Vec<u8>, name: Vec<u8> },
}

/// `s` without leading slashes.
pub open spec fn trim_start(s: Seq<u8>) -> Seq<u8>
    decreases s.len(),
{
    if s.len() > 0 && s[0] == 0x2f {
        trim_start(s.subrange(1, s.len() as int))
    } else {
        s
    }
}

/// `s` without trailing slashes.
pub open spec fn trim_end(s: Seq<u8>) -> Seq<u8>
    decreases s.len(),
{
    if s.len() > 0 && s[s.len() - 1] == 0x2f {
        trim_end(s.subrange(0, s.len() - 1))
    } else {
        s
    }
}

/// The position of the last `/` in `s`, if any.
pub open spec fn last_slash(s: Seq<u8>, n: int) -> Option<int>
    decreases n,
{
    if n <= 0 {
        None
    } else if s[n - 1] == 0x2f {
        Some(n - 1)
    } else {
        last_slash(s, n - 1)
    }
}

/// Where an entry named `name` goes: its name without leading or trailing
/// slashes must not be empty (`EINVAL`); `.` is skipped; otherwise it is
/// split at its last slash into parent path and name.
pub open spec fn entry_path_spec(name: Seq<u8>) -> Result<(int, Seq<u8>, Seq<u8>), Errno> {
    let t = trim_end(trim_start(name));
    if t.len() == 0 {
        Err(Errno::EINVAL)
    } else if t == seq![0x2eu8] {
        Ok((0, Seq::empty(), Seq::empty()))
    } else {
        match last_slash(t, t.len() as int) {
            Some(p) => Ok((2, t.subrange(0, p), t.subrange(p + 1, t.len() as int))),
            None => Ok((1, Seq::empty(), t)),
        }
    }
}

fn copy_range(s: &[u8], a: usize, b: usize) -> (v: Vec<u8>)
    requires
        a <= b <= s@.len(),
    ensures
        v@ == s@.subrange(a as int, b as int),
{
    let mut v: Vec<u8> = Vec::new();
    let mut i = a;
    while i < b
        invariant
            a <= i <= b,
            b <= s@.len(),
            v@ == s@.subrange(a as int, i as int),
        decreases b - i,
    {
        v.push(s[i]);
        i = i + 1;
        proof {
            assert(v@ =~= s@.subrange(a as int, i as int));
        }
    }
    v
}

proof fn lemma_trim_start(s: Seq<u8>, i: int)
    requires
        0 <= i <= s.len(),
        forall|k: int| 0 <= k < i ==> s[k] == 0x2f,
    ensures
        trim_start(s) == trim_start(s.subrange(i, s.len() as int)),
    decreases i,
{
    if i > 0 {
        assert(s.subrange(1, s.len() as int).subrange(i - 1, s.len() - 1) =~= s.subrange(i, s.len() as int));
        lemma_trim_start(s.subrange(1, s.len() as int), i - 1);
    } else {
        assert(s.subrange(0, s.len() as int) =~= s);
    }
}

proof fn lemma_trim_end(s: Seq<u8>, j: int)
    requires
        0 <= j <= s.len(),
        forall|k: int| j <= k < s.len() ==> s[k] == 0x2f,
    ensures
        trim_end(s) == trim_end(s.subrange(0, j)),
    decreases s.len() - j,
{
    if j < s.len() {
        assert(s.subrange(0, s.len() - 1).subrange(0, j) =~= s.subrange(0, j));
        lemma_trim_end(s.subrange(0, s.len() - 1), j);
    } else {
        assert(s.subrange(0, j) =~= s);
    }
}

/// Where the entry named `name` goes.
pub fn entry_path(name: &[u8]) -> (r: Result<EntryPath, Errno>)
    ensures
        match entry_path_spec(name@) {
            Err(e) => r == Err::<EntryPath, Errno>(e),
            Ok((k, prefix, last)) => r is Ok && if k == 0 {
                r->Ok_0 == EntryPath::Skip
            } else if k == 1 {
                r->Ok_0 matches EntryPath::Root { name: n } && n@ == last
            } else {
                r->Ok_0 matches EntryPath::Child { prefix: p, name: n } && p@ == prefix && n@ == last
            },
        },
{
    let n = name.len();
    let mut a: usize = 0;
    while a < n && name[a] == 0x2f
        invariant
            0 <= a <= n,
            n == name@.len(),
            forall|k: int| 0 <= k < a ==> name@[k] == 0x2f,
        decreases n - a,
    {
        a = a + 1;
    }
    proof {
        lemma_trim_start(name@, a as int);
    }
    let ghost rest = name@.subrange(a as int, n as int);
    assert(trim_start(rest) == rest);
    let mut b: usize = n;
    while b > a && name[b - 1] == 0x2f
        invariant
            a <= b <= n,
            n == name@.len(),
            forall|k: int| b <= k < n ==> name@[k] == 0x2f,
        decreases b - a,
    {
        b = b - 1;
    }
    let ghost t = name@.subrange(a as int, b as int);
    proof {
        lemma_trim_end(rest, b - a);
        assert(rest.subrange(0, b - a) =~= t);
        assert(trim_start(name@) == rest);
    }
    assert(trim_end(trim_start(name@)) == t);
    if a == b {
        return Err(Errno::EINVAL);
    }
    if b - a == 1 && name[a] == 0x2e {
        assert(t =~= seq![0x2eu8]);
        return Ok(EntryPath::Skip);
    }
    assert(t != seq![0x2eu8]) by {
        if t == seq![0x2eu8] {
            assert(t.len() == 1 && t[0] == name@[a as int]);
        }
    }
    let mut p = b;
    while p > a && name[p - 1] != 0x2f
        invariant
            a <= p <= b,
            b <= n,
            n == name@.len(),
            t == name@.subrange(a as int, b as int),
            last_slash(t, t.len() as int) == last_slash(t, p - a),
        decreases p - a,
    {
        p = p - 1;
    }
    if p > a {
        let prefix = copy_range(name, a, p - 1);
        let last = copy_range(name, p, b);
        proof {
            assert(prefix@ =~= t.subrange(0, p - 1 - a));
            assert(last@ =~= t.subrange(p - a, t.len() as int));
        }
        Ok(EntryPath::Child { prefix, name: last })
    } else {
        let last = copy_range(name, a, b);
        Ok(EntryPath::Root { name: last })
    }
}

/// The kinds of CPIO entries.
#[derive(Clone, Copy, Debug, PartialEq, Eq, Structural)]
pub enum FileType {
    File,
    Dir,
    Link,
    Char,
    Block,
    FiFo,
    Socket,
}

/// What an entry becomes in the root file system.
#[derive(Clone, Copy, Debug, PartialEq, Eq, Structural)]
pub enum NodeKind {
    /// A regular file with the entry's contents.
    File,
    Dir,
    /// A symbolic link to the entry's contents.
    SymLink,
    CharDevice,
    BlockDevice,
    NamedPipe,
}

/// Each entry type's node; sockets are refused with `EINVAL`.
pub fn node_kind(t: FileType) -> (r: Result<NodeKind, Errno>)
    ensures
        r == match t {
            FileType::File => Ok::<NodeKind, Errno>(NodeKind::File),
            FileType::Dir => Ok(NodeKind::Dir),
            FileType::Link => Ok(NodeKind::SymLink),
            FileType::Char => Ok(NodeKind::CharDevice),
            FileType::Block => Ok(NodeKind::BlockDevice),
            FileType::FiFo => Ok(NodeKind::NamedPipe),
            FileType::Socket => Err(Errno::EINVAL),
        },
{
    match t {
        FileType::File => Ok(NodeKind::File),
        FileType::Dir => Ok(NodeKind::Dir),
        FileType::Link => Ok(NodeKind::SymLink),
        FileType::Char => Ok(NodeKind::CharDevice),
        FileType::Block => Ok(NodeKind::BlockDevice),
        FileType::FiFo => Ok(NodeKind::NamedPipe),
        FileType::Socket => Err(Errno::EINVAL),
    }
}

/// `last_slash` finds a slash, the last one among the first `n` bytes.
proof fn lemma_last_slash(s: Seq<u8>, n: int)
    requires
        0 <= n <= s.len(),
    ensures
        match last_slash(s, n) {
            Some(p) => 0 <= p < n && s[p] == 0x2f && forall|k: int| p < k < n ==> s[k] != 0x2f,
            None => forall|k: int| 0 <= k < n ==> s[k] != 0x2f,
        },
    decreases n,
{
    if n > 0 && s[n - 1] != 0x2f {
        lemma_last_slash(s, n - 1);
    }
}

/// An entry's place joins back into its name: the parent path, a slash
/// and the last component give the name without its outer slashes, and
/// the last component holds no slash.
pub proof fn lemma_entry_path_rejoins(name: Seq<u8>)
    ensures
        ({
            let t = trim_end(trim_start(name));
            match entry_path_spec(name) {
                Ok((k, prefix, last)) => (k == 2 ==> prefix + seq![0x2fu8] + last == t) && (k == 1 ==> last
                    == t) && (k != 0 ==> forall|i: int| 0 <= i < last.len() ==> last[i] != 0x2f),
                Err(_) => t.len() == 0,
            }
        }),
{
    let t = trim_end(trim_start(name));
    lemma_last_slash(t, t.len() as int);
    match last_slash(t, t.len() as int) {
        Some(p) => {
            assert(t.subrange(0, p) + seq![0x2fu8] + t.subrange(p + 1, t.len() as int) =~= t);
        },
        None => {},
    }
}

} // verus!
