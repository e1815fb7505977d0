//! The 32-byte short (8.3) directory entry and its attribute predicates.
use vstd::prelude::*;
use crate::bytes::{le16, le32, read_u16_le, read_u32_le};

verus! {

/// Size in bytes of one directory slot.
pub const DIR_ENTRY_SIZE: usize = 32;

/// A decoded short directory entry.
#[derive(Debug, Clone, Copy)]
pub struct DirEntry {
    pub(crate) name: [u8; 8],
    pub(crate) ext: [u8; 3],
    pub(crate) attr: u8,
    pub(crate) cluster: u16,
    pub(crate) size: u32,
}

/// ASCII whitespace as `u8::is_ascii_whitespace` defines it.
pub open spec fn is_space(b: u8) -> bool {
    b == 0x20 || b == 0x09 || b == 0x0A || b == 0x0C || b == 0x0D
}

/// Tells whether `b` is ASCII whitespace.
pub fn byte_is_space(b: u8) -> (r: bool)
    ensures
        r == is_space(b),
{
    b == 0x20 || b == 0x09 || b == 0x0A || b == 0x0C || b == 0x0D
}

/// `s` with trailing ASCII whitespace removed.
pub open spec fn trim_end(s: Seq<u8>) -> Seq<u8>
    decreases s.len(),
{
    if s.len() > 0 && is_space(s.last()) {
        trim_end(s.drop_last())
    } else {
        s
    }
}

impl DirEntry {
    pub open(crate) spec fn name_bytes(self) -> Seq<u8> {
        self.name@
    }

    pub open(crate) spec fn ext_bytes(self) -> Seq<u8> {
        self.ext@
    }

    pub open(crate) spec fn attribute(self) -> u8 {
        self.attr
    }

    pub open(crate) spec fn cluster_index(self) -> u16 {
        self.cluster
    }

    pub open(crate) spec fn byte_size(self) -> u32 {
        self.size
    }
}


/// The entry stored in the slot that starts at `off` of `b`.
pub open(crate) spec fn decoded_from(e: DirEntry, b: Seq<u8>, off: int) -> bool {
    &&& e.name@ == b.subrange(off, off + 8)
    &&& e.ext@ == b.subrange(off + 8, off + 11)
    &&& e.attr == b[off + 11]
    &&& e.cluster == le16(b, off + 26)
    &&& e.size == le32(b, off + 28)
}

/// Length of `s` once its trailing ASCII whitespace is removed.
fn trimmed_len(s: &[u8]) -> (r: usize)
    ensures
        r <= s@.len(),
        s@.subrange(0, r as int) == trim_end(s@),
{
    let mut n: usize = s.len();
    assert(s@.subrange(0, n as int) =~= s@);
    while n > 0 && byte_is_space(s[n - 1])
        invariant
            n <= s@.len(),
            trim_end(s@) == trim_end(s@.subrange(0, n as int)),
        decreases n,
    {
        assert(s@.subrange(0, n as int).drop_last() =~= s@.subrange(0, n - 1));
        n = n - 1;
    }
    n
}

/// Appends `s[0..n]` to `out`.
fn push_prefix(out: &mut Vec<u8>, s: &[u8], n: usize)
    requires
        n <= s@.len(),
    ensures
        final(out)@ == old(out)@ + s@.subrange(0, n as int),
{
    let mut i: usize = 0;
    while i < n
        invariant
            i <= n,
            n <= s@.len(),
            out@ == old(out)@ + s@.subrange(0, i as int),
        decreases n - i,
    {
        out.push(s[i]);
        i = i + 1;
        assert(out@ =~= old(out)@ + s@.subrange(0, i as int));
    }
}

impl DirEntry {
    /// The bit test of the attribute byte with `mask`.
    pub open(crate) spec fn has_attr(self, mask: u8) -> bool {
        self.attr & mask != 0
    }

    /// Long-file-name continuation records carry all four low attribute bits.
    pub open(crate) spec fn is_lfn(self) -> bool {
        self.attr & 0x0F == 0x0F
    }

    /// The normalized display name: the name and extension with trailing
    /// whitespace removed, joined by a dot when the extension is not empty and
    /// the entry is not a directory.
    pub open(crate) spec fn display(self) -> Seq<u8> {
        let n = trim_end(self.name@);
        let e = trim_end(self.ext@);
        if e.len() > 0 && !self.has_attr(0x10) {
            n + seq![0x2Eu8] + e
        } else {
            n
        }
    }

    /// An entry whose every field is zero.
    pub fn new() -> (r: DirEntry)
        ensures
            r.name_bytes() == seq![0u8; 8],
            r.ext_bytes() == seq![0u8; 3],
            r.attribute() == 0,
            r.cluster_index() == 0,
            r.byte_size() == 0,
    {
        let r = DirEntry { name: [0u8; 8], ext: [0u8; 3], attr: 0, cluster: 0, size: 0 };
        assert(r.name@ =~= seq![0u8; 8]);
        assert(r.ext@ =~= seq![0u8; 3]);
        r
    }

    /// Decodes the 32-byte slot that starts at `off` of `b`.
    pub fn decode(b: &[u8], off: usize) -> (r: DirEntry)
        requires
            off + DIR_ENTRY_SIZE <= b@.len(),
        ensures
            decoded_from(r, b@, off as int),
    {
        let name: [u8; 8] = [
            b[off], b[off + 1], b[off + 2], b[off + 3],
            b[off + 4], b[off + 5], b[off + 6], b[off + 7],
        ];
        let ext: [u8; 3] = [b[off + 8], b[off + 9], b[off + 10]];
        let attr = b[off + 11];
        let cluster = read_u16_le(b, off + 26);
        let size = read_u32_le(b, off + 28);
        assert(name@ =~= b@.subrange(off as int, off + 8));
        assert(ext@ =~= b@.subrange(off + 8, off + 11));
        DirEntry { name, ext, attr, cluster, size }
    }

    /// The 8-byte space-padded name field.
    pub fn name(&self) -> (r: [u8; 8])
        ensures
            r@ == self.name_bytes(),
    {
        self.name
    }

    /// The 3-byte space-padded extension field.
    pub fn ext(&self) -> (r: [u8; 3])
        ensures
            r@ == self.ext_bytes(),
    {
        self.ext
    }

    /// Read-only bit (0x01).
    pub fn attr_readonly(&self) -> (r: bool)
        ensures
            r == self.has_attr(0x01),
    {
        self.attr & 0x01 != 0
    }

    /// Hidden bit (0x02).
    pub fn attr_hidden(&self) -> (r: bool)
        ensures
            r == self.has_attr(0x02),
    {
        self.attr & 0x02 != 0
    }

    /// System bit (0x04).
    pub fn attr_system(&self) -> (r: bool)
        ensures
            r == self.has_attr(0x04),
    {
        self.attr & 0x04 != 0
    }

    /// Volume-label bit (0x08).
    pub fn attr_volumeid(&self) -> (r: bool)
        ensures
            r == self.has_attr(0x08),
    {
        self.attr & 0x08 != 0
    }

    /// Directory bit (0x10).
    pub fn attr_directory(&self) -> (r: bool)
        ensures
            r == self.has_attr(0x10),
    {
        self.attr & 0x10 != 0
    }

    /// Archive bit (0x20): the entry is a file to back up.
    pub fn attr_archive(&self) -> (r: bool)
        ensures
            r == self.has_attr(0x20),
    {
        self.attr & 0x20 != 0
    }

    /// A long-file-name continuation record: all four low bits set.
    pub fn attr_lfn(&self) -> (r: bool)
        ensures
            r == self.is_lfn(),
    {
        self.attr & 0x0F == 0x0F
    }

    /// The first cluster of the entry's data.
    pub fn first_cluster(&self) -> (r: u16)
        ensures
            r == self.cluster_index(),
    {
        self.cluster
    }

    /// The size in bytes; meaningful for files only.
    pub fn size(&self) -> (r: u32)
        ensures
            r == self.byte_size(),
    {
        self.size
    }

    /// The normalized display name.
    pub fn display_name(&self) -> (r: Vec<u8>)
        ensures
            r@ == self.display(),
    {
        let name = self.name.as_slice();
        let ext = self.ext.as_slice();
        let n = trimmed_len(name);
        let e = trimmed_len(ext);
        let mut out: Vec<u8> = Vec::new();
        push_prefix(&mut out, name, n);
        if e > 0 && !self.attr_directory() {
            out.push(0x2E);
            push_prefix(&mut out, ext, e);
        }
        assert(out@ =~= self.display());
        out
    }
}

/// What a listing line shows of one entry.
pub struct EntryLine {
    pub is_dir: bool,
    pub size: u32,
    pub first_cluster: u16,
    pub name: Vec<u8>,
}

/// The listing line of `entry`: its kind, its size (zero for a directory),
/// its first cluster and its display name.
pub fn ls_entry(entry: DirEntry) -> (r: EntryLine)
    ensures
        r.is_dir == entry.has_attr(0x10),
        r.size == (if entry.has_attr(0x10) { 0 } else { entry.byte_size() }),
        r.first_cluster == entry.cluster_index(),
        r.name@ == entry.display(),
{
    let is_dir = entry.attr_directory();
    let size = if is_dir { 0 } else { entry.size() };
    EntryLine { is_dir, size, first_cluster: entry.first_cluster(), name: entry.display_name() }
}

/// Decoding a slot keeps its name and extension fields byte for byte, so
/// writing them back one after the other gives the slot's first 11 bytes.
pub proof fn lemma_name_round_trip(e: DirEntry, b: Seq<u8>, off: int)
    requires
        0 <= off,
        off + 32 <= b.len(),
        decoded_from(e, b, off),
    ensures
        e.name_bytes() + e.ext_bytes() == b.subrange(off, off + 11),
{
    assert(e.name@ + e.ext@ =~= b.subrange(off, off + 11));
}

} // verus!
