//! A file's content, gathered along its cluster chain, and its escaped rendering.
use vstd::prelude::*;
use crate::dir::{byte_is_space, is_space, DirEntry};
use crate::fat::{Fat16Img, FatError};

verus! {

/// Index values from this one up mark the end of a cluster chain.
pub const END_OF_CHAIN: u16 = 0xFFF8;

/// `p` put in front of the content in `r`; errors pass through.
pub open(crate) spec fn prepend(p: Seq<u8>, r: Result<Seq<u8>, FatError>) -> Result<Seq<u8>, FatError> {
    match r {
        Ok(s) => Ok(p + s),
        Err(e) => Err(e),
    }
}

/// The first `remaining` bytes of the chain that starts at `cluster`, or
/// fewer where the chain ends first. A chain that reaches a reserved cluster
/// is malformed; a read past the end of the image fails.
pub open(crate) spec fn chain_content(img: &Fat16Img, cluster: u16, remaining: nat) -> Result<Seq<u8>, FatError>
    decreases remaining,
{
    let cs = img.spec_cluster_size();
    if remaining == 0 {
        Ok(seq![])
    } else if cluster < 2 || cs <= 0 {
        Err(FatError::ImageFormat)
    } else if !img.cluster_in_bounds(cluster) {
        Err(FatError::Io)
    } else if remaining <= cs {
        Ok(img.cluster_bytes(cluster).take(remaining as int))
    } else if !img.fat_in_bounds(cluster) {
        Err(FatError::Io)
    } else if img.fat_entry(cluster) >= END_OF_CHAIN {
        Ok(img.cluster_bytes(cluster))
    } else {
        prepend(img.cluster_bytes(cluster), chain_content(img, img.fat_entry(cluster), (remaining - cs) as nat))
    }
}

proof fn lemma_prepend_twice(a: Seq<u8>, b: Seq<u8>, r: Result<Seq<u8>, FatError>)
    ensures
        prepend(a, prepend(b, r)) == prepend(a + b, r),
{
    if let Ok(s) = r {
        assert(a + (b + s) =~= (a + b) + s);
    }
}

/// Appends `s[0..n]` to `out`.
fn append_prefix(out: &mut Vec<u8>, s: &Vec<u8>, n: usize)
    requires
        n <= s@.len(),
    ensures
        final(out)@ == old(out)@ + s@.take(n as int),
{
    let mut i: usize = 0;
    while i < n
        invariant
            i <= n,
            n <= s@.len(),
            out@ == old(out)@ + s@.take(i as int),
        decreases n - i,
    {
        out.push(s[i]);
        i = i + 1;
        assert(out@ =~= old(out)@ + s@.take(i as int));
    }
}

/// The content of `entry`: its declared number of bytes, read cluster by
/// cluster along its chain, stopping as soon as that many bytes are in hand
/// or the chain ends.
pub fn file_content(img: &Fat16Img, entry: &DirEntry) -> (r: Result<Vec<u8>, FatError>)
    requires
        img.wf(),
    ensures
        ({
            let c = chain_content(img, entry.cluster_index(), entry.byte_size() as nat);
            &&& r is Ok <==> c is Ok
            &&& r matches Ok(v) ==> c == Ok::<Seq<u8>, FatError>(v@)
            &&& r matches Err(e) ==> c == Err::<Seq<u8>, FatError>(e)
        }),
{
    let ghost whole = chain_content(img, entry.cluster_index(), entry.byte_size() as nat);
    let cs = img.cluster_size;
    assert(cs > 0) by (nonlinear_arith)
        requires
            cs == img.geometry().spec_bytes_per_sector() * img.geometry().spec_sectors_per_cluster(),
            img.geometry().spec_bytes_per_sector() != 0,
            img.geometry().spec_sectors_per_cluster() != 0,
    ;
    let mut remaining: u64 = entry.size() as u64;
    let mut cluster: u16 = entry.first_cluster();
    let mut out: Vec<u8> = Vec::new();
    assert(out@ + seq![] =~= seq![]);
    loop
        invariant
            img.wf(),
            cs == img.spec_cluster_size(),
            cs > 0,
            whole == chain_content(img, entry.cluster_index(), entry.byte_size() as nat),
            whole == prepend(out@, chain_content(img, cluster, remaining as nat)),
        decreases remaining,
    {
        let ghost rest = chain_content(img, cluster, remaining as nat);
        if remaining == 0 {
            assert(out@ + seq![] =~= out@);
            return Ok(out);
        }
        if cluster < 2 {
            return Err(FatError::ImageFormat);
        }
        let data = match img.read_cluster(cluster) {
            Ok(d) => d,
            Err(e) => {
                return Err(e);
            },
        };
        if remaining <= cs {
            append_prefix(&mut out, &data, remaining as usize);
            return Ok(out);
        }
        let ghost before = out@;
        append_prefix(&mut out, &data, cs as usize);
        assert(data@.take(cs as int) =~= data@);
        let next = match img.next_cluster(cluster) {
            Ok(n) => n,
            Err(e) => {
                return Err(e);
            },
        };
        if next >= END_OF_CHAIN {
            return Ok(out);
        }
        proof {
            lemma_prepend_twice(before, data@, chain_content(img, next, (remaining - cs) as nat));
        }
        remaining = remaining - cs;
        cluster = next;
    }
}

/// `b` stands for itself in the rendering: an ASCII byte that is whitespace
/// or not a control character.
pub open(crate) spec fn is_literal(b: u8) -> bool {
    b < 0x80 && (is_space(b) || !(b < 0x20 || b == 0x7F))
}

/// The uppercase hexadecimal digit of `n`, which is below 16.
pub open(crate) spec fn hex_digit(n: u8) -> u8 {
    if n < 10 { (0x30 + n) as u8 } else { (0x41 + n - 10) as u8 }
}

/// How one byte is rendered: itself, or a backslash and two hex digits.
pub open(crate) spec fn escape(b: u8) -> Seq<u8> {
    if is_literal(b) {
        seq![b]
    } else {
        seq![0x5Cu8, hex_digit(b / 16), hex_digit(b % 16)]
    }
}

/// The rendering of a byte string, byte by byte.
pub open(crate) spec fn escape_all(s: Seq<u8>) -> Seq<u8>
    decreases s.len(),
{
    if s.len() == 0 {
        seq![]
    } else {
        escape_all(s.drop_last()) + escape(s.last())
    }
}

fn hex_digit_of(n: u8) -> (r: u8)
    requires
        n < 16,
    ensures
        r == hex_digit(n),
{
    if n < 10 { 0x30 + n } else { 0x41 + n - 10 }
}

/// Renders `b` for a text display: ASCII whitespace and printable ASCII stand
/// as they are; every other byte becomes `\` followed by two uppercase hex digits.
pub fn escape_bytes(b: &[u8]) -> (r: Vec<u8>)
    ensures
        r@ == escape_all(b@),
{
    let mut out: Vec<u8> = Vec::new();
    let mut i: usize = 0;
    while i < b.len()
        invariant
            i <= b@.len(),
            out@ == escape_all(b@.take(i as int)),
        decreases b@.len() - i,
    {
        let x = b[i];
        let literal = x < 0x80 && (byte_is_space(x) || !(x < 0x20 || x == 0x7F));
        if literal {
            out.push(x);
        } else {
            out.push(0x5C);
            out.push(hex_digit_of(x / 16));
            out.push(hex_digit_of(x % 16));
        }
        assert(b@.take(i + 1).drop_last() =~= b@.take(i as int));
        i = i + 1;
        assert(out@ =~= escape_all(b@.take(i as int)));
    }
    assert(b@.take(i as int) =~= b@);
    out
}

} // verus!
