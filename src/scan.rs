//! The root-directory scan: which slots are listed, and which file is dumped.
use vstd::prelude::*;
use crate::dir::{decoded_from, DirEntry};
use crate::fat::{Fat16Img, FatError, ENTRY_BUF_SIZE};

verus! {

/// First byte of the name of root slot `k`.
pub open(crate) spec fn lead_byte(img: &Fat16Img, k: int) -> u8 {
    img.bytes()[img.root_slot_pos(k)]
}

/// Attribute byte of root slot `k`.
pub open(crate) spec fn attr_byte(img: &Fat16Img, k: int) -> u8 {
    img.bytes()[img.root_slot_pos(k) + 11]
}

/// Root slot `k` is a live short entry: neither deleted nor a long-name record.
pub open(crate) spec fn shown_at(img: &Fat16Img, k: int) -> bool {
    lead_byte(img, k) != 0xE5 && attr_byte(img, k) & 0x0F != 0x0F
}

/// Number of batches that the scan may read: at least one, and enough to
/// cover the declared number of root entries.
pub open(crate) spec fn batch_count(img: &Fat16Img) -> int {
    let n = img.geometry().spec_root_dir_entries();
    if n == 0 { 1 } else { (n + 7) / 8 }
}

/// Number of slots that the scan may read.
pub open(crate) spec fn slot_count(img: &Fat16Img) -> int {
    8 * batch_count(img)
}

/// The first slot from `k` on whose name starts with 0x00, or `n`.
pub open(crate) spec fn first_free(img: &Fat16Img, k: int, n: int) -> int
    decreases n - k,
{
    if k >= n {
        n
    } else if lead_byte(img, k) == 0 {
        k
    } else {
        first_free(img, k + 1, n)
    }
}

/// The slots from `k` on, before the first free one and below `n`, that the
/// listing shows, in order.
pub open(crate) spec fn listed_from(img: &Fat16Img, k: int, n: int) -> Seq<int>
    decreases n - k,
{
    if k >= n || lead_byte(img, k) == 0 {
        seq![]
    } else if shown_at(img, k) {
        seq![k] + listed_from(img, k + 1, n)
    } else {
        listed_from(img, k + 1, n)
    }
}

/// The root slots that the listing shows.
pub open(crate) spec fn listed_slots(img: &Fat16Img) -> Seq<int> {
    listed_from(img, 0, slot_count(img))
}

/// The batch in which the scan stops: the one that holds the first free slot,
/// or else the last one.
pub open(crate) spec fn last_batch(img: &Fat16Img) -> int {
    let t = first_free(img, 0, slot_count(img));
    if t < slot_count(img) { t / 8 } else { batch_count(img) - 1 }
}

/// Every batch that the scan reads lies inside the image.
pub open(crate) spec fn scan_in_bounds(img: &Fat16Img) -> bool {
    img.root_slot_pos(8 * (last_batch(img) + 1)) <= img.bytes().len()
}

/// Each slot that the listing shows is live, lies in `[k, n)`, and comes
/// before the first free slot: nothing after that slot is ever listed.
pub proof fn lemma_listed_are_shown(img: &Fat16Img, k: int, n: int)
    ensures
        forall|j: int|
            0 <= j < listed_from(img, k, n).len() ==> {
                let s = #[trigger] listed_from(img, k, n)[j];
                &&& shown_at(img, s)
                &&& lead_byte(img, s) != 0
                &&& k <= s < n
                &&& s < first_free(img, k, n)
            },
    decreases n - k,
{
    if k < n && lead_byte(img, k) != 0 {
        lemma_listed_are_shown(img, k + 1, n);
        lemma_first_free_range(img, k + 1, n);
        let rest = listed_from(img, k + 1, n);
        if !shown_at(img, k) {
            assert(listed_from(img, k, n) == rest);
        } else {
            assert(listed_from(img, k, n) == seq![k] + rest);
            assert forall|j: int| 0 <= j < listed_from(img, k, n).len() implies {
                let s = #[trigger] listed_from(img, k, n)[j];
                &&& shown_at(img, s)
                &&& lead_byte(img, s) != 0
                &&& k <= s < n
                &&& s < first_free(img, k, n)
            } by {
                if j > 0 {
                    assert(listed_from(img, k, n)[j] == rest[j - 1]);
                }
            }
        }
    }
}

/// The first free slot from `k` on lies in `[k, n]`.
proof fn lemma_first_free_range(img: &Fat16Img, k: int, n: int)
    requires
        k <= n,
    ensures
        k <= first_free(img, k, n) <= n,
    decreases n - k,
{
    if k < n && lead_byte(img, k) != 0 {
        lemma_first_free_range(img, k + 1, n);
    }
}

/// Scans the root directory batch by batch, up to the first free slot or the
/// declared number of entries, and returns the live short entries in order.
pub fn scan_root_dir(img: &Fat16Img) -> (r: Result<Vec<DirEntry>, FatError>)
    requires
        img.wf(),
    ensures
        r is Ok <==> scan_in_bounds(img),
        r matches Err(e) ==> e == FatError::Io,
        r matches Ok(v) ==> {
            &&& v@.len() == listed_slots(img).len()
            &&& forall|j: int|
                0 <= j < v@.len() ==> decoded_from(
                    #[trigger] v@[j],
                    img.bytes(),
                    img.root_slot_pos(listed_slots(img)[j]),
                )
            &&& forall|j: int|
                0 <= j < v@.len() ==> (#[trigger] v@[j]).name_bytes()[0] != 0xE5
                    && !v@[j].is_lfn()
        },
{
    let ghost n = slot_count(img);
    let rde = img.root_dir_entries() as u64;
    let mut out: Vec<DirEntry> = Vec::new();
    let ghost mut idx: Seq<int> = seq![];
    let mut start: u64 = 0;
    loop
        invariant
            img.wf(),
            n == slot_count(img),
            rde == img.geometry().spec_root_dir_entries(),
            start % 8 == 0,
            start == 0 || start < rde,
            first_free(img, 0, n) == first_free(img, start as int, n),
            listed_slots(img) == idx + listed_from(img, start as int, n),
            out@.len() == idx.len(),
            forall|j: int|
                0 <= j < out@.len() ==> decoded_from(#[trigger] out@[j], img.bytes(), img.root_slot_pos(idx[j])),
            forall|j: int|
                0 <= j < out@.len() ==> (#[trigger] out@[j]).name_bytes()[0] != 0xE5 && !out@[j].is_lfn(),
        decreases n - start,
    {
        assert(start + 8 <= n);
        let es = match img.read_root_dir(start) {
            Ok(es) => es,
            Err(e) => {
                proof {
                    lemma_first_free_range(img, start as int, n);
                    let t = first_free(img, 0, n);
                    assert(last_batch(img) >= start / 8) by {
                        if t < n {
                            assert(t / 8 >= start / 8) by (nonlinear_arith)
                                requires
                                    t >= start,
                            ;
                        }
                    }
                }
                return Err(e);
            },
        };
        let mut k: usize = 0;
        while k < ENTRY_BUF_SIZE
            invariant
                img.wf(),
                n == slot_count(img),
                start + 8 <= n,
                k <= 8,
                first_free(img, 0, n) == first_free(img, start + k, n),
                listed_slots(img) == idx + listed_from(img, start + k, n),
                out@.len() == idx.len(),
                forall|j: int|
                    0 <= j < out@.len() ==> decoded_from(#[trigger] out@[j], img.bytes(), img.root_slot_pos(idx[j])),
                forall|j: int|
                    0 <= j < ENTRY_BUF_SIZE ==> decoded_from(#[trigger] es@[j], img.bytes(), img.root_slot_pos(start + j)),
                start % 8 == 0,
                img.root_slot_pos(start + 8) <= img.bytes().len(),
                forall|j: int|
                    0 <= j < out@.len() ==> (#[trigger] out@[j]).name_bytes()[0] != 0xE5 && !out@[j].is_lfn(),
            decreases 8 - k,
        {
            let e = es[k];
            assert(decoded_from(e, img.bytes(), img.root_slot_pos(start + k)));
            let name = e.name();
            let lead = name[0];
            assert(lead == e.name_bytes()[0]);
            assert(lead == lead_byte(img, start + k));
            if lead == 0 {
                proof {
                    assert(first_free(img, 0, n) == start + k);
                    assert((start + k) / 8 == start / 8) by (nonlinear_arith)
                        requires
                            start % 8 == 0,
                            0 <= k < 8,
                    ;
                    assert(listed_from(img, start + k, n) =~= seq![]);
                    assert(listed_slots(img) =~= idx);
                }
                return Ok(out);
            }
            if lead != 0xE5 && !e.attr_lfn() {
                assert(shown_at(img, start + k));
                assert(listed_from(img, start + k, n) == seq![start + k] + listed_from(img, start + k + 1, n));
                proof {
                    idx = idx + seq![start + k];
                    assert(listed_slots(img) =~= idx + listed_from(img, start + k + 1, n));
                }
                out.push(e);
            } else {
                assert(listed_from(img, start + k, n) == listed_from(img, start + k + 1, n));
            }
            k = k + 1;
        }
        start = start + 8;
        if start >= rde {
            proof {
                let rde_i = rde as int;
                let b = (start - 8) / 8;
                assert(batch_count(img) == b + 1) by (nonlinear_arith)
                    requires
                        start % 8 == 0,
                        start >= 8,
                        b == (start - 8) / 8,
                        rde_i == img.geometry().spec_root_dir_entries(),
                        start - 8 == 0 || start - 8 < rde_i,
                        start >= rde_i,
                        rde_i >= 0,
                        batch_count(img) == (if rde_i == 0 { 1 } else { (rde_i + 7) / 8 }),
                ;
                assert(start == n);
                assert(listed_from(img, start as int, n) =~= seq![]);
                assert(listed_slots(img) =~= idx);
            }
            return Ok(out);
        }
    }
}

/// The file whose content is shown: the first entry with the archive bit set.
pub fn first_archived(entries: &Vec<DirEntry>) -> (r: Option<DirEntry>)
    ensures
        r is None <==> forall|i: int| 0 <= i < entries@.len() ==> !(#[trigger] entries@[i]).has_attr(0x20),
        r matches Some(e) ==> exists|i: int|
            0 <= i < entries@.len() && #[trigger] entries@[i] == e && e.has_attr(0x20)
                && forall|j: int| 0 <= j < i ==> !(#[trigger] entries@[j]).has_attr(0x20),
{
    let mut i: usize = 0;
    while i < entries.len()
        invariant
            i <= entries@.len(),
            forall|j: int| 0 <= j < i ==> !(#[trigger] entries@[j]).has_attr(0x20),
        decreases entries@.len() - i,
    {
        if entries[i].attr_archive() {
            return Some(entries[i]);
        }
        i = i + 1;
    }
    None
}

} // verus!
