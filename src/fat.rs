//! Boot-sector geometry, FAT lookups and cluster reads over an image in memory.
use vstd::prelude::*;
use crate::bytes::{le16, read_u16_le};
use crate::dir::{decoded_from, DirEntry};

verus! {

/// Why an image could not be inspected.
#[derive(Debug, Clone, Copy, PartialEq, Eq, Structural)]
pub enum FatError {
    /// The boot sector is too short or declares an unusable geometry.
    ImageFormat,
    /// A read reached past the end of the image.
    Io,
}

/// Size in bytes of the boot-sector record that holds the geometry.
pub const BOOT_RECORD_SIZE: usize = 36;

/// Number of directory slots read at a time.
pub const ENTRY_BUF_SIZE: usize = 8;

/// The geometry fields of a FAT16 boot sector.
#[derive(Debug, Clone, Copy)]
pub struct BootRecord {
    pub(crate) bytes_per_sector: u16,
    pub(crate) sectors_per_cluster: u8,
    pub(crate) reserved_sectors: u16,
    pub(crate) fat_count: u8,
    pub(crate) root_dir_entries: u16,
    pub(crate) sectors_per_fat: u16,
}

/// `br` holds the geometry fields of the boot sector at the start of `b`.
pub open(crate) spec fn boot_decoded_from(br: BootRecord, b: Seq<u8>) -> bool {
    &&& br.bytes_per_sector == le16(b, 11)
    &&& br.sectors_per_cluster == b[13]
    &&& br.reserved_sectors == le16(b, 14)
    &&& br.fat_count == b[16]
    &&& br.root_dir_entries == le16(b, 17)
    &&& br.sectors_per_fat == le16(b, 22)
}

/// The boot sector at the start of `b` can be decoded into a usable geometry.
pub open(crate) spec fn boot_usable(b: Seq<u8>) -> bool {
    &&& b.len() >= BOOT_RECORD_SIZE
    &&& le16(b, 11) != 0
    &&& b[13] != 0
}

impl BootRecord {
    /// Neither sectors nor clusters are empty.
    pub open(crate) spec fn valid(self) -> bool {
        self.bytes_per_sector != 0 && self.sectors_per_cluster != 0
    }

    pub open(crate) spec fn spec_cluster_size(self) -> int {
        self.bytes_per_sector * self.sectors_per_cluster
    }

    pub open(crate) spec fn spec_fat_table_offset(self) -> int {
        self.reserved_sectors * self.bytes_per_sector
    }

    /// Sectors taken by the root directory, rounded up.
    pub open(crate) spec fn spec_root_dir_sectors(self) -> int {
        (self.root_dir_entries * 32 + self.bytes_per_sector - 1) / (self.bytes_per_sector as int)
    }

    pub open(crate) spec fn spec_root_dir_offset(self) -> int {
        (self.reserved_sectors + self.fat_count * self.sectors_per_fat) * self.bytes_per_sector
    }

    pub open(crate) spec fn spec_data_region_offset(self) -> int {
        (self.reserved_sectors + self.fat_count * self.sectors_per_fat
            + self.spec_root_dir_sectors()) * self.bytes_per_sector
    }

    pub open(crate) spec fn spec_root_dir_entries(self) -> u16 {
        self.root_dir_entries
    }

    pub open(crate) spec fn spec_bytes_per_sector(self) -> u16 {
        self.bytes_per_sector
    }

    pub open(crate) spec fn spec_sectors_per_cluster(self) -> u8 {
        self.sectors_per_cluster
    }

    pub open(crate) spec fn spec_reserved_sectors(self) -> u16 {
        self.reserved_sectors
    }

    pub open(crate) spec fn spec_fat_count(self) -> u8 {
        self.fat_count
    }

    pub open(crate) spec fn spec_sectors_per_fat(self) -> u16 {
        self.sectors_per_fat
    }

    /// Decodes the geometry from the boot sector at the start of `b`.
    pub fn parse(b: &[u8]) -> (r: Result<BootRecord, FatError>)
        ensures
            r is Ok <==> boot_usable(b@),
            r matches Ok(br) ==> boot_decoded_from(br, b@) && br.valid(),
            r matches Err(e) ==> e == FatError::ImageFormat,
    {
        if b.len() < BOOT_RECORD_SIZE {
            return Err(FatError::ImageFormat);
        }
        let br = BootRecord {
            bytes_per_sector: read_u16_le(b, 11),
            sectors_per_cluster: b[13],
            reserved_sectors: read_u16_le(b, 14),
            fat_count: b[16],
            root_dir_entries: read_u16_le(b, 17),
            sectors_per_fat: read_u16_le(b, 22),
        };
        if br.bytes_per_sector == 0 || br.sectors_per_cluster == 0 {
            return Err(FatError::ImageFormat);
        }
        Ok(br)
    }

    /// Bytes in one sector.
    pub fn bytes_per_sector(&self) -> (r: u16)
        ensures
            r == self.spec_bytes_per_sector(),
    {
        self.bytes_per_sector
    }

    /// Sectors in one cluster.
    pub fn sectors_per_cluster(&self) -> (r: u8)
        ensures
            r == self.spec_sectors_per_cluster(),
    {
        self.sectors_per_cluster
    }

    /// Sectors before the first FAT.
    pub fn reserved_sectors(&self) -> (r: u16)
        ensures
            r == self.spec_reserved_sectors(),
    {
        self.reserved_sectors
    }

    /// Number of FAT copies.
    pub fn fat_count(&self) -> (r: u8)
        ensures
            r == self.spec_fat_count(),
    {
        self.fat_count
    }

    /// Number of slots in the root directory.
    pub fn root_dir_entries(&self) -> (r: u16)
        ensures
            r == self.spec_root_dir_entries(),
    {
        self.root_dir_entries
    }

    /// Sectors taken by one FAT.
    pub fn sectors_per_fat(&self) -> (r: u16)
        ensures
            r == self.spec_sectors_per_fat(),
    {
        self.sectors_per_fat
    }

    /// Bytes in one cluster.
    pub fn cluster_size(&self) -> (r: u64)
        ensures
            r == self.spec_cluster_size(),
            r <= 65535 * 255,
    {
        let bps = self.bytes_per_sector as u64;
        let spc = self.sectors_per_cluster as u64;
        assert(bps * spc <= 65535 * 255) by (nonlinear_arith)
            requires
                bps <= 65535,
                spc <= 255,
        ;
        bps * spc
    }

    /// Byte offset of the first FAT.
    pub fn fat_table_offset(&self) -> (r: u64)
        ensures
            r == self.spec_fat_table_offset(),
            r <= 65535 * 65535,
    {
        let rs = self.reserved_sectors as u64;
        let bps = self.bytes_per_sector as u64;
        assert(rs * bps <= 65535 * 65535) by (nonlinear_arith)
            requires
                rs <= 65535,
                bps <= 65535,
        ;
        rs * bps
    }

    /// Sectors taken by the root directory, rounded up.
    pub fn root_dir_sectors(&self) -> (r: u64)
        requires
            self.valid(),
        ensures
            r == self.spec_root_dir_sectors(),
            r <= 65535 * 33,
    {
        let bps = self.bytes_per_sector as u64;
        let n = self.root_dir_entries as u64 * 32 + bps - 1;
        assert(n / bps <= n) by (nonlinear_arith)
            requires
                bps >= 1,
                n >= 0,
        ;
        n / bps
    }

    /// Byte offset of the root directory.
    pub fn root_dir_offset(&self) -> (r: u64)
        ensures
            r == self.spec_root_dir_offset(),
            r <= 0x1_0000_0000 * 65535,
    {
        let fats = self.fat_count as u64;
        let spf = self.sectors_per_fat as u64;
        assert(fats * spf <= 255 * 65535) by (nonlinear_arith)
            requires
                fats <= 255,
                spf <= 65535,
        ;
        let sectors = self.reserved_sectors as u64 + fats * spf;
        let bps = self.bytes_per_sector as u64;
        assert(sectors * bps <= 0x1_0000_0000 * 65535) by (nonlinear_arith)
            requires
                sectors <= 0x1_0000_0000,
                bps <= 65535,
        ;
        sectors * bps
    }

    /// Byte offset of the data region, where cluster 2 starts.
    pub fn data_region_offset(&self) -> (r: u64)
        requires
            self.valid(),
        ensures
            r == self.spec_data_region_offset(),
            r <= 0x1_0000_0000 * 65535,
    {
        let fats = self.fat_count as u64;
        let spf = self.sectors_per_fat as u64;
        assert(fats * spf <= 255 * 65535) by (nonlinear_arith)
            requires
                fats <= 255,
                spf <= 65535,
        ;
        let sectors = self.reserved_sectors as u64 + fats * spf + self.root_dir_sectors();
        let bps = self.bytes_per_sector as u64;
        assert(sectors * bps <= 0x1_0000_0000 * 65535) by (nonlinear_arith)
            requires
                sectors <= 0x1_0000_0000,
                bps <= 65535,
        ;
        sectors * bps
    }
}

/// The data region starts right after the root directory, which takes the
/// least whole number of sectors that holds all its 32-byte slots.
pub proof fn lemma_data_region_follows_root_dir(br: BootRecord)
    requires
        br.valid(),
    ensures
        ({
            let s = br.spec_root_dir_sectors();
            let bps = br.spec_bytes_per_sector();
            let n = br.spec_root_dir_entries() * 32;
            &&& br.spec_data_region_offset() == br.spec_root_dir_offset() + s * bps
            &&& s * bps >= n
            &&& (s - 1) * bps < n
        }),
{
    let bps = br.bytes_per_sector as int;
    let n = br.root_dir_entries * 32;
    let s = br.spec_root_dir_sectors();
    let a = br.reserved_sectors + br.fat_count * br.sectors_per_fat;
    assert((a + s) * bps == a * bps + s * bps) by (nonlinear_arith);
    assert(s * bps >= n && (s - 1) * bps < n) by (nonlinear_arith)
        requires
            bps >= 1,
            n >= 0,
            s == (n + bps - 1) / bps,
    ;
}


/// A FAT16 image held in memory, with its decoded geometry.
pub struct Fat16Img {
    pub(crate) img: Vec<u8>,
    pub(crate) boot: BootRecord,
    pub(crate) cluster_size: u64,
    pub(crate) offset_fat1: u64,
    pub(crate) offset_root: u64,
    pub(crate) offset_data: u64,
}

impl Fat16Img {
    pub open(crate) spec fn bytes(&self) -> Seq<u8> {
        self.img@
    }

    pub open(crate) spec fn geometry(&self) -> BootRecord {
        self.boot
    }

    /// The cached offsets agree with the geometry, which is usable.
    pub open(crate) spec fn wf(&self) -> bool {
        &&& self.boot.valid()
        &&& self.cluster_size == self.boot.spec_cluster_size()
        &&& self.offset_fat1 == self.boot.spec_fat_table_offset()
        &&& self.offset_root == self.boot.spec_root_dir_offset()
        &&& self.offset_data == self.boot.spec_data_region_offset()
        &&& self.cluster_size <= 65535 * 255
        &&& self.offset_fat1 <= 65535 * 65535
        &&& self.offset_root <= 0x1_0000_0000 * 65535
        &&& self.offset_data <= 0x1_0000_0000 * 65535
    }

    pub open(crate) spec fn spec_cluster_size(&self) -> int {
        self.boot.spec_cluster_size()
    }

    /// Where the FAT slot of `cluster` starts.
    pub open(crate) spec fn fat_pos(&self, cluster: u16) -> int {
        self.boot.spec_fat_table_offset() + 2 * cluster
    }

    pub open(crate) spec fn fat_in_bounds(&self, cluster: u16) -> bool {
        self.fat_pos(cluster) + 2 <= self.img@.len()
    }

    /// The FAT slot of `cluster`: the index of the cluster that follows it.
    pub open(crate) spec fn fat_entry(&self, cluster: u16) -> u16 {
        le16(self.img@, self.fat_pos(cluster))
    }

    /// Where data cluster `cluster` starts.
    pub open(crate) spec fn cluster_pos(&self, cluster: u16) -> int {
        self.boot.spec_data_region_offset() + (cluster - 2) * self.spec_cluster_size()
    }

    pub open(crate) spec fn cluster_in_bounds(&self, cluster: u16) -> bool {
        self.cluster_pos(cluster) + self.spec_cluster_size() <= self.img@.len()
    }

    /// The bytes of data cluster `cluster`.
    pub open(crate) spec fn cluster_bytes(&self, cluster: u16) -> Seq<u8> {
        self.img@.subrange(self.cluster_pos(cluster), self.cluster_pos(cluster) + self.spec_cluster_size())
    }

    /// Where slot `index` of the root directory starts.
    pub open(crate) spec fn root_slot_pos(&self, index: int) -> int {
        self.boot.spec_root_dir_offset() + 32 * index
    }

    /// Opens an image: decodes its boot sector and derives the region offsets.
    pub fn new(img: Vec<u8>) -> (r: Result<Fat16Img, FatError>)
        ensures
            r is Ok <==> boot_usable(img@),
            r matches Ok(f) ==> f.wf() && f.bytes() == img@ && boot_decoded_from(f.geometry(), img@),
            r matches Err(e) ==> e == FatError::ImageFormat,
    {
        let boot = match BootRecord::parse(img.as_slice()) {
            Ok(b) => b,
            Err(e) => return Err(e),
        };
        let cluster_size = boot.cluster_size();
        let offset_fat1 = boot.fat_table_offset();
        let offset_root = boot.root_dir_offset();
        let offset_data = boot.data_region_offset();
        Ok(Fat16Img { img, boot, cluster_size, offset_fat1, offset_root, offset_data })
    }

    /// The geometry decoded from the boot sector.
    pub fn boot_record(&self) -> (r: BootRecord)
        ensures
            r == self.geometry(),
    {
        self.boot
    }

    /// Number of root-directory slots that the boot sector declares.
    pub fn root_dir_entries(&self) -> (r: u16)
        ensures
            r == self.geometry().spec_root_dir_entries(),
    {
        self.boot.root_dir_entries
    }

    /// Looks up in the FAT the cluster that follows `cluster`. The value is
    /// returned as stored; values from 0xFFF8 up mark the end of a chain.
    pub fn next_cluster(&self, cluster: u16) -> (r: Result<u16, FatError>)
        requires
            self.wf(),
        ensures
            r is Ok <==> self.fat_in_bounds(cluster),
            r matches Ok(n) ==> n == self.fat_entry(cluster),
            r matches Err(e) ==> e == FatError::Io,
    {
        let pos = self.offset_fat1 + cluster as u64 * 2;
        if pos + 2 > self.img.len() as u64 {
            return Err(FatError::Io);
        }
        Ok(read_u16_le(self.img.as_slice(), pos as usize))
    }

    /// Reads the batch of slots that starts `start` slots after byte `offset`.
    pub fn read_dir(&self, offset: u64, start: u64) -> (r: Result<[DirEntry; ENTRY_BUF_SIZE], FatError>)
        ensures
            r is Ok <==> offset + 32 * start + 32 * ENTRY_BUF_SIZE <= self.bytes().len(),
            r matches Ok(es) ==> forall|k: int|
                0 <= k < ENTRY_BUF_SIZE ==> decoded_from(#[trigger] es@[k], self.bytes(), offset + 32 * (start + k)),
            r matches Err(e) ==> e == FatError::Io,
    {
        let pos: u128 = offset as u128 + start as u128 * 32;
        if pos + 256 > self.img.len() as u128 {
            return Err(FatError::Io);
        }
        let p = pos as usize;
        let b = self.img.as_slice();
        let es = [
            DirEntry::decode(b, p),
            DirEntry::decode(b, p + 32),
            DirEntry::decode(b, p + 64),
            DirEntry::decode(b, p + 96),
            DirEntry::decode(b, p + 128),
            DirEntry::decode(b, p + 160),
            DirEntry::decode(b, p + 192),
            DirEntry::decode(b, p + 224),
        ];
        Ok(es)
    }

    /// Reads the batch of root-directory slots that starts at slot `start`.
    pub fn read_root_dir(&self, start: u64) -> (r: Result<[DirEntry; ENTRY_BUF_SIZE], FatError>)
        requires
            self.wf(),
        ensures
            r is Ok <==> self.root_slot_pos(start + ENTRY_BUF_SIZE) <= self.bytes().len(),
            r matches Ok(es) ==> forall|k: int|
                0 <= k < ENTRY_BUF_SIZE ==> decoded_from(#[trigger] es@[k], self.bytes(), self.root_slot_pos(start + k)),
            r matches Err(e) ==> e == FatError::Io,
    {
        self.read_dir(self.offset_root, start)
    }

    /// Copies out the bytes of data cluster `cluster`.
    pub fn read_cluster(&self, cluster: u16) -> (r: Result<Vec<u8>, FatError>)
        requires
            self.wf(),
            cluster >= 2,
        ensures
            r is Ok <==> self.cluster_in_bounds(cluster),
            r matches Ok(v) ==> v@ == self.cluster_bytes(cluster),
            r matches Err(e) ==> e == FatError::Io,
    {
        let cs = self.cluster_size;
        let k = (cluster - 2) as u64;
        assert(k * cs <= 65535 * (65535 * 255)) by (nonlinear_arith)
            requires
                k <= 65535,
                cs <= 65535 * 255,
        ;
        let pos = self.offset_data + k * cs;
        let len: usize = self.img.len();
        if pos + cs > len as u64 {
            return Err(FatError::Io);
        }
        let mut out: Vec<u8> = Vec::new();
        let mut i: u64 = 0;
        while i < cs
            invariant
                i <= cs,
                pos + cs <= len,
                len == self.img@.len(),
                out@ == self.img@.subrange(pos as int, pos + i),
            decreases cs - i,
        {
            let x = self.img[(pos + i) as usize];
            proof {
                let prev = out@;
                assert(prev.push(x) =~= self.img@.subrange(pos as int, pos + i + 1));
            }
            out.push(x);
            i = i + 1;
        }
        Ok(out)
    }
}

} // verus!
