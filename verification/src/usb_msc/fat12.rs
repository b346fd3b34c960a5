//! Virtual FAT12 disk with a single `DSP.CFG` file.
//!
//! ```text
//! Sector 0:     boot sector, read-only
//! Sector 1:     FAT
//! Sector 2:     root directory (16 entries of 32 bytes)
//! Sectors 3-63: data (61 sectors)
//! ```
//!
//! The host manages FAT and root directory freely. On eject, the file is found
//! by the root directory that the host wrote.

use vstd::prelude::*;

use crate::bytes::{put, read_le16, read_le32};
use crate::storage::copy_bytes;

verus! {

/// Size of a sector.
pub const BLOCK_SIZE: usize = 512;

/// Sectors of the disk.
pub const TOTAL_SECTORS: usize = 64;

/// First data sector.
pub const DATA_START_SECTOR: u32 = 3;

/// Size of the data area.
pub const MAX_FILE_SIZE: usize = 31232;

/// `OTTERAMP`, padded.
pub const VOLUME_LABEL: [u8; 11] = [
    0x4F,
    0x54,
    0x54,
    0x45,
    0x52,
    0x41,
    0x4D,
    0x50,
    0x20,
    0x20,
    0x20,
];

/// `DSP.CFG` as an 8.3 name.
pub const FILE_NAME: [u8; 11] = [
    0x44,
    0x53,
    0x50,
    0x20,
    0x20,
    0x20,
    0x20,
    0x20,
    0x43,
    0x46,
    0x47,
];

/// First 62 bytes of the boot sector: jump code, OEM name `OTTERAMP`, 512 bytes
/// per sector, 1 sector per cluster, 1 reserved sector, 1 FAT, 16 root
/// directory entries, 64 sectors, media F8, 1 sector per FAT, 1 sector per
/// track, 1 head, drive 0, boot signature 29, serial number 12345678, volume
/// label `OTTERAMP`, type `FAT12`.
pub const BOOT_FIELDS: [u8; 62] = [
    0xEB, 0x3C, 0x90, 0x4F, 0x54, 0x54, 0x45, 0x52, 0x41, 0x4D, 0x50, 0x00, 0x02, 0x01, 0x01, 0x00,
    0x01, 0x10, 0x00, 0x40, 0x00, 0xF8, 0x01, 0x00, 0x01, 0x00, 0x01, 0x00, 0x00, 0x00, 0x00, 0x00,
    0x00, 0x00, 0x00, 0x00, 0x00, 0x00, 0x29, 0x78, 0x56, 0x34, 0x12, 0x4F, 0x54, 0x54, 0x45, 0x52,
    0x41, 0x4D, 0x50, 0x20, 0x20, 0x20, 0x46, 0x41, 0x54, 0x31, 0x32, 0x20, 0x20, 0x20,
];

/// The disk as the host sees it.
#[verifier::ext_equal]
pub struct DiskModel {
    pub fat: Seq<u8>,
    pub root: Seq<u8>,
    pub data: Seq<u8>,
    /// Whether the host wrote anything.
    pub dirty: bool,
    /// Whether the disk was ejected.
    pub ejected: bool,
}

pub open spec fn zeros(n: nat) -> Seq<u8> {
    Seq::new(n, |i: int| 0u8)
}

/// The boot sector.
pub open spec fn boot_sector() -> Seq<u8> {
    Seq::new(
        512,
        |i: int|
            if i < 62 {
                BOOT_FIELDS@[i]
            } else if i == 510 {
                0x55
            } else if i == 511 {
                0xAA
            } else {
                0
            },
    )
}

/// A 12-bit FAT entry: entries lie in one and a half bytes each, the even one
/// of a pair first.
pub open spec fn fat_entry(fat: Seq<u8>, cluster: int) -> int {
    let n = cluster * 3 / 2;
    if cluster % 2 == 0 {
        fat[n] + fat[n + 1] % 16 * 256
    } else {
        fat[n] / 16 + fat[n + 1] * 16
    }
}

/// A FAT with another entry; one that does not lie whole in it is ignored.
pub open spec fn fat_with(fat: Seq<u8>, cluster: int, value: int) -> Seq<u8> {
    let n = cluster * 3 / 2;
    if n + 1 >= fat.len() {
        fat
    } else if cluster % 2 == 0 {
        fat.update(n, (value % 256) as u8).update(
            n + 1,
            (fat[n + 1] - fat[n + 1] % 16 + value / 256 % 16) as u8,
        )
    } else {
        fat.update(n, (fat[n] % 16 + value % 16 * 16) as u8).update(
            n + 1,
            (value / 16 % 256) as u8,
        )
    }
}

/// Clusters of a file.
pub open spec fn clusters_of(size: int) -> int {
    (size + 511) / 512
}

/// The FAT with the first `n` links of a chain of `clusters` from cluster 2 on.
pub open spec fn chain(clusters: int, n: int) -> Seq<u8>
    decreases n,
{
    if n <= 0 {
        zeros(512).update(0, 0xF8).update(1, 0xFF).update(2, 0xFF)
    } else {
        fat_with(
            chain(clusters, n - 1),
            n + 1,
            if n < clusters {
                n + 2
            } else {
                0xFFF
            },
        )
    }
}

/// The FAT of a disk that holds a file of `size` bytes.
pub open spec fn initial_fat(size: int) -> Seq<u8> {
    chain(clusters_of(size), clusters_of(size))
}

/// The root directory of a disk that holds a file of `size` bytes: the volume
/// label and the file, from cluster 2 on.
pub open spec fn initial_root(size: int) -> Seq<u8> {
    Seq::new(
        512,
        |i: int|
            if i < 11 {
                VOLUME_LABEL@[i]
            } else if i == 11 {
                0x08
            } else if 32 <= i < 43 {
                FILE_NAME@[i - 32]
            } else if i == 43 {
                0x20
            } else if i == 58 {
                0x02
            } else if i == 60 {
                (size % 0x100) as u8
            } else if i == 61 {
                (size / 0x100 % 0x100) as u8
            } else {
                0
            },
    )
}

/// The part of a file that fits the disk.
pub open spec fn fitting(file: Seq<u8>) -> Seq<u8> {
    if file.len() <= MAX_FILE_SIZE {
        file
    } else {
        file.take(MAX_FILE_SIZE as int)
    }
}

/// Directory entry `i` names the file and is in use.
pub open spec fn names_file(root: Seq<u8>, i: int) -> bool {
    &&& root[32 * i] != 0x00
    &&& root[32 * i] != 0xE5
    &&& root.subrange(32 * i, 32 * i + 11) == FILE_NAME@
}

/// First directory entry from `i` on that names the file; 16 if there is none.
pub open spec fn file_entry(root: Seq<u8>, i: int) -> int
    decreases 16 - i,
{
    if i >= 16 || names_file(root, i) {
        i
    } else {
        file_entry(root, i + 1)
    }
}

impl DiskModel {
    pub open spec fn wf(self) -> bool {
        self.fat.len() == 512 && self.root.len() == 512 && self.data.len() == MAX_FILE_SIZE
    }

    /// A disk with a file that the host has not touched yet.
    pub open spec fn fresh(file: Seq<u8>) -> DiskModel {
        let held = fitting(file);
        DiskModel {
            fat: initial_fat(held.len() as int),
            root: initial_root(held.len() as int),
            data: held + zeros((MAX_FILE_SIZE - held.len()) as nat),
            dirty: false,
            ejected: false,
        }
    }

    /// What the host reads from a sector.
    pub open spec fn sector(self, lba: int) -> Seq<u8> {
        if lba == 0 {
            boot_sector()
        } else if lba == 1 {
            self.fat
        } else if lba == 2 {
            self.root
        } else if lba < TOTAL_SECTORS {
            self.data.subrange(512 * (lba - 3), 512 * (lba - 3) + 512)
        } else {
            zeros(512)
        }
    }

    /// The disk after the host wrote a sector; the boot sector and sectors
    /// beyond the end cannot be written.
    pub open spec fn written(self, lba: int, block: Seq<u8>) -> DiskModel {
        if lba == 1 {
            DiskModel { fat: block, dirty: true, ..self }
        } else if lba == 2 {
            DiskModel { root: block, dirty: true, ..self }
        } else if 3 <= lba < TOTAL_SECTORS {
            DiskModel {
                data: crate::bytes::spliced(self.data, 512 * (lba - 3), block),
                dirty: true,
                ..self
            }
        } else {
            self
        }
    }

    /// The file that the root directory describes, if it is not empty and lies
    /// whole in the data area.
    pub open spec fn file(self) -> Option<Seq<u8>> {
        let i = file_entry(self.root, 0);
        let start = crate::bytes::from_le16(self.root, 32 * i + 26);
        let stated = crate::bytes::from_le32(self.root, 32 * i + 28);
        let size = if stated < MAX_FILE_SIZE {
            stated
        } else {
            MAX_FILE_SIZE as int
        };
        let offset = (start - 2) * 512;
        if i >= 16 || stated == 0 || start < 2 || offset + size > MAX_FILE_SIZE {
            None
        } else {
            Some(self.data.subrange(offset, offset + size))
        }
    }
}

/// Virtual FAT12 disk.
pub struct VirtualFat12 {
    fat_sector: [u8; BLOCK_SIZE],
    root_dir_sector: [u8; BLOCK_SIZE],
    file_data: [u8; MAX_FILE_SIZE],
    dirty: bool,
    ejected: bool,
}

impl View for VirtualFat12 {
    type V = DiskModel;

    closed spec fn view(&self) -> DiskModel {
        DiskModel {
            fat: self.fat_sector@,
            root: self.root_dir_sector@,
            data: self.file_data@,
            dirty: self.dirty,
            ejected: self.ejected,
        }
    }
}

impl VirtualFat12 {
    /// Every disk has its three areas, each of its size.
    pub proof fn law_areas(&self)
        ensures
            self@.wf(),
    {
    }

    /// A disk that holds `config`, as far as it fits.
    pub fn new(config: &[u8]) -> (vfs: Self)
        ensures
            vfs@ == DiskModel::fresh(config@),
    {
        let len: usize = if config.len() <= MAX_FILE_SIZE {
            config.len()
        } else {
            MAX_FILE_SIZE
        };
        let mut file_data: [u8; MAX_FILE_SIZE] = [0u8;MAX_FILE_SIZE];
        let held: &[u8] = &config[0..len];
        assert(held@ =~= fitting(config@));
        put(&mut file_data, 0, held);
        assert(file_data@ =~= DiskModel::fresh(config@).data);
        let vfs = VirtualFat12 {
            fat_sector: VirtualFat12::init_fat(len as u16),
            root_dir_sector: VirtualFat12::init_root_dir(len as u16),
            file_data,
            dirty: false,
            ejected: false,
        };
        assert(vfs@ =~= DiskModel::fresh(config@));
        vfs
    }

    /// Whether the disk was ejected.
    pub fn is_ejected(&self) -> (ejected: bool)
        ensures
            ejected == self@.ejected,
    {
        self.ejected
    }

    /// Reads a sector; beyond the end of the disk there are zeros.
    pub fn read_sector(&self, lba: u32, buf: &mut [u8; BLOCK_SIZE])
        ensures
            final(buf)@ == self@.sector(lba as int),
    {
        if lba == 0 {
            *buf = VirtualFat12::build_boot_sector();
        } else if lba == 1 {
            *buf = self.fat_sector;
        } else if lba == 2 {
            *buf = self.root_dir_sector;
        } else if lba < 64 {
            let offset: usize = (lba - DATA_START_SECTOR) as usize * BLOCK_SIZE;
            let block: &[u8] = &self.file_data[offset..offset + BLOCK_SIZE];
            put(buf, 0, block);
        } else {
            *buf = [0u8;BLOCK_SIZE];
        }
        assert(buf@ =~= self@.sector(lba as int));
    }

    /// Writes a sector.
    pub fn write_sector(&mut self, lba: u32, data: &[u8; BLOCK_SIZE])
        ensures
            final(self)@ == old(self)@.written(lba as int, data@),
    {
        if lba == 1 {
            self.fat_sector = *data;
            self.dirty = true;
        } else if lba == 2 {
            self.root_dir_sector = *data;
            self.dirty = true;
        } else if lba >= DATA_START_SECTOR && lba < 64 {
            let offset: usize = (lba - DATA_START_SECTOR) as usize * BLOCK_SIZE;
            put(&mut self.file_data, offset, data);
            self.dirty = true;
        }
        assert(self@ =~= old(self)@.written(lba as int, data@));
    }

    /// Ejects the disk. If the host wrote anything, returns the file to store,
    /// if there is one.
    pub fn flush(&mut self) -> (file: Option<Vec<u8>>)
        ensures
            final(self)@ == (DiskModel { dirty: false, ejected: true, ..old(self)@ }),
            match file {
                Some(file) => old(self)@.dirty && old(self)@.file() == Some(file@),
                None => !old(self)@.dirty || old(self)@.file() is None,
            },
    {
        let dirty: bool = self.dirty;
        self.dirty = false;
        self.ejected = true;
        if dirty {
            self.find_file()
        } else {
            None
        }
    }

    fn find_file(&self) -> (file: Option<Vec<u8>>)
        ensures
            match file {
                Some(file) => self@.file() == Some(file@),
                None => self@.file() is None,
            },
    {
        let mut i: usize = 0;
        while i < 16 && !is_file_entry(&self.root_dir_sector, i)
            invariant
                i <= 16,
                file_entry(self@.root, 0) == file_entry(self@.root, i as int),
            decreases 16 - i,
        {
            i = i + 1;
        }
        if i >= 16 {
            return None;
        }
        assert(file_entry(self@.root, 0) == i);
        let start_cluster: u16 = read_le16(&self.root_dir_sector, i * 32 + 26);
        let stated: u32 = read_le32(&self.root_dir_sector, i * 32 + 28);
        if stated == 0 || start_cluster < 2 {
            return None;
        }
        let file_size: usize = if (stated as u64) < MAX_FILE_SIZE as u64 {
            stated as usize
        } else {
            MAX_FILE_SIZE
        };
        let data_offset: usize = (start_cluster as usize - 2) * BLOCK_SIZE;
        if data_offset + file_size <= MAX_FILE_SIZE {
            let file: Vec<u8> = copy_bytes(&self.file_data[data_offset..data_offset + file_size]);
            assert(file@ =~= self@.data.subrange(data_offset as int, data_offset + file_size));
            Some(file)
        } else {
            None
        }
    }
}

fn is_file_entry(root: &[u8; BLOCK_SIZE], i: usize) -> (yes: bool)
    requires
        i < 16,
    ensures
        yes == names_file(root@, i as int),
{
    let off: usize = i * 32;
    if root[off] == 0x00 || root[off] == 0xE5 {
        return false;
    }
    let mut k: usize = 0;
    while k < 11
        invariant
            k <= 11,
            off == 32 * i,
            i < 16,
            forall|j: int| 0 <= j < k ==> root@[off + j] == FILE_NAME@[j],
        decreases 11 - k,
    {
        if root[off + k] != FILE_NAME[k] {
            assert(root@.subrange(32 * i, 32 * i + 11)[k as int] != FILE_NAME@[k as int]);
            return false;
        }
        k = k + 1;
    }
    assert(root@.subrange(32 * i, 32 * i + 11) =~= FILE_NAME@);
    true
}

impl VirtualFat12 {
    /// Builds the initial FAT for a file of `file_size` bytes.
    pub fn init_fat(file_size: u16) -> (fat: [u8; BLOCK_SIZE])
        ensures
            fat@ == initial_fat(file_size as int),
    {
        let mut fat: [u8; BLOCK_SIZE] = [0u8;BLOCK_SIZE];
        fat[0] = 0xF8;
        fat[1] = 0xFF;
        fat[2] = 0xFF;
        let clusters: u16 = ((file_size as u32 + 511) / 512) as u16;
        let mut i: u16 = 0;
        assert(fat@ =~= chain(clusters as int, 0));
        while i < clusters
            invariant
                i <= clusters <= 128,
                fat@ == chain(clusters as int, i as int),
            decreases clusters - i,
        {
            let cluster: u16 = i + 2;
            let next: u16 = if i + 1 < clusters {
                cluster + 1
            } else {
                0xFFF
            };
            write_fat12_entry(&mut fat, cluster, next);
            i = i + 1;
        }
        fat
    }

    /// Builds the initial root directory for a file of `file_size` bytes.
    pub fn init_root_dir(file_size: u16) -> (root: [u8; BLOCK_SIZE])
        ensures
            root@ == initial_root(file_size as int),
    {
        let mut root: [u8; BLOCK_SIZE] = [0u8;BLOCK_SIZE];
        put(&mut root, 0, &VOLUME_LABEL);
        root[11] = 0x08;
        put(&mut root, 32, &FILE_NAME);
        root[43] = 0x20;
        root[58] = 0x02;
        root[59] = 0x00;
        root[60] = (file_size % 0x100) as u8;
        root[61] = (file_size / 0x100) as u8;
        assert(root@ =~= initial_root(file_size as int));
        root
    }

    /// Builds the boot sector.
    pub fn build_boot_sector() -> (sector: [u8; BLOCK_SIZE])
        ensures
            sector@ == boot_sector(),
    {
        let mut buf: [u8; BLOCK_SIZE] = [0u8;BLOCK_SIZE];
        put(&mut buf, 0, &BOOT_FIELDS);
        buf[510] = 0x55;
        buf[511] = 0xAA;
        assert(buf@ =~= boot_sector());
        buf
    }
}

/// Writes a 12-bit entry.
pub fn write_fat12_entry(fat: &mut [u8], cluster: u16, value: u16)
    ensures
        final(fat)@ == fat_with(old(fat)@, cluster as int, value as int),
{
    let byte_offset: usize = (cluster as usize * 3) / 2;
    if byte_offset + 1 >= fat.len() {
        return ;
    }
    if cluster % 2 == 0 {
        fat[byte_offset] = (value % 256) as u8;
        let high: u8 = fat[byte_offset + 1];
        fat[byte_offset + 1] = high - high % 16 + (value / 256 % 16) as u8;
    } else {
        let low: u8 = fat[byte_offset];
        fat[byte_offset] = low % 16 + (value % 16) as u8 * 16;
        fat[byte_offset + 1] = (value / 16 % 256) as u8;
    }
}

/// Writing an entry sets that entry and no other.
#[verifier::rlimit(60)]
#[verifier::spinoff_prover]
pub proof fn law_fat_entries_independent(fat: Seq<u8>, cluster: int, value: int, other: int)
    requires
        0 <= cluster,
        0 <= other,
        cluster * 3 / 2 + 1 < fat.len(),
        other * 3 / 2 + 1 < fat.len(),
        0 <= value,
    ensures
        fat_with(fat, cluster, value).len() == fat.len(),
        fat_entry(fat_with(fat, cluster, value), other) == if other == cluster {
            value % 4096
        } else {
            fat_entry(fat, other)
        },
{
    let n = cluster * 3 / 2;
    let m = other * 3 / 2;
    let after = fat_with(fat, cluster, value);
    if cluster % 2 == 0 {
        assert(after[n + 1] % 16 == value / 256 % 16);
        assert(after[n + 1] / 16 == fat[n + 1] / 16);
        assert(value % 4096 == value % 256 + value / 256 % 16 * 256);
        assert(other < cluster ==> m + 1 <= n - 1);
        assert(other > cluster ==> m >= n + 1);
    } else {
        assert(after[n] / 16 == value % 16);
        assert(after[n] % 16 == fat[n] % 16);
        assert(value % 4096 == value % 16 + value / 16 % 256 * 16);
        assert(other < cluster ==> m + 1 <= n);
        assert(other > cluster ==> m >= n + 2);
    }
}

/// The clusters of the file are chained from cluster 2 on, each to the next,
/// and the last is marked as such.
pub proof fn law_file_is_chained(size: int, i: int)
    requires
        0 < size <= MAX_FILE_SIZE,
        0 <= i < clusters_of(size),
    ensures
        fat_entry(initial_fat(size), i + 2) == if i + 1 < clusters_of(size) {
            i + 3
        } else {
            0xFFF
        },
{
    lemma_chain(clusters_of(size), clusters_of(size), i);
}

proof fn lemma_chain(clusters: int, n: int, i: int)
    requires
        0 <= i,
        0 <= n <= clusters <= 61,
        i < 61,
    ensures
        chain(clusters, n).len() == 512,
        i < n ==> fat_entry(chain(clusters, n), i + 2) == if i + 1 < clusters {
            i + 3
        } else {
            0xFFF
        },
    decreases n,
{
    if n > 0 {
        lemma_chain(clusters, n - 1, i);
        law_fat_entries_independent(
            chain(clusters, n - 1),
            n + 1,
            if n < clusters {
                n + 2
            } else {
                0xFFF
            },
            i + 2,
        );
    }
}

/// What the host writes to a sector of the FAT, the root directory or the data
/// area it reads back, and no other sector changes.
pub proof fn law_read_gives_back_write(d: DiskModel, lba: int, block: Seq<u8>, other: int)
    requires
        d.wf(),
        block.len() == 512,
        1 <= lba < TOTAL_SECTORS,
        0 <= other,
    ensures
        d.written(lba, block).wf(),
        d.written(lba, block).sector(other) == if other == lba {
            block
        } else {
            d.sector(other)
        },
{
    let after = d.written(lba, block);
    if other == lba {
        assert(after.sector(other) =~= block);
    } else {
        assert(after.sector(other) =~= d.sector(other));
    }
}

/// Blocks written one after the other, from sector `lba` on.
pub open spec fn written_blocks(d: DiskModel, lba: int, blocks: Seq<Seq<u8>>) -> DiskModel
    decreases blocks.len(),
{
    if blocks.len() == 0 {
        d
    } else {
        written_blocks(d, lba, blocks.drop_last()).written(
            lba + blocks.len() - 1,
            blocks.last(),
        )
    }
}

/// A run of sectors that the host wrote reads back as it was written.
pub proof fn law_run_reads_back(d: DiskModel, lba: int, blocks: Seq<Seq<u8>>, i: int)
    requires
        d.wf(),
        1 <= lba,
        lba + blocks.len() <= TOTAL_SECTORS,
        forall|j: int| 0 <= j < blocks.len() ==> (#[trigger] blocks[j]).len() == 512,
        0 <= i < blocks.len(),
    ensures
        written_blocks(d, lba, blocks).sector(lba + i) == blocks[i],
{
    lemma_run(d, lba, blocks, i);
}

proof fn lemma_run(d: DiskModel, lba: int, blocks: Seq<Seq<u8>>, i: int)
    requires
        d.wf(),
        1 <= lba,
        lba + blocks.len() <= TOTAL_SECTORS,
        forall|j: int| 0 <= j < blocks.len() ==> (#[trigger] blocks[j]).len() == 512,
        0 <= i,
    ensures
        written_blocks(d, lba, blocks).wf(),
        i < blocks.len() ==> written_blocks(d, lba, blocks).sector(lba + i) == blocks[i],
    decreases blocks.len(),
{
    if blocks.len() > 0 {
        let before = blocks.drop_last();
        assert forall|j: int| 0 <= j < before.len() implies (#[trigger] before[j]).len()
            == 512 by {
            assert(before[j] == blocks[j]);
        }
        lemma_run(d, lba, before, i);
        law_read_gives_back_write(
            written_blocks(d, lba, before),
            lba + blocks.len() - 1,
            blocks.last(),
            lba + i,
        );
    }
}

/// A fresh disk describes the file that it was made with: if the host only
/// rewrites what it reads, that file is stored again on eject.
pub proof fn law_fresh_disk_holds_file(file: Seq<u8>)
    requires
        0 < file.len(),
    ensures
        DiskModel::fresh(file).file() == Some(fitting(file)),
{
    let d = DiskModel::fresh(file);
    let held = fitting(file);
    assert(d.root.subrange(0, 11) =~= VOLUME_LABEL@);
    assert(d.root.subrange(32, 43) =~= FILE_NAME@);
    assert(VOLUME_LABEL@[0] == 0x4F);
    assert(FILE_NAME@[0] == 0x44);
    assert(d.root.subrange(0, 11)[0] != FILE_NAME@[0]);
    assert(!names_file(d.root, 0));
    assert(names_file(d.root, 1));
    assert(file_entry(d.root, 0) == file_entry(d.root, 1));
    assert(file_entry(d.root, 1) == 1);
    assert(crate::bytes::from_le16(d.root, 58) == 2);
    assert(crate::bytes::from_le32(d.root, 60) == held.len());
    assert(d.data.subrange(0, held.len() as int) =~= held);
}

/// Two successive entries take three bytes, the even one in the low bits.
#[verifier::rlimit(50)]
#[verifier::spinoff_prover]
pub proof fn law_entries_pack(fat: Seq<u8>, k: int)
    requires
        0 <= k,
        3 * k + 2 < fat.len(),
    ensures
        0 <= fat_entry(fat, 2 * k) < 4096,
        0 <= fat_entry(fat, 2 * k + 1) < 4096,
        fat_entry(fat, 2 * k) + 4096 * fat_entry(fat, 2 * k + 1) == fat[3 * k] + 256 * fat[3 * k
            + 1] + 65536 * fat[3 * k + 2],
{
}

/// A file has as many clusters as it takes, and no more.
pub proof fn law_clusters(size: int)
    ensures
        size <= 512 * clusters_of(size) < size + 512,
{
}

/// A fresh FAT has the media byte, its two reserved entries, and no cluster in use
/// beyond those of the file.
pub proof fn law_unused_clusters(size: int, cluster: int)
    requires
        0 <= size <= MAX_FILE_SIZE,
        clusters_of(size) + 2 <= cluster < 340,
    ensures
        initial_fat(size).len() == 512,
        initial_fat(size)[0] == 0xF8,
        fat_entry(initial_fat(size), 0) == 0xFF8,
        fat_entry(initial_fat(size), 1) == 0xFFF,
        fat_entry(initial_fat(size), cluster) == 0,
{
    lemma_unused(clusters_of(size), clusters_of(size), 0);
    lemma_unused(clusters_of(size), clusters_of(size), 1);
    lemma_unused(clusters_of(size), clusters_of(size), cluster);
}

proof fn lemma_unused(clusters: int, n: int, cluster: int)
    requires
        0 <= n <= clusters <= 61,
        0 <= cluster < 340,
        cluster < 2 || clusters + 2 <= cluster,
    ensures
        chain(clusters, n).len() == 512,
        chain(clusters, n)[0] == 0xF8,
        fat_entry(chain(clusters, n), cluster) == if cluster == 0 {
            0xFF8int
        } else if cluster == 1 {
            0xFFF
        } else {
            0
        },
    decreases n,
{
    if n > 0 {
        lemma_unused(clusters, n - 1, cluster);
        law_fat_entries_independent(
            chain(clusters, n - 1),
            n + 1,
            if n < clusters {
                n + 2
            } else {
                0xFFF
            },
            cluster,
        );
    }
}

/// The root directory of a fresh disk: the label, then the file with its first
/// cluster and size, and nothing else.
pub proof fn law_fresh_root(size: int, i: int)
    requires
        0 <= size <= MAX_FILE_SIZE,
        64 <= i < 512,
    ensures
        ({
            let root = initial_root(size);
            &&& root.len() == 512
            &&& root.take(11) == VOLUME_LABEL@
            &&& root[11] == 0x08
            &&& names_file(root, 1)
            &&& root[43] == 0x20
            &&& root[58] == 2 && root[59] == 0
            &&& root[60] + 0x100 * root[61] + 0x1_0000 * root[62] + 0x100_0000 * root[63] == size
            &&& root[i] == 0
        }),
{
    let root = initial_root(size);
    assert(root.take(11) =~= VOLUME_LABEL@);
    assert(root.subrange(32, 43) =~= FILE_NAME@);
}

/// The boot sector describes the layout: 512 bytes per sector, one sector per
/// cluster, one before the FAT, one FAT of one sector, 16 directory entries, 64
/// sectors.
pub proof fn law_boot_sector(i: int)
    ensures
        ({
            let b = boot_sector();
            &&& b.len() == 512
            &&& b[11] == 0 && b[12] == 2
            &&& b[13] == 1
            &&& b[14] == 1 && b[15] == 0
            &&& b[16] == 1
            &&& b[17] == 16 && b[18] == 0
            &&& b[19] == 64 && b[20] == 0
            &&& b[21] == 0xF8
            &&& b[22] == 1 && b[23] == 0
            &&& b[38] == 0x29
            &&& 62 <= i < 510 ==> b[i] == 0
            &&& b[510] == 0x55 && b[511] == 0xAA
        }),
{
}

/// What fits of a file is its start, up to 61 clusters.
pub proof fn law_fitting(file: Seq<u8>, i: int)
    ensures
        file.len() <= 31232 ==> fitting(file) == file,
        file.len() > 31232 ==> fitting(file).len() == 31232,
        0 <= i < fitting(file).len() ==> fitting(file)[i] == file[i],
{
}

/// A directory entry names the file if it holds `DSP     CFG`.
pub proof fn law_file_name(root: Seq<u8>, i: int)
    requires
        root.len() == 512,
        0 <= i < 16,
    ensures
        names_file(root, i) <==> (root[32 * i] == 0x44 && root[32 * i + 1] == 0x53 && root[32 * i + 2] == 0x50 && root[32 * i + 3] == 0x20 && root[32 * i + 4] == 0x20 && root[32 * i + 5] == 0x20 && root[32 * i + 6] == 0x20 && root[32 * i + 7] == 0x20 && root[32 * i + 8] == 0x43 && root[32 * i + 9] == 0x46 && root[32 * i + 10] == 0x47),
{
    let name = root.subrange(32 * i, 32 * i + 11);
    assert(name[0] == root[32 * i]);
    assert(name[0] == root[32 * i + 0] && FILE_NAME@[0] == 0x44);
    assert(name[1] == root[32 * i + 1] && FILE_NAME@[1] == 0x53);
    assert(name[2] == root[32 * i + 2] && FILE_NAME@[2] == 0x50);
    assert(name[3] == root[32 * i + 3] && FILE_NAME@[3] == 0x20);
    assert(name[4] == root[32 * i + 4] && FILE_NAME@[4] == 0x20);
    assert(name[5] == root[32 * i + 5] && FILE_NAME@[5] == 0x20);
    assert(name[6] == root[32 * i + 6] && FILE_NAME@[6] == 0x20);
    assert(name[7] == root[32 * i + 7] && FILE_NAME@[7] == 0x20);
    assert(name[8] == root[32 * i + 8] && FILE_NAME@[8] == 0x43);
    assert(name[9] == root[32 * i + 9] && FILE_NAME@[9] == 0x46);
    assert(name[10] == root[32 * i + 10] && FILE_NAME@[10] == 0x47);
    if name != FILE_NAME@ && name[0] == 0x44 && name[1] == 0x53 && name[2] == 0x50 && name[3] == 0x20 && name[4] == 0x20 && name[5] == 0x20 && name[6] == 0x20 && name[7] == 0x20 && name[8] == 0x43 && name[9] == 0x46 && name[10] == 0x47 {
        assert(name =~= FILE_NAME@);
    }
}

/// The entry that counts is the first that names the file.
pub proof fn law_first_entry(root: Seq<u8>, from: int, i: int)
    requires
        0 <= from <= i < 16,
        names_file(root, i),
        forall|j: int| from <= j < i ==> !names_file(root, j),
    ensures
        file_entry(root, from) == i,
    decreases i - from,
{
    if from < i {
        law_first_entry(root, from + 1, i);
    }
}

/// Without an entry that names the file there is none.
pub proof fn law_no_entry(d: DiskModel)
    requires
        forall|j: int| 0 <= j < 16 ==> !names_file(d.root, j),
    ensures
        d.file() is None,
{
    lemma_no_entry(d.root, 0);
}

proof fn lemma_no_entry(root: Seq<u8>, from: int)
    requires
        0 <= from <= 16,
        forall|j: int| 0 <= j < 16 ==> !names_file(root, j),
    ensures
        file_entry(root, from) == 16,
    decreases 16 - from,
{
    if from < 16 {
        assert(!names_file(root, from));
        lemma_no_entry(root, from + 1);
    }
}

/// The file is the bytes that the host reads from the sectors of its clusters,
/// as many as its entry says; cluster 2 is sector 3.
#[verifier::rlimit(50)]
#[verifier::spinoff_prover]
pub proof fn law_file_is_in_sectors(d: DiskModel, i: int, j: int)
    requires
        d.wf(),
        0 <= i < 16,
        file_entry(d.root, 0) == i,
    ensures
        ({
            let start = d.root[32 * i + 26] + 0x100 * d.root[32 * i + 27];
            let stated = d.root[32 * i + 28] + 0x100 * d.root[32 * i + 29] + 0x1_0000 * d.root[32
                * i + 30] + 0x100_0000 * d.root[32 * i + 31];
            let size = if stated < 31232 {
                stated
            } else {
                31232
            };
            &&& d.file() is Some <==> stated > 0 && start >= 2 && 512 * (start - 2) + size <= 31232
            &&& d.file() is Some ==> (d.file()->0).len() == size
            &&& d.file() is Some && 0 <= j < size ==> (d.file()->0)[j] == d.sector(
                start + 1 + j / 512,
            )[j % 512]
        }),
{
    let start = crate::bytes::from_le16(d.root, 32 * i + 26);
    if d.file() is Some && 0 <= j < (d.file()->0).len() {
        let lba = start + 1 + j / 512;
        assert(512 * (start - 2) + j < 31232);
        assert(3 <= lba < 64);
        assert(j == 512 * (j / 512) + j % 512);
        assert(d.sector(lba)[j % 512] == d.data[512 * (lba - 3) + j % 512]);
    }
}

/// A fresh disk has its file in the sectors from 3 on, and zeros after it.
pub proof fn law_fresh_sectors(file: Seq<u8>, i: int)
    requires
        0 <= i < 31232,
    ensures
        DiskModel::fresh(file).wf(),
        !DiskModel::fresh(file).dirty && !DiskModel::fresh(file).ejected,
        DiskModel::fresh(file).sector(3 + i / 512)[i % 512] == if i < file.len() {
            file[i]
        } else {
            0
        },
        DiskModel::fresh(file).sector(1) == initial_fat(fitting(file).len() as int),
        DiskModel::fresh(file).sector(2) == initial_root(fitting(file).len() as int),
{
    let d = DiskModel::fresh(file);
    lemma_unused(clusters_of(fitting(file).len() as int), clusters_of(fitting(file).len() as int), 0);
    assert(i == 512 * (i / 512) + i % 512);
    assert(d.sector(3 + i / 512)[i % 512] == d.data[i]);
}

/// The boot sector and the sectors beyond the end are fixed: they read the same
/// on every disk and cannot be written. Any other write is noted.
pub proof fn law_fixed_sectors(d: DiskModel, lba: int, block: Seq<u8>, i: int)
    requires
        0 <= lba,
    ensures
        d.sector(0) == boot_sector(),
        lba >= 64 ==> d.sector(lba).len() == 512,
        lba >= 64 && 0 <= i < 512 ==> d.sector(lba)[i] == 0,
        lba == 0 || lba >= 64 ==> d.written(lba, block) == d,
        0 < lba < 64 ==> d.written(lba, block).dirty,
        d.written(lba, block).ejected == d.ejected,
{
}

/// What is written to a sector is read from it, and from no other; the boot sector
/// and the sectors beyond the end keep what they hold.
#[verifier::rlimit(50)]
#[verifier::spinoff_prover]
pub proof fn law_sector_access(
    vfs: &mut VirtualFat12,
    lba: u32,
    data: &[u8; BLOCK_SIZE],
    before: &VirtualFat12,
    after: &VirtualFat12,
    other: u32,
    was: &mut [u8; BLOCK_SIZE],
    is: &mut [u8; BLOCK_SIZE],
)
    requires
        before@ == old(vfs)@,
        after@ == final(vfs)@,
        call_ensures(VirtualFat12::write_sector, (vfs, lba, data), ()),
        call_ensures(VirtualFat12::read_sector, (before, other, was), ()),
        call_ensures(VirtualFat12::read_sector, (after, other, is), ()),
    ensures
        other == lba && 1 <= lba < 64 ==> final(is)@ == data@,
        other != lba || lba == 0 || lba >= 64 ==> final(is)@ == final(was)@,
        final(vfs)@.dirty <==> old(vfs)@.dirty || 1 <= lba < 64,
{
    before.law_areas();
    if 1 <= lba < 64 {
        law_read_gives_back_write(before@, lba as int, data@, other as int);
    } else {
        law_fixed_sectors(before@, lba as int, data@, 0);
    }
}

/// A disk that was made with a file shows it from sector 3 on, its size in the root
/// directory and its clusters in the FAT.
#[verifier::rlimit(50)]
#[verifier::spinoff_prover]
pub proof fn law_made_disk(config: &[u8], vfs: &VirtualFat12, lba: u32, buf: &mut [u8; BLOCK_SIZE], i: int)
    requires
        config@.len() <= 31232,
        call_ensures(VirtualFat12::new, (config,), *vfs),
        call_ensures(VirtualFat12::read_sector, (vfs, lba, buf), ()),
        0 <= i < 512,
    ensures
        3 <= lba < 64 && 512 * (lba - 3) + i < config@.len() ==> final(buf)@[i] == config@[512 * (
        lba - 3) + i],
        3 <= lba < 64 && 512 * (lba - 3) + i >= config@.len() ==> final(buf)@[i] == 0,
        lba == 0 ==> final(buf)@ == boot_sector(),
        lba == 2 ==> final(buf)@[60] + 0x100 * final(buf)@[61] == config@.len(),
        lba == 1 ==> fat_entry(final(buf)@, 0) == 0xFF8,
        lba == 1 && i < 61 && 512 * i < config@.len() && config@.len() <= 512 * (i + 1)
            ==> fat_entry(final(buf)@, i + 2) == 0xFFF,
        lba == 1 && i < 61 && 512 * (i + 1) < config@.len() ==> fat_entry(final(buf)@, i + 2) == i
            + 3,
        !vfs@.dirty && !vfs@.ejected,
{
    if 3 <= lba < 64 {
        let k = 512 * (lba - 3) + i;
        assert(k / 512 == lba - 3 && k % 512 == i);
        law_fresh_sectors(config@, k);
    }
    if lba == 2 {
        law_fresh_root(config@.len() as int, 64);
    }
    if lba == 1 {
        law_unused_clusters(config@.len() as int, 339);
        law_clusters(config@.len() as int);
        if i < 61 && 512 * i < config@.len() {
            law_file_is_chained(config@.len() as int, i);
        }
    }
}

/// Ejecting hands out the file that the directory describes, if the host wrote
/// anything, and keeps what the disk holds.
pub proof fn law_ejecting(vfs: &mut VirtualFat12, file: Option<Vec<u8>>)
    requires
        call_ensures(VirtualFat12::flush, (vfs,), file),
    ensures
        file is Some <==> old(vfs)@.dirty && old(vfs)@.file() is Some,
        file is Some ==> old(vfs)@.file() == Some((file->0)@),
        final(vfs)@.ejected && !final(vfs)@.dirty,
        final(vfs)@.fat == old(vfs)@.fat && final(vfs)@.root == old(vfs)@.root && final(vfs)@.data
            == old(vfs)@.data,
{
}

/// Writing an entry of the FAT sets that entry to the low twelve bits of the value
/// and keeps the others.
pub proof fn law_entry_writing(fat: &mut [u8], cluster: u16, value: u16, other: int)
    requires
        cluster * 3 / 2 + 1 < old(fat)@.len(),
        0 <= other,
        other * 3 / 2 + 1 < old(fat)@.len(),
        call_ensures(write_fat12_entry, (fat, cluster, value), ()),
    ensures
        other == cluster ==> fat_entry(final(fat)@, other) == value % 4096,
        other != cluster ==> fat_entry(final(fat)@, other) == fat_entry(old(fat)@, other),
{
    law_fat_entries_independent(old(fat)@, cluster as int, value as int, other);
}

} // verus!
