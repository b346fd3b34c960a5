//! The region of the flash that holds the configuration file.
//!
//! ```text
//! 0x780000 - 0x787FFF  32 KB = 8 sectors
//!   bytes 0-1: magic CF 67
//!   bytes 2-3: length, most significant byte first
//!   bytes 4+:  file
//! ```

use vstd::prelude::*;

use crate::bytes::read_be16;
use crate::storage::{copy_bytes, FlashOp};

verus! {

/// Start of the region.
pub const CONFIG_OFFSET: u32 = 0x78_0000;

/// Size of the region.
pub const CONFIG_MAX_SIZE: usize = 0x8000;

/// Largest file: the region without its header.
pub const CONFIG_MAX_DATA: usize = 0x7FFC;

/// Number of sectors in the region.
pub const CONFIG_SECTORS: u32 = 8;

/// Magic and length.
pub const HEADER_SIZE: usize = 4;

pub const MAGIC: [u8; 2] = [0xCF, 0x67];

/// Bytes written at a time.
pub const PAGE_SIZE: usize = 256;

/// Length of the file that a header announces.
pub open spec fn announced(header: Seq<u8>) -> Option<int> {
    let len = crate::bytes::from_be16(header, 2);
    if header.len() >= 4 && header[0] == 0xCF && header[1] == 0x67 && 0 < len <= CONFIG_MAX_DATA {
        Some(len)
    } else {
        None
    }
}

/// The file in a region.
pub open spec fn stored(region: Seq<u8>) -> Option<Seq<u8>> {
    match announced(region) {
        Some(len) => if 4 + len <= region.len() {
            Some(region.subrange(4, 4 + len))
        } else {
            None
        },
        None => None,
    }
}

/// Decodes a header: the length of the file, `None` if there is no valid file.
pub fn read_header(header: &[u8]) -> (len: Option<usize>)
    ensures
        match len {
            Some(len) => announced(header@) == Some(len as int) && len <= CONFIG_MAX_DATA,
            None => announced(header@) is None,
        },
{
    if header.len() < HEADER_SIZE || header[0] != 0xCF || header[1] != 0x67 {
        return None;
    }
    let len: usize = read_be16(header, 2) as usize;
    if len == 0 || len > CONFIG_MAX_DATA {
        return None;
    }
    Some(len)
}

/// Finds the file in the region, or in as much of it as its header and file
/// take.
pub fn read_config(region: &[u8]) -> (data: Option<&[u8]>)
    ensures
        match data {
            Some(data) => stored(region@) == Some(data@),
            None => stored(region@) is None,
        },
{
    match read_header(region) {
        Some(len) => if HEADER_SIZE + len <= region.len() {
            let data: &[u8] = &region[HEADER_SIZE..HEADER_SIZE + len];
            assert(data@ =~= region@.subrange(4, 4 + len));
            Some(data)
        } else {
            None
        },
        None => None,
    }
}

/// The header of a file.
pub open spec fn header_of(len: int) -> Seq<u8> {
    seq![0xCF, 0x67, (len / 0x100) as u8, (len % 0x100) as u8]
}

/// The writes that store a file from position `at` on, a page's worth each.
pub open spec fn page_writes(data: Seq<u8>, at: int) -> Seq<crate::storage::FlashStep>
    decreases data.len() - at,
{
    if at >= data.len() {
        Seq::empty()
    } else {
        let end = if at + PAGE_SIZE < data.len() {
            at + PAGE_SIZE
        } else {
            data.len() as int
        };
        seq![
            crate::storage::FlashStep::Write {
                offset: CONFIG_OFFSET + 4 + at,
                bytes: data.subrange(at, end),
            },
        ] + page_writes(data, end)
    }
}

pub open spec fn erase_step() -> crate::storage::FlashStep {
    crate::storage::FlashStep::Erase {
        from: CONFIG_OFFSET as int,
        to: CONFIG_OFFSET + CONFIG_MAX_SIZE,
    }
}

/// Everything that stores a file: erase the region, write the header, write the
/// file.
pub open spec fn write_steps(data: Seq<u8>) -> Seq<crate::storage::FlashStep> {
    seq![
        erase_step(),
        crate::storage::FlashStep::Write {
            offset: CONFIG_OFFSET as int,
            bytes: header_of(data.len() as int),
        },
    ] + page_writes(data, 0)
}

/// The operations that store a file; `None` if it is too large.
pub fn write_config(data: &[u8]) -> (ops: Option<Vec<FlashOp>>)
    ensures
        match ops {
            Some(ops) => data@.len() <= CONFIG_MAX_DATA && crate::storage::steps(ops@)
                == write_steps(data@),
            None => data@.len() > CONFIG_MAX_DATA,
        },
{
    if data.len() > CONFIG_MAX_DATA {
        return None;
    }
    let mut ops: Vec<FlashOp> = Vec::new();
    ops.push(erase_config());
    let len: usize = data.len();
    let mut header: Vec<u8> = Vec::new();
    header.push(0xCF);
    header.push(0x67);
    header.push((len / 0x100) as u8);
    header.push((len % 0x100) as u8);
    assert(header@ =~= header_of(len as int));
    ops.push(FlashOp::Write { offset: CONFIG_OFFSET, bytes: header });
    let data_offset: u32 = CONFIG_OFFSET + HEADER_SIZE as u32;
    let mut written: usize = 0;
    assert(crate::storage::steps(ops@) + page_writes(data@, 0) =~= write_steps(data@));
    while written < data.len()
        invariant
            written <= data@.len() <= CONFIG_MAX_DATA,
            data_offset == CONFIG_OFFSET + 4,
            crate::storage::steps(ops@) + page_writes(data@, written as int) == write_steps(data@),
        decreases data@.len() - written,
    {
        let end: usize = if data.len() - written > PAGE_SIZE {
            written + PAGE_SIZE
        } else {
            data.len()
        };
        let bytes: Vec<u8> = copy_bytes(&data[written..end]);
        let ghost before = ops@;
        ops.push(FlashOp::Write { offset: data_offset + written as u32, bytes });
        proof {
            assert(crate::storage::steps(ops@) =~= crate::storage::steps(before).push(
                ops@[before.len() as int]@,
            ));
            assert(crate::storage::steps(ops@) + page_writes(data@, end as int)
                =~= crate::storage::steps(before) + page_writes(data@, written as int));
        }
        written = end;
    }
    assert(crate::storage::steps(ops@) =~= write_steps(data@));
    Some(ops)
}

/// The operation that erases the region.
pub fn erase_config() -> (op: FlashOp)
    ensures
        op@ == erase_step(),
{
    FlashOp::Erase {
        from: CONFIG_OFFSET,
        to: CONFIG_OFFSET + CONFIG_SECTORS * crate::storage::ERASE_SIZE as u32,
    }
}

/// The region of a flash.
pub open spec fn region_of(flash: Seq<u8>) -> Seq<u8> {
    flash.subrange(CONFIG_OFFSET as int, CONFIG_OFFSET + CONFIG_MAX_SIZE)
}

proof fn lemma_pages(flash: Seq<u8>, data: Seq<u8>, at: int)
    requires
        flash.len() == crate::storage::FLASH_SIZE,
        0 <= at <= data.len() <= CONFIG_MAX_DATA,
        crate::storage::erased(flash, CONFIG_OFFSET + 4 + at, CONFIG_OFFSET + CONFIG_MAX_SIZE),
    ensures
        crate::storage::run(flash, page_writes(data, at)) == crate::bytes::spliced(
            flash,
            CONFIG_OFFSET + 4 + at,
            data.skip(at),
        ),
    decreases data.len() - at,
{
    if at >= data.len() {
        assert(flash =~= crate::bytes::spliced(flash, CONFIG_OFFSET + 4 + at, data.skip(at)));
    } else {
        let end = if at + PAGE_SIZE < data.len() {
            at + PAGE_SIZE
        } else {
            data.len() as int
        };
        let bytes = data.subrange(at, end);
        let all = page_writes(data, at);
        let next = crate::storage::stepped(flash, all[0]);
        crate::storage::lemma_write_erased(flash, CONFIG_OFFSET + 4 + at, bytes);
        assert(all.skip(1) =~= page_writes(data, end));
        lemma_pages(next, data, end);
        assert(crate::bytes::spliced(next, CONFIG_OFFSET + 4 + end, data.skip(end))
            =~= crate::bytes::spliced(flash, CONFIG_OFFSET + 4 + at, data.skip(at)));
    }
}

/// Reading gives back the file that was written, whatever the flash held
/// before. An empty file reads as none.
pub proof fn law_read_gives_back_write(flash: Seq<u8>, data: Seq<u8>)
    requires
        flash.len() == crate::storage::FLASH_SIZE,
        data.len() <= CONFIG_MAX_DATA,
    ensures
        stored(region_of(crate::storage::run(flash, write_steps(data)))) == if data.len() == 0 {
            None
        } else {
            Some(data)
        },
{
    let after = lemma_written(flash, data);
    let region = region_of(after);
    let len = data.len() as int;
    assert(region[0] == 0xCF);
    assert(region[1] == 0x67);
    assert(region[2] == (len / 0x100) as u8);
    assert(region[3] == (len % 0x100) as u8);
    assert(crate::bytes::from_be16(region, 2) == len);
    assert(region.subrange(4, 4 + len) =~= data);
}

/// Writing a file changes nothing outside the region.
pub proof fn law_write_stays_in_region(flash: Seq<u8>, data: Seq<u8>, i: int)
    requires
        flash.len() == crate::storage::FLASH_SIZE,
        data.len() <= CONFIG_MAX_DATA,
        0 <= i < flash.len(),
        !(CONFIG_OFFSET <= i < CONFIG_OFFSET + CONFIG_MAX_SIZE),
    ensures
        crate::storage::run(flash, write_steps(data))[i] == flash[i],
{
    lemma_written(flash, data);
}

/// The flash after a file was written.
proof fn lemma_written(flash: Seq<u8>, data: Seq<u8>) -> (after: Seq<u8>)
    requires
        flash.len() == crate::storage::FLASH_SIZE,
        data.len() <= CONFIG_MAX_DATA,
    ensures
        after == crate::storage::run(flash, write_steps(data)),
        after.len() == flash.len(),
        forall|i: int|
            0 <= i < flash.len() ==> #[trigger] after[i] == (if CONFIG_OFFSET <= i < CONFIG_OFFSET
                + 4 {
                header_of(data.len() as int)[i - CONFIG_OFFSET]
            } else if CONFIG_OFFSET + 4 <= i < CONFIG_OFFSET + 4 + data.len() {
                data[i - CONFIG_OFFSET - 4]
            } else if CONFIG_OFFSET <= i < CONFIG_OFFSET + CONFIG_MAX_SIZE {
                0xFF
            } else {
                flash[i]
            }),
{
    let all = write_steps(data);
    let header = header_of(data.len() as int);
    let blank = crate::storage::stepped(flash, all[0]);
    let headed = crate::storage::stepped(blank, all[1]);
    crate::storage::lemma_write_erased(blank, CONFIG_OFFSET as int, header);
    assert(all.skip(1)[0] == all[1]);
    assert(all.skip(1).skip(1) =~= page_writes(data, 0));
    lemma_pages(headed, data, 0);
    assert(data.skip(0) =~= data);
    let after = crate::storage::run(flash, all);
    assert(after == crate::storage::run(blank, all.skip(1)));
    assert(after == crate::storage::run(headed, page_writes(data, 0)));
    after
}

/// A header is the two bytes CF 67 and the length, most significant byte first,
/// and every length from 1 to 32764 is announced.
pub proof fn law_headers(header: Seq<u8>)
    ensures
        header.len() < 4 ==> announced(header) is None,
        header.len() >= 4 ==> (announced(header) is Some <==> header[0] == 0xCF && header[1] == 0x67
            && 0 < 256 * header[2] + header[3] < 32765),
        announced(header) is Some ==> announced(header)->0 == 256 * header[2] + header[3],
{
}

/// The file that is found is what follows the header, byte for byte, as long as
/// the header says.
pub proof fn law_stored_follows_header(region: Seq<u8>, i: int)
    ensures
        stored(region) is Some <==> announced(region) is Some && region.len() >= 4
            + announced(region)->0,
        stored(region) is Some ==> (stored(region)->0).len() == announced(region)->0,
        stored(region) is Some && 0 <= i < announced(region)->0 ==> (stored(region)->0)[i]
            == region[4 + i],
{
}

/// Where everything lies after a file was written: header, file, erased bytes.
pub proof fn law_region_layout(flash: Seq<u8>, data: Seq<u8>, i: int)
    requires
        flash.len() == crate::storage::FLASH_SIZE,
        data.len() <= 32764,
        0 <= i < 32768,
    ensures
        ({
            let b = crate::storage::run(flash, write_steps(data))[0x78_0000 + i];
            &&& i == 0 ==> b == 0xCF
            &&& i == 1 ==> b == 0x67
            &&& i == 2 ==> b == data.len() / 256
            &&& i == 3 ==> b == data.len() % 256
            &&& 4 <= i < 4 + data.len() ==> b == data[i - 4]
            &&& 4 + data.len() <= i ==> b == 0xFF
        }),
{
    lemma_written(flash, data);
}

/// A file is stored with the region erased first, then the header, then one write
/// for each 256 bytes, in order and each as long as the page or the rest.
pub proof fn law_pages_in_order(data: Seq<u8>, k: int)
    ensures
        write_steps(data).len() == 2 + (data.len() + 255) / 256,
        write_steps(data)[0] matches crate::storage::FlashStep::Erase { from, to } && from
            == 0x78_0000 && to == 0x78_8000,
        write_steps(data)[1] matches crate::storage::FlashStep::Write { offset, bytes } && offset
            == 0x78_0000 && bytes.len() == 4,
        0 <= 256 * k < data.len() ==> (write_steps(data)[2 + k] matches
            crate::storage::FlashStep::Write { offset, bytes } && offset == 0x78_0004 + 256 * k
            && bytes == data.subrange(
            256 * k,
            if 256 * k + 256 < data.len() {
                256 * k + 256
            } else {
                data.len() as int
            },
        )),
{
    lemma_page(data, 0, k);
}

proof fn lemma_page(data: Seq<u8>, at: int, k: int)
    requires
        0 <= at,
    ensures
        page_writes(data, at).len() == if at < data.len() {
            (data.len() - at + 255) / 256
        } else {
            0
        },
        0 <= k && at + 256 * k < data.len() ==> page_writes(data, at)[k]
            == (crate::storage::FlashStep::Write {
            offset: 0x78_0004 + at + 256 * k,
            bytes: data.subrange(
                at + 256 * k,
                if at + 256 * k + 256 < data.len() {
                    at + 256 * k + 256
                } else {
                    data.len() as int
                },
            ),
        }),
    decreases data.len() - at,
{
    if at < data.len() {
        if at + 256 < data.len() {
            lemma_page(data, at + 256, k - 1);
        } else {
            assert(page_writes(data, data.len() as int).len() == 0);
        }
    }
}

/// What is read from a region, and what the accesses do that write a file: reading
/// then gives the file back. A file of more than 32764 bytes is refused.
pub proof fn law_file_is_kept(
    data: &[u8],
    ops: Option<Vec<FlashOp>>,
    flash: Seq<u8>,
    region: &[u8],
    read: Option<&[u8]>,
    len: Option<usize>,
)
    requires
        flash.len() == crate::storage::FLASH_SIZE,
        call_ensures(write_config, (data,), ops),
        ops matches Some(ops) ==> region@ == region_of(
            crate::storage::run(flash, crate::storage::steps(ops@)),
        ),
        call_ensures(read_config, (region,), read),
        call_ensures(read_header, (region,), len),
    ensures
        ops is None <==> data@.len() > 32764,
        ops is Some && data@.len() > 0 ==> read is Some && (read->0)@ == data@ && len is Some
            && len->0 == data@.len(),
        ops is Some && data@.len() == 0 ==> read is None && len is None,
{
    if ops is Some {
        law_read_gives_back_write(flash, data@);
        law_stored_follows_header(region@, 0);
        law_region_layout(flash, data@, 0);
        law_region_layout(flash, data@, 1);
        law_region_layout(flash, data@, 2);
        law_region_layout(flash, data@, 3);
        law_headers(region@);
        let after = lemma_written(flash, data@);
        assert(region@[2] == after[0x78_0002] && region@[3] == after[0x78_0003]);
    }
}

/// What headers are accepted.
pub proof fn law_header_reading(header: &[u8], len: Option<usize>)
    requires
        header@.len() >= 4,
        call_ensures(read_header, (header,), len),
    ensures
        len is Some <==> header@[0] == 0xCF && header@[1] == 0x67 && 0 < 256 * header@[2]
            + header@[3] < 32765,
        len is Some ==> len->0 == 256 * header@[2] + header@[3],
{
}

/// The whole region is erased.
pub proof fn law_erasing(op: FlashOp)
    requires
        call_ensures(erase_config, (), op),
    ensures
        op matches FlashOp::Erase { from, to } && from == 0x78_0000 && to == 0x78_8000,
{
}

} // verus!
