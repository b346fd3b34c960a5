//! USB mass storage, bulk-only transport.
//!
//! ```text
//! Host -> CBW (31 bytes)
//!   data phase
//! Device -> CSW (13 bytes)
//! ```
//!
//! [`MscClass::handle_scsi`] decides what a command does; the caller moves the bytes over
//! the endpoints.

pub mod fat12;

use vstd::prelude::*;

use crate::bytes::{put, read_be16, read_be32, read_le32};
pub use fat12::BLOCK_SIZE;
use fat12::VirtualFat12;

verus! {

/// USB mass storage class code.
pub const USB_CLASS_MASS_STORAGE: u8 = 0x08;

/// SCSI transparent command set.
pub const USB_SUBCLASS_SCSI: u8 = 0x06;

/// Bulk-only transport.
pub const USB_PROTOCOL_BBB: u8 = 0x50;

/// `USBC`.
pub const CBW_SIGNATURE: u32 = 0x43425355;

/// `USBS`.
pub const CSW_SIGNATURE: u32 = 0x53425355;

pub const CBW_SIZE: usize = 31;

pub const CSW_SIZE: usize = 13;

pub const CSW_STATUS_PASSED: u8 = 0x00;

pub const CSW_STATUS_FAILED: u8 = 0x01;

pub const SCSI_TEST_UNIT_READY: u8 = 0x00;

pub const SCSI_REQUEST_SENSE: u8 = 0x03;

pub const SCSI_INQUIRY: u8 = 0x12;

pub const SCSI_MODE_SENSE_6: u8 = 0x1A;

pub const SCSI_START_STOP_UNIT: u8 = 0x1B;

pub const SCSI_PREVENT_ALLOW_MEDIUM_REMOVAL: u8 = 0x1E;

pub const SCSI_READ_FORMAT_CAPACITIES: u8 = 0x23;

pub const SCSI_READ_CAPACITY_10: u8 = 0x25;

pub const SCSI_READ_10: u8 = 0x28;

pub const SCSI_WRITE_10: u8 = 0x2A;

pub const SCSI_SYNCHRONIZE_CACHE: u8 = 0x35;

/// Zeros that answer an unknown command go out in packets of this size.
pub const ZERO_PACKET: usize = 64;

/// Inquiry data: removable disk, vendor `OtterAmp`, product `DSP Config`,
/// revision `1.0`.
pub const INQUIRY_DATA: [u8; 36] = [
    0x00, 0x80, 0x02, 0x02, 31, 0, 0, 0, 0x4F, 0x74, 0x74, 0x65, 0x72, 0x41, 0x6D, 0x70, 0x44, 0x53,
    0x50, 0x20, 0x43, 0x6F, 0x6E, 0x66, 0x69, 0x67, 0x20, 0x20, 0x20, 0x20, 0x20, 0x20, 0x31, 0x2E,
    0x30, 0x20,
];

/// One capacity descriptor: 64 blocks of 512 bytes, formatted.
pub const FORMAT_CAPACITIES: [u8; 12] = [0, 0, 0, 8, 0, 0, 0, 64, 0x02, 0, 0x02, 0];

/// Last block 63, 512 bytes per block.
pub const CAPACITY: [u8; 8] = [0, 0, 0, 63, 0, 0, 0x02, 0];

/// No sense: everything is fine.
pub const SENSE_DATA: [u8; 18] = [0x70, 0, 0, 0, 0, 0, 0, 10, 0, 0, 0, 0, 0, 0, 0, 0, 0, 0];

/// No mode pages, not write-protected.
pub const MODE_DATA: [u8; 4] = [0x03, 0, 0, 0];

/// Direction of the data phase.
#[derive(Debug, Clone, Copy, PartialEq, Eq, Structural)]
pub enum Direction {
    /// Host to device.
    Out,
    /// Device to host.
    In,
}

/// Command block wrapper.
pub struct Cbw {
    pub tag: u32,
    pub data_transfer_length: u32,
    pub direction: Direction,
    pub cb: [u8; 16],
    pub cb_len: u8,
}

impl Cbw {
    /// The wrapper that 31 bytes with the right signature hold.
    pub open spec fn encoded(self, data: Seq<u8>) -> bool {
        &&& crate::bytes::from_le32(data, 0) == CBW_SIGNATURE
        &&& self.tag == crate::bytes::from_le32(data, 4)
        &&& self.data_transfer_length == crate::bytes::from_le32(data, 8)
        &&& self.direction == if data[12] >= 0x80 {
            Direction::In
        } else {
            Direction::Out
        }
        &&& self.cb_len == data[14] % 32
        &&& self.cb@ == data.subrange(15, 31)
    }

    /// Parses a wrapper; `None` if the signature is wrong.
    pub fn parse(data: &[u8; CBW_SIZE]) -> (cbw: Option<Self>)
        ensures
            match cbw {
                Some(cbw) => cbw.encoded(data@),
                None => crate::bytes::from_le32(data@, 0) != CBW_SIGNATURE,
            },
    {
        if read_le32(data, 0) != CBW_SIGNATURE {
            return None;
        }
        let mut cb: [u8; 16] = [0u8;16];
        put(&mut cb, 0, &data[15..31]);
        assert(cb@ =~= data@.subrange(15, 31));
        Some(
            Cbw {
                tag: read_le32(data, 4),
                data_transfer_length: read_le32(data, 8),
                direction: if data[12] >= 0x80 {
                    Direction::In
                } else {
                    Direction::Out
                },
                cb,
                cb_len: data[14] % 32,
            },
        )
    }

    /// Takes a received packet. One that is too short or has the wrong
    /// signature is ignored.
    pub fn receive(packet: &[u8]) -> (cbw: Option<Self>)
        ensures
            match cbw {
                Some(cbw) => packet@.len() >= CBW_SIZE && cbw.encoded(packet@),
                None => packet@.len() < CBW_SIZE || crate::bytes::from_le32(packet@, 0)
                    != CBW_SIGNATURE,
            },
    {
        if packet.len() < CBW_SIZE {
            return None;
        }
        let mut data: [u8; CBW_SIZE] = [0u8;CBW_SIZE];
        put(&mut data, 0, &packet[0..CBW_SIZE]);
        assert(data@ =~= packet@.take(31));
        assert(data@.subrange(15, 31) =~= packet@.subrange(15, 31));
        Cbw::parse(&data)
    }
}

/// The bytes of a command status wrapper.
pub open spec fn csw_bytes(tag: u32, data_residue: u32, status: u8) -> Seq<u8> {
    crate::bytes::le32(CSW_SIGNATURE) + crate::bytes::le32(tag) + crate::bytes::le32(data_residue)
        + seq![status]
}

/// Builds a command status wrapper.
pub fn build_csw(tag: u32, data_residue: u32, status: u8) -> (csw: [u8; CSW_SIZE])
    ensures
        csw@ == csw_bytes(tag, data_residue, status),
{
    let csw: [u8; CSW_SIZE] = [
        (CSW_SIGNATURE % 0x100) as u8,
        (CSW_SIGNATURE / 0x100 % 0x100) as u8,
        (CSW_SIGNATURE / 0x1_0000 % 0x100) as u8,
        (CSW_SIGNATURE / 0x100_0000) as u8,
        (tag % 0x100) as u8,
        (tag / 0x100 % 0x100) as u8,
        (tag / 0x1_0000 % 0x100) as u8,
        (tag / 0x100_0000) as u8,
        (data_residue % 0x100) as u8,
        (data_residue / 0x100 % 0x100) as u8,
        (data_residue / 0x1_0000 % 0x100) as u8,
        (data_residue / 0x100_0000) as u8,
        status,
    ];
    assert(csw@ =~= csw_bytes(tag, data_residue, status));
    csw
}

/// Bytes of the next block of a transfer of which `residue` bytes are left.
pub open spec fn block_part(residue: u32) -> u32 {
    if residue < 512 {
        residue
    } else {
        512
    }
}

/// A transfer from the disk to the host.
#[derive(Debug, Clone, Copy, PartialEq, Eq, Structural)]
pub struct ReadTransfer {
    pub lba: u32,
    pub blocks: u16,
    /// Blocks sent so far.
    pub done: u16,
    /// Bytes that the host still expects.
    pub residue: u32,
}

/// Sector of block `done` of a transfer that starts at `lba`. Beyond the
/// largest number there are no sectors.
pub open spec fn block_address(lba: u32, done: u16) -> u32 {
    if lba + done <= u32::MAX {
        (lba + done) as u32
    } else {
        u32::MAX
    }
}

impl ReadTransfer {
    /// A transfer of which nothing was sent.
    pub open spec fn started(lba: u32, blocks: u16, expected: u32) -> ReadTransfer {
        ReadTransfer { lba, blocks, done: 0, residue: expected }
    }

    /// The bytes to send for the next block.
    pub open spec fn block(self, disk: fat12::DiskModel) -> Seq<u8> {
        disk.sector(block_address(self.lba, self.done) as int).take(
            block_part(self.residue) as int,
        )
    }

    /// The transfer after that block.
    pub open spec fn advanced(self) -> ReadTransfer {
        ReadTransfer {
            done: (self.done + 1) as u16,
            residue: (self.residue - block_part(self.residue)) as u32,
            ..self
        }
    }

    /// All bytes still to be sent, block by block.
    pub open spec fn sent(self, disk: fat12::DiskModel) -> Seq<u8>
        decreases self.blocks - self.done,
    {
        if self.done >= self.blocks {
            Seq::empty()
        } else {
            self.block(disk) + self.advanced().sent(disk)
        }
    }

    /// The bytes to send for the next block, as far as the host expects them;
    /// `None` once all blocks were sent.
    pub fn next_block(&mut self, vfs: &VirtualFat12) -> (data: Option<Vec<u8>>)
        requires
            old(self).done <= old(self).blocks,
        ensures
            final(self).done <= final(self).blocks,
            match data {
                None => old(self).done == old(self).blocks && *final(self) == *old(self),
                Some(data) => {
                    &&& old(self).done < old(self).blocks
                    &&& data@ == old(self).block(vfs@)
                    &&& *final(self) == old(self).advanced()
                },
            },
    {
        if self.done >= self.blocks {
            return None;
        }
        let mut sector: [u8; BLOCK_SIZE] = [0u8;BLOCK_SIZE];
        vfs.read_sector(self.lba.saturating_add(self.done as u32), &mut sector);
        let send: u32 = if self.residue < 512 {
            self.residue
        } else {
            512
        };
        let data: Vec<u8> = crate::storage::copy_bytes(&sector[0..send as usize]);
        assert(data@ =~= sector@.take(send as int));
        self.residue = self.residue - send;
        self.done = self.done + 1;
        Some(data)
    }
}

/// A transfer from the host to the disk as its users see it.
pub struct WriteModel {
    pub lba: u32,
    pub blocks: u16,
    pub done: u16,
    pub residue: u32,
    pub buf: Seq<u8>,
    pub filled: int,
}

impl WriteModel {
    /// A transfer of which nothing was received.
    pub open spec fn started(lba: u32, blocks: u16, expected: u32) -> WriteModel {
        WriteModel { lba, blocks, done: 0, residue: expected, buf: fat12::zeros(512), filled: 0 }
    }

    /// After a packet was received.
    pub open spec fn with_packet(self, packet: Seq<u8>) -> WriteModel {
        WriteModel {
            buf: crate::bytes::spliced(self.buf, self.filled, packet),
            filled: self.filled + packet.len(),
            ..self
        }
    }

    /// The disk after the block was stored on it.
    pub open spec fn stored_on(self, disk: fat12::DiskModel) -> fat12::DiskModel {
        disk.written(block_address(self.lba, self.done) as int, self.buf)
    }

    /// The transfer after that block.
    pub open spec fn advanced(self) -> WriteModel {
        WriteModel {
            done: (self.done + 1) as u16,
            residue: (self.residue - block_part(self.residue)) as u32,
            filled: 0,
            ..self
        }
    }

    /// The disk after the host sent `data` and every block was stored.
    pub open spec fn completed(self, disk: fat12::DiskModel, data: Seq<u8>) -> fat12::DiskModel
        decreases self.blocks - self.done,
    {
        if self.done >= self.blocks {
            disk
        } else {
            let part = block_part(self.residue) as int;
            let full = self.with_packet(data.take(part));
            full.advanced().completed(full.stored_on(disk), data.skip(part))
        }
    }
}

/// A transfer from the host to the disk.
pub struct WriteTransfer {
    pub lba: u32,
    pub blocks: u16,
    /// Blocks stored so far.
    pub done: u16,
    /// Bytes that the host still sends.
    pub residue: u32,
    /// The block being received. What is not received is left from the block
    /// before.
    pub buf: [u8; BLOCK_SIZE],
    /// Bytes of the block received so far.
    pub filled: usize,
}

impl View for WriteTransfer {
    type V = WriteModel;

    open spec fn view(&self) -> WriteModel {
        WriteModel {
            lba: self.lba,
            blocks: self.blocks,
            done: self.done,
            residue: self.residue,
            buf: self.buf@,
            filled: self.filled as int,
        }
    }
}

impl WriteTransfer {
    pub open spec fn wf(self) -> bool {
        &&& self.done <= self.blocks
        &&& self.filled <= block_part(self.residue)
    }

    /// Bytes of the current block still to be received; `None` once all blocks
    /// were stored.
    pub fn expected(&self) -> (n: Option<usize>)
        requires
            self.wf(),
        ensures
            n == if self.done < self.blocks {
                Some((block_part(self.residue) - self.filled) as usize)
            } else {
                None
            },
    {
        if self.done >= self.blocks {
            return None;
        }
        let part: u32 = if self.residue < 512 {
            self.residue
        } else {
            512
        };
        Some(part as usize - self.filled)
    }

    /// Takes a received packet.
    pub fn receive(&mut self, packet: &[u8])
        requires
            old(self).wf(),
            old(self).filled + packet@.len() <= block_part(old(self).residue),
        ensures
            final(self).wf(),
            final(self)@ == old(self)@.with_packet(packet@),
    {
        put(&mut self.buf, self.filled, packet);
        self.filled = self.filled + packet.len();
    }

    /// Stores the block, as far as it was received, and goes on to the next.
    pub fn store_block(&mut self, vfs: &mut VirtualFat12)
        requires
            old(self).wf(),
            old(self).done < old(self).blocks,
        ensures
            final(self).wf(),
            final(self)@ == old(self)@.advanced(),
            final(vfs)@ == old(self)@.stored_on(old(vfs)@),
    {
        vfs.write_sector(self.lba.saturating_add(self.done as u32), &self.buf);
        let part: u32 = if self.residue < 512 {
            self.residue
        } else {
            512
        };
        self.residue = self.residue - part;
        self.done = self.done + 1;
        self.filled = 0;
    }
}

/// What a command asks for.
pub enum Scsi {
    /// Nothing: the command has passed.
    Pass,
    /// Answer with these bytes; the command has passed, with this residue.
    Reply { data: Vec<u8>, residue: u32 },
    /// The disk was ejected; store the file, if there is one. The command has
    /// passed.
    Eject(Option<Vec<u8>>),
    /// Send blocks; the command passes with the residue of the transfer.
    Read(ReadTransfer),
    /// Receive blocks; the command passes with the residue of the transfer.
    Write(WriteTransfer),
    /// The command has failed; send this many zeros first.
    Unknown { zeros: u32 },
}

impl Scsi {
    /// The status that the command is answered with: only an unknown one fails.
    pub fn status(&self) -> (status: u8)
        ensures
            status == if *self is Unknown {
                CSW_STATUS_FAILED
            } else {
                CSW_STATUS_PASSED
            },
    {
        match self {
            Scsi::Unknown { .. } => CSW_STATUS_FAILED,
            _ => CSW_STATUS_PASSED,
        }
    }
}

/// The answer with as much of `data` as the host expects.
pub open spec fn replied(s: Scsi, data: Seq<u8>, expected: u32) -> bool {
    &&& s matches Scsi::Reply { data: sent, residue }
    &&& sent@ == data.take(
        if expected < data.len() {
            expected as int
        } else {
            data.len() as int
        },
    )
    &&& residue == expected - sent@.len()
}

/// Whether a command ejects the disk: to stop and unload it, or to allow its
/// removal.
pub open spec fn ejects(cb: Seq<u8>) -> bool {
    ||| cb[0] == SCSI_START_STOP_UNIT && cb[4] / 2 % 2 == 1 && cb[4] % 2 == 0
    ||| cb[0] == SCSI_PREVENT_ALLOW_MEDIUM_REMOVAL && cb[4] % 2 == 0
}

/// What command `cbw` asks of a disk `before`, and what it leaves behind.
pub open spec fn handled(
    cbw: Cbw,
    before: fat12::DiskModel,
    s: Scsi,
    after: fat12::DiskModel,
) -> bool {
    let cb = cbw.cb@;
    let op = cb[0];
    let expected = cbw.data_transfer_length;
    let lba = crate::bytes::from_be32(cb, 2);
    let blocks = crate::bytes::from_be16(cb, 7);
    if ejects(cb) {
        &&& after == fat12::DiskModel { dirty: false, ejected: true, ..before }
        &&& s matches Scsi::Eject(file)
        &&& match file {
            Some(file) => before.dirty && before.file() == Some(file@),
            None => !before.dirty || before.file() is None,
        }
    } else {
        &&& after == before
        &&& if op == SCSI_TEST_UNIT_READY || op == SCSI_SYNCHRONIZE_CACHE || op
            == SCSI_START_STOP_UNIT || op == SCSI_PREVENT_ALLOW_MEDIUM_REMOVAL {
            s == Scsi::Pass
        } else if op == SCSI_INQUIRY {
            replied(s, INQUIRY_DATA@, expected)
        } else if op == SCSI_READ_FORMAT_CAPACITIES {
            replied(s, FORMAT_CAPACITIES@, expected)
        } else if op == SCSI_READ_CAPACITY_10 {
            replied(s, CAPACITY@, 8)
        } else if op == SCSI_REQUEST_SENSE {
            replied(s, SENSE_DATA@, expected)
        } else if op == SCSI_MODE_SENSE_6 {
            replied(s, MODE_DATA@, expected)
        } else if op == SCSI_READ_10 {
            s == Scsi::Read(ReadTransfer::started(lba as u32, blocks as u16, expected))
        } else if op == SCSI_WRITE_10 {
            &&& s matches Scsi::Write(w)
            &&& w@ == WriteModel::started(lba as u32, blocks as u16, expected)
        } else {
            s == Scsi::Unknown {
                zeros: if cbw.direction == Direction::In {
                    expected
                } else {
                    0
                },
            }
        }
    }
}

fn reply(data: &[u8], expected: u32) -> (s: Scsi)
    requires
        data@.len() <= 64,
    ensures
        replied(s, data@, expected),
{
    let len: usize = data.len();
    let send: usize = if (expected as u64) < len as u64 {
        expected as usize
    } else {
        len
    };
    let sent: Vec<u8> = crate::storage::copy_bytes(&data[0..send]);
    assert(sent@ =~= data@.take(send as int));
    Scsi::Reply { data: sent, residue: expected - send as u32 }
}

/// Mass storage class with its packet size.
pub struct MscClass {
    max_packet_size: usize,
}

impl MscClass {
    /// Largest packet.
    pub closed spec fn packet_size(self) -> int {
        self.max_packet_size as int
    }

    pub fn new(max_packet_size: u16) -> (class: Self)
        ensures
            class.packet_size() == max_packet_size,
    {
        MscClass { max_packet_size: max_packet_size as usize }
    }

    /// Length of the next packet of a message of which `sent` bytes were sent.
    pub fn packet_len(&self, total: usize, sent: usize) -> (len: usize)
        requires
            sent <= total,
            self.packet_size() > 0,
        ensures
            len == if total - sent < self.packet_size() {
                total - sent
            } else {
                self.packet_size()
            },
            sent < total ==> len > 0,
    {
        if total - sent < self.max_packet_size {
            total - sent
        } else {
            self.max_packet_size
        }
    }

    /// Handles a command.
    pub fn handle_scsi(&self, cbw: &Cbw, vfs: &mut VirtualFat12) -> (s: Scsi)
        ensures
            handled(*cbw, old(vfs)@, s, final(vfs)@),
    {
        let op: u8 = cbw.cb[0];
        let expected: u32 = cbw.data_transfer_length;
        if op == SCSI_TEST_UNIT_READY || op == SCSI_SYNCHRONIZE_CACHE {
            Scsi::Pass
        } else if op == SCSI_INQUIRY {
            reply(&INQUIRY_DATA, expected)
        } else if op == SCSI_START_STOP_UNIT {
            if cbw.cb[4] / 2 % 2 == 1 && cbw.cb[4] % 2 == 0 {
                Scsi::Eject(vfs.flush())
            } else {
                Scsi::Pass
            }
        } else if op == SCSI_READ_FORMAT_CAPACITIES {
            reply(&FORMAT_CAPACITIES, expected)
        } else if op == SCSI_READ_CAPACITY_10 {
            reply(&CAPACITY, 8)
        } else if op == SCSI_READ_10 {
            Scsi::Read(
                ReadTransfer {
                    lba: read_be32(&cbw.cb, 2),
                    blocks: read_be16(&cbw.cb, 7),
                    done: 0,
                    residue: expected,
                },
            )
        } else if op == SCSI_WRITE_10 {
            let buf: [u8; BLOCK_SIZE] = [0u8;BLOCK_SIZE];
            assert(buf@ =~= fat12::zeros(512));
            Scsi::Write(
                WriteTransfer {
                    lba: read_be32(&cbw.cb, 2),
                    blocks: read_be16(&cbw.cb, 7),
                    done: 0,
                    residue: expected,
                    buf,
                    filled: 0,
                },
            )
        } else if op == SCSI_REQUEST_SENSE {
            reply(&SENSE_DATA, expected)
        } else if op == SCSI_MODE_SENSE_6 {
            reply(&MODE_DATA, expected)
        } else if op == SCSI_PREVENT_ALLOW_MEDIUM_REMOVAL {
            if cbw.cb[4] % 2 == 0 {
                Scsi::Eject(vfs.flush())
            } else {
                Scsi::Pass
            }
        } else {
            Scsi::Unknown {
                zeros: if cbw.direction == Direction::In {
                    expected
                } else {
                    0
                },
            }
        }
    }
}

/// Bytes sent and residue of a transfer add up to what the host expected: after
/// `n` blocks, 512 bytes of each were moved, as far as they were expected.
pub proof fn law_residue(expected: u32, n: nat)
    ensures
        residue_after(expected, n) == if expected as int - 512 * n > 0 {
            expected - 512 * n
        } else {
            0
        },
    decreases n,
{
    if n > 0 {
        law_residue(expected, (n - 1) as nat);
    }
}

/// The residue after `n` blocks.
pub open spec fn residue_after(expected: u32, n: nat) -> u32
    decreases n,
{
    if n == 0 {
        expected
    } else {
        let before = residue_after(expected, (n - 1) as nat);
        (before - block_part(before)) as u32
    }
}

/// A byte of a run of sectors.
pub open spec fn run_byte(disk: fat12::DiskModel, lba: u32, i: int) -> u8 {
    disk.sector(block_address(lba, (i / 512) as u16) as int)[i % 512]
}

/// The blocks that a READ sends, joined, are the bytes of its sectors, as far as
/// the host expects them.
pub proof fn law_read_sends_sectors(
    disk: fat12::DiskModel,
    lba: u32,
    blocks: u16,
    expected: u32,
)
    requires
        disk.wf(),
    ensures
        ReadTransfer::started(lba, blocks, expected).sent(disk) == Seq::new(
            if expected < 512 * blocks {
                expected as nat
            } else {
                512 * (blocks as nat)
            },
            |i: int| run_byte(disk, lba, i),
        ),
{
    lemma_sent(disk, ReadTransfer::started(lba, blocks, expected), expected);
}

proof fn lemma_sent(disk: fat12::DiskModel, t: ReadTransfer, expected: u32)
    requires
        disk.wf(),
        t.done <= t.blocks,
        t.residue == if expected > 512 * t.done {
            expected - 512 * t.done
        } else {
            0
        },
    ensures
        ({
            let left = 512 * (t.blocks - t.done);
            t.sent(disk) == Seq::new(
                if t.residue < left {
                    t.residue as nat
                } else {
                    left as nat
                },
                |i: int| run_byte(disk, t.lba, 512 * t.done + i),
            )
        }),
    decreases t.blocks - t.done,
{
    let left = 512 * (t.blocks - t.done);
    let whole = Seq::new(
        if t.residue < left {
            t.residue as nat
        } else {
            left as nat
        },
        |i: int| run_byte(disk, t.lba, 512 * t.done + i),
    );
    if t.done < t.blocks {
        let rest = t.advanced();
        lemma_sent(disk, rest, expected);
        let part = block_part(t.residue) as int;
        let address = block_address(t.lba, t.done) as int;
        assert(disk.sector(address).len() == 512);
        assert(t.block(disk).len() == part);
        assert forall|i: int| 0 <= i < whole.len() implies #[trigger] t.sent(disk)[i]
            == whole[i] by {
            if i < part {
                assert((512 * t.done + i) / 512 == t.done);
                assert((512 * t.done + i) % 512 == i);
                assert(t.block(disk)[i] == disk.sector(address)[i]);
            } else {
                assert(part == 512);
                assert(rest.sent(disk)[i - 512] == run_byte(
                    disk,
                    t.lba,
                    512 * rest.done + (i - 512),
                ));
            }
        }
    }
    assert(t.sent(disk) =~= whole);
}

/// It does not matter in which packets a block arrives.
pub proof fn law_packets_join(w: WriteModel, first: Seq<u8>, second: Seq<u8>)
    requires
        0 <= w.filled,
        w.filled + first.len() + second.len() <= w.buf.len(),
    ensures
        w.with_packet(first).with_packet(second) == w.with_packet(first + second),
{
    assert(w.with_packet(first).with_packet(second).buf =~= w.with_packet(first + second).buf);
}

/// What the host writes to sectors of the FAT, the root directory and the data
/// area with a WRITE, a READ of those sectors gives back.
pub proof fn law_read_gives_back_write(
    disk: fat12::DiskModel,
    lba: u32,
    blocks: u16,
    data: Seq<u8>,
)
    requires
        disk.wf(),
        1 <= lba,
        lba + blocks <= fat12::TOTAL_SECTORS,
        data.len() == 512 * blocks,
    ensures
        ({
            let expected = data.len() as u32;
            let after = WriteModel::started(lba, blocks, expected).completed(disk, data);
            &&& after.wf()
            &&& ReadTransfer::started(lba, blocks, expected).sent(after) == data
        }),
{
    let expected = data.len() as u32;
    let start = WriteModel::started(lba, blocks, expected);
    lemma_completed(disk, start, data);
    let after = start.completed(disk, data);
    law_read_sends_sectors(after, lba, blocks, expected);
    let sent = ReadTransfer::started(lba, blocks, expected).sent(after);
    assert forall|i: int| 0 <= i < data.len() implies #[trigger] sent[i] == data[i] by {
        let k = i / 512;
        assert(sent[i] == run_byte(after, lba, i));
        assert(after.sector(lba + k) == data.subrange(512 * k, 512 * k + 512));
        assert(data.subrange(512 * k, 512 * k + 512)[i % 512] == data[i]);
    }
    assert(sent =~= data);
}

/// A WRITE leaves the sectors before its own as they were and stores its data
/// in its own.
proof fn lemma_completed(disk: fat12::DiskModel, w: WriteModel, data: Seq<u8>)
    requires
        disk.wf(),
        w.done <= w.blocks,
        w.filled == 0,
        w.buf.len() == 512,
        1 <= w.lba,
        w.lba + w.blocks <= fat12::TOTAL_SECTORS,
        data.len() == 512 * (w.blocks - w.done),
        w.residue == data.len(),
    ensures
        ({
            let after = w.completed(disk, data);
            &&& after.wf()
            &&& forall|lba: int|
                0 <= lba < w.lba + w.done ==> #[trigger] after.sector(lba) == disk.sector(lba)
            &&& forall|k: int|
                0 <= k < w.blocks - w.done ==> #[trigger] after.sector(w.lba + w.done + k)
                    == data.subrange(512 * k, 512 * k + 512)
        }),
    decreases w.blocks - w.done,
{
    if w.done < w.blocks {
        let block = data.take(512);
        let full = w.with_packet(block);
        assert(full.buf =~= block);
        let next = full.advanced();
        let disk2 = full.stored_on(disk);
        let at = (w.lba + w.done) as int;
        fat12::law_read_gives_back_write(disk, at, block, at);
        lemma_completed(disk2, next, data.skip(512));
        let after = w.completed(disk, data);
        assert(after == next.completed(disk2, data.skip(512)));
        assert forall|lba: int| 0 <= lba < at implies #[trigger] after.sector(lba) == disk.sector(
            lba,
        ) by {
            fat12::law_read_gives_back_write(disk, at, block, lba);
        }
        assert forall|k: int| 0 <= k < w.blocks - w.done implies #[trigger] after.sector(at + k)
            == data.subrange(512 * k, 512 * k + 512) by {
            if k == 0 {
                assert(after.sector(at) == disk2.sector(at));
                assert(block =~= data.subrange(0, 512));
            } else {
                assert(after.sector(next.lba + next.done + (k - 1)) == data.skip(512).subrange(
                    512 * (k - 1),
                    512 * (k - 1) + 512,
                ));
                assert(data.skip(512).subrange(512 * (k - 1), 512 * (k - 1) + 512)
                    =~= data.subrange(512 * k, 512 * k + 512));
            }
        }
    }
}

/// The status wrapper carries the tag of the command and the residue, so that
/// the host can tell them back.
pub proof fn law_csw_carries_tag(tag: u32, data_residue: u32, status: u8)
    ensures
        ({
            let csw = csw_bytes(tag, data_residue, status);
            &&& csw.len() == CSW_SIZE
            &&& crate::bytes::from_le32(csw, 0) == CSW_SIGNATURE
            &&& crate::bytes::from_le32(csw, 4) == tag
            &&& crate::bytes::from_le32(csw, 8) == data_residue
            &&& csw[12] == status
        }),
{
}

/// Where a command wrapper has its fields: `USBC`, tag, length, direction in the
/// top bit of byte 12, and from byte 15 on the command.
pub proof fn law_command_fields(cbw: Cbw, data: Seq<u8>, i: int)
    requires
        data.len() == 31,
        cbw.encoded(data),
    ensures
        data[0] == 0x55 && data[1] == 0x53 && data[2] == 0x42 && data[3] == 0x43,
        cbw.tag == data[4] + 0x100 * data[5] + 0x1_0000 * data[6] + 0x100_0000 * data[7],
        cbw.data_transfer_length == data[8] + 0x100 * data[9] + 0x1_0000 * data[10] + 0x100_0000
            * data[11],
        cbw.direction == Direction::In <==> data[12] >= 128,
        cbw.cb_len < 32,
        (data[14] - cbw.cb_len) % 32 == 0,
        0 <= i < 16 ==> cbw.cb@[i] == data[15 + i],
{
}

/// A status wrapper starts with `USBS`; its numbers have the least significant
/// byte first.
pub proof fn law_status_fields(tag: u32, data_residue: u32, status: u8)
    ensures
        ({
            let b = csw_bytes(tag, data_residue, status);
            &&& b.len() == 13
            &&& b[0] == 0x55 && b[1] == 0x53 && b[2] == 0x42 && b[3] == 0x53
            &&& b[4] + 0x100 * b[5] + 0x1_0000 * b[6] + 0x100_0000 * b[7] == tag
            &&& b[8] + 0x100 * b[9] + 0x1_0000 * b[10] + 0x100_0000 * b[11] == data_residue
            &&& b[12] == status
        }),
{
}

/// The blocks of a transfer are successive sectors from the first on.
pub proof fn law_blocks_are_successive(lba: u32, done: u16)
    ensures
        block_address(lba, 0) == lba,
        done < 0xFFFF && lba + done < u32::MAX ==> block_address(lba, (done + 1) as u16)
            == block_address(lba, done) + 1,
        lba + done >= u32::MAX ==> block_address(lba, done) == u32::MAX,
{
}

/// A block is 512 bytes, the last one what is left.
pub proof fn law_block_parts(residue: u32)
    ensures
        residue >= 512 ==> block_part(residue) == 512,
        residue < 512 ==> block_part(residue) == residue,
{
}

/// Each block that is sent is the start of the next sector, and what it holds is
/// taken off what the host expects.
pub proof fn law_read_step(t: ReadTransfer, disk: fat12::DiskModel, i: int)
    requires
        disk.wf(),
        t.done < t.blocks,
        t.lba + t.done <= u32::MAX,
    ensures
        t.block(disk).len() <= 512,
        t.block(disk).len() == 512 || t.block(disk).len() == t.residue,
        0 <= i < t.block(disk).len() ==> t.block(disk)[i] == disk.sector(t.lba + t.done)[i],
        t.advanced().residue + t.block(disk).len() == t.residue,
        t.advanced().done == t.done + 1,
        t.advanced().lba == t.lba && t.advanced().blocks == t.blocks,
{
}

/// A packet goes behind what was received of the block.
pub proof fn law_packet_is_appended(w: WriteModel, packet: Seq<u8>, i: int)
    requires
        0 <= w.filled,
        w.filled + packet.len() <= w.buf.len(),
        0 <= i < w.buf.len(),
    ensures
        ({
            let after = w.with_packet(packet);
            &&& after.filled == w.filled + packet.len()
            &&& after.buf.len() == w.buf.len()
            &&& w.filled <= i < after.filled ==> after.buf[i] == packet[i - w.filled]
            &&& !(w.filled <= i < after.filled) ==> after.buf[i] == w.buf[i]
            &&& after.lba == w.lba && after.blocks == w.blocks && after.done == w.done
                && after.residue == w.residue
        }),
{
}

/// A block that was received goes to the next sector, which then reads as that
/// block; the next one starts over.
pub proof fn law_write_step(w: WriteModel, disk: fat12::DiskModel)
    requires
        disk.wf(),
        w.buf.len() == 512,
        1 <= w.lba + w.done < 64,
        w.done < w.blocks,
    ensures
        w.stored_on(disk).sector(w.lba + w.done) == w.buf,
        w.stored_on(disk).dirty,
        w.advanced().done == w.done + 1,
        w.advanced().filled == 0,
        w.advanced().residue + block_part(w.residue) == w.residue,
        w.advanced().buf == w.buf && w.advanced().lba == w.lba && w.advanced().blocks == w.blocks,
{
    fat12::law_read_gives_back_write(disk, w.lba + w.done, w.buf, w.lba + w.done);
}

/// No command but those that eject changes the disk; ejecting leaves its contents.
pub proof fn law_only_eject_changes(
    cbw: Cbw,
    before: fat12::DiskModel,
    s: Scsi,
    after: fat12::DiskModel,
)
    requires
        handled(cbw, before, s, after),
    ensures
        ({
            let op = cbw.cb@[0];
            let eject = op == 0x1B && cbw.cb@[4] % 4 == 2 || op == 0x1E && cbw.cb@[4] % 2 == 0;
            &&& after.fat == before.fat && after.root == before.root && after.data == before.data
            &&& eject <==> s is Eject
            &&& eject ==> after.ejected && !after.dirty
            &&& !eject ==> after.ejected == before.ejected && after.dirty == before.dirty
            &&& s matches Scsi::Eject(file) ==> (file is Some <==> before.dirty && before.file()
                is Some)
            &&& s matches Scsi::Eject(Some(file)) ==> before.file() == Some(file@)
        }),
{
}

/// A READ or WRITE moves as many blocks as the command says, from the sector it
/// names on, as far as the host announced bytes.
pub proof fn law_transfer_commands(
    cbw: Cbw,
    before: fat12::DiskModel,
    s: Scsi,
    after: fat12::DiskModel,
)
    requires
        handled(cbw, before, s, after),
    ensures
        ({
            let cb = cbw.cb@;
            let lba = 0x100_0000 * cb[2] + 0x1_0000 * cb[3] + 0x100 * cb[4] + cb[5];
            let blocks = 0x100 * cb[7] + cb[8];
            &&& cb[0] == 0x28 <==> s is Read
            &&& cb[0] == 0x2A <==> s is Write
            &&& s matches Scsi::Read(t) ==> t.lba == lba && t.blocks == blocks && t.done == 0
                && t.residue == cbw.data_transfer_length
            &&& s matches Scsi::Write(w) ==> w.lba == lba && w.blocks == blocks && w.done == 0
                && w.residue == cbw.data_transfer_length && w.filled == 0
        }),
{
    if let Scsi::Write(w) = s {
        assert(w@.lba == w.lba && w@.blocks == w.blocks && w@.done == w.done);
        assert(w@.residue == w.residue && w@.filled == w.filled);
    }
}

/// Bytes sent and residue of an answer add up to what the host expects, and the
/// bytes are the first ones of the data.
pub proof fn law_replies(s: Scsi, data: Seq<u8>, expected: u32, i: int)
    requires
        replied(s, data, expected),
    ensures
        s matches Scsi::Reply { data: sent, residue } && sent@.len() + residue == expected
            && sent@.len() <= data.len() && (residue == 0 || sent@.len() == data.len()) && (0 <= i
            < sent@.len() ==> sent@[i] == data[i]),
{
}

/// Which commands are answered, which pass, and that every other one is unknown
/// and filled up with zeros if the host wants to read.
pub proof fn law_other_commands(
    cbw: Cbw,
    before: fat12::DiskModel,
    s: Scsi,
    after: fat12::DiskModel,
)
    requires
        handled(cbw, before, s, after),
    ensures
        ({
            let op = cbw.cb@[0];
            let n = cbw.data_transfer_length;
            &&& op == 0x12 ==> replied(s, INQUIRY_DATA@, n)
            &&& op == 0x23 ==> replied(s, FORMAT_CAPACITIES@, n)
            &&& op == 0x25 ==> replied(s, CAPACITY@, 8)
            &&& op == 0x03 ==> replied(s, SENSE_DATA@, n)
            &&& op == 0x1A ==> replied(s, MODE_DATA@, n)
            &&& op == 0x00 || op == 0x35 || op == 0x1B && cbw.cb@[4] % 4 != 2 || op == 0x1E
                && cbw.cb@[4] % 2 == 1 ==> s == Scsi::Pass
            &&& s is Unknown <==> !(op == 0x12 || op == 0x23 || op == 0x25 || op == 0x03 || op
                == 0x1A || op == 0x00 || op == 0x35 || op == 0x1B || op == 0x1E || op == 0x28 || op
                == 0x2A)
            &&& s matches Scsi::Unknown { zeros } ==> zeros == if cbw.direction == Direction::In {
                n
            } else {
                0
            }
        }),
{
}

/// A command wrapper is taken from a packet of 31 bytes or more that starts with
/// `USBC`, field by field.
pub proof fn law_receiving_commands(packet: &[u8], cbw: Option<Cbw>, i: int)
    requires
        packet@.len() >= 4,
        call_ensures(Cbw::receive, (packet,), cbw),
    ensures
        cbw is Some <==> packet@.len() >= 31 && packet@[0] == 0x55 && packet@[1] == 0x53
            && packet@[2] == 0x42 && packet@[3] == 0x43,
        cbw matches Some(c) ==> {
            &&& c.tag == packet@[4] + 0x100 * packet@[5] + 0x1_0000 * packet@[6] + 0x100_0000
                * packet@[7]
            &&& c.data_transfer_length == packet@[8] + 0x100 * packet@[9] + 0x1_0000 * packet@[10]
                + 0x100_0000 * packet@[11]
            &&& c.direction == Direction::In <==> packet@[12] >= 128
            &&& c.cb_len == packet@[14] % 32
            &&& 0 <= i < 16 ==> c.cb@[i] == packet@[15 + i]
        },
{
}

/// The status wrapper that is built, byte by byte.
pub proof fn law_building_status(tag: u32, residue: u32, status: u8, csw: [u8; CSW_SIZE])
    requires
        call_ensures(build_csw, (tag, residue, status), csw),
    ensures
        ({
            let b = csw@;
            &&& b[0] == 0x55 && b[1] == 0x53 && b[2] == 0x42 && b[3] == 0x53
            &&& b[4] + 0x100 * b[5] + 0x1_0000 * b[6] + 0x100_0000 * b[7] == tag
            &&& b[8] + 0x100 * b[9] + 0x1_0000 * b[10] + 0x100_0000 * b[11] == residue
            &&& b[12] == status
        }),
{
    law_status_fields(tag, residue, status);
}

/// Each block that is read is the next sector, as far as the host expects it, until
/// all blocks were sent.
pub proof fn law_reading_blocks(
    t: &mut ReadTransfer,
    vfs: &VirtualFat12,
    data: Option<Vec<u8>>,
    i: int,
)
    requires
        old(t).done <= old(t).blocks,
        old(t).lba + old(t).done <= u32::MAX,
        call_ensures(ReadTransfer::next_block, (t, vfs), data),
    ensures
        data is None <==> old(t).done == old(t).blocks,
        data is None ==> *final(t) == *old(t),
        data matches Some(d) ==> {
            &&& d@.len() <= 512 && (d@.len() == 512 || d@.len() == old(t).residue)
            &&& 0 <= i < d@.len() ==> d@[i] == vfs@.sector(old(t).lba + old(t).done)[i]
            &&& final(t).residue + d@.len() == old(t).residue
            &&& final(t).done == old(t).done + 1
            &&& final(t).lba == old(t).lba && final(t).blocks == old(t).blocks
        },
{
    vfs.law_areas();
    if data is Some {
        law_read_step(*old(t), vfs@, i);
    }
}

/// A block that is written is received packet by packet and stored in the next
/// sector.
pub proof fn law_writing_blocks(
    w: &mut WriteTransfer,
    packet: &[u8],
    s: &mut WriteTransfer,
    vfs: &mut VirtualFat12,
    i: int,
)
    requires
        old(w).wf(),
        old(w).filled + packet@.len() <= block_part(old(w).residue),
        old(s).wf(),
        old(s).done < old(s).blocks,
        1 <= old(s).lba + old(s).done < 64,
        old(vfs)@.wf(),
        0 <= i < 512,
        call_ensures(WriteTransfer::receive, (w, packet), ()),
        call_ensures(WriteTransfer::store_block, (s, vfs), ()),
    ensures
        final(w).filled == old(w).filled + packet@.len(),
        old(w).filled <= i < final(w).filled ==> final(w).buf@[i] == packet@[i - old(w).filled],
        !(old(w).filled <= i < final(w).filled) ==> final(w).buf@[i] == old(w).buf@[i],
        final(w).done == old(w).done && final(w).residue == old(w).residue,
        final(vfs)@.sector(old(s).lba + old(s).done) == old(s).buf@,
        final(s).done == old(s).done + 1 && final(s).filled == 0,
        final(s).residue + block_part(old(s).residue) == old(s).residue,
{
    law_packet_is_appended(old(w)@, packet@, i);
    assert(final(w)@.buf[i] == final(w).buf@[i]);
    assert(old(w)@.buf[i] == old(w).buf@[i]);
    assert(final(w)@.filled == final(w).filled && final(w)@.done == final(w).done);
    assert(final(w)@.residue == final(w).residue);
    law_write_step(old(s)@, old(vfs)@);
    assert(final(s)@.filled == final(s).filled && final(s)@.done == final(s).done);
    assert(final(s)@.residue == final(s).residue);
}

/// A command never fails but as an unknown one; what it asks for is told by its
/// first byte.
pub proof fn law_handling(
    class: MscClass,
    cbw: Cbw,
    vfs: &mut VirtualFat12,
    s: Scsi,
    status: u8,
)
    requires
        call_ensures(MscClass::handle_scsi, (&class, &cbw, vfs), s),
        call_ensures(Scsi::status, (&s,), status),
    ensures
        ({
            let op = cbw.cb@[0];
            &&& status == 1 <==> s is Unknown
            &&& status == 0 <==> !(s is Unknown)
            &&& op == 0x28 <==> s is Read
            &&& op == 0x2A <==> s is Write
            &&& s is Eject <==> op == 0x1B && cbw.cb@[4] % 4 == 2 || op == 0x1E && cbw.cb@[4] % 2
                == 0
            &&& op == 0x12 ==> replied(s, INQUIRY_DATA@, cbw.data_transfer_length)
            &&& op == 0x25 ==> replied(s, CAPACITY@, 8)
            &&& op == 0x23 ==> replied(s, FORMAT_CAPACITIES@, cbw.data_transfer_length)
            &&& op == 0x03 ==> replied(s, SENSE_DATA@, cbw.data_transfer_length)
            &&& op == 0x1A ==> replied(s, MODE_DATA@, cbw.data_transfer_length)
            &&& op == 0x00 || op == 0x35 ==> s == Scsi::Pass
            &&& s matches Scsi::Read(t) ==> t.lba == 0x100_0000 * cbw.cb@[2] + 0x1_0000 * cbw.cb@[3]
                + 0x100 * cbw.cb@[4] + cbw.cb@[5] && t.blocks == 0x100 * cbw.cb@[7] + cbw.cb@[8]
                && t.done == 0 && t.residue == cbw.data_transfer_length
            &&& s matches Scsi::Write(t) ==> t.lba == 0x100_0000 * cbw.cb@[2] + 0x1_0000
                * cbw.cb@[3] + 0x100 * cbw.cb@[4] + cbw.cb@[5] && t.blocks == 0x100 * cbw.cb@[7]
                + cbw.cb@[8] && t.done == 0 && t.residue == cbw.data_transfer_length && t.filled
                == 0
            &&& final(vfs)@.fat == old(vfs)@.fat && final(vfs)@.root == old(vfs)@.root && final(
                vfs)@.data == old(vfs)@.data
            &&& final(vfs)@.ejected <==> old(vfs)@.ejected || s is Eject
        }),
{
    law_only_eject_changes(cbw, old(vfs)@, s, final(vfs)@);
    law_transfer_commands(cbw, old(vfs)@, s, final(vfs)@);
    law_other_commands(cbw, old(vfs)@, s, final(vfs)@);
}

/// A message is sent in packets of the class's size, the last one with what is left.
pub proof fn law_message_packets(class: MscClass, total: usize, sent: usize, len: usize)
    requires
        sent <= total,
        class.packet_size() > 0,
        call_ensures(MscClass::packet_len, (&class, total, sent), len),
    ensures
        sent + len <= total,
        len <= class.packet_size(),
        len == class.packet_size() || sent + len == total,
{
}

} // verus!
