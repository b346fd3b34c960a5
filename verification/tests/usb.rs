use otteramp_dsp::audio::output::{SOURCE_SPDIF, SOURCE_USB};
use otteramp_dsp::audio::pipeline::{AudioRingBuffer, StereoFrame};
use otteramp_dsp::bytes::{put, read_be16, read_be32, read_le16, read_le32, to_be32};
use otteramp_dsp::usb::audio::{
    frames_from_packet, raw_feedback, receive_packet, usb_24bit_to_i2s_32bit,
    usb_24bit_to_stereo_packed, HostVolume, RateFeedback, SampleWidth, UsbAudioConfig,
    VolumeMonitor,
};
use otteramp_dsp::usb_msc::fat12::{write_fat12_entry, VirtualFat12, MAX_FILE_SIZE};
use otteramp_dsp::usb_msc::{build_csw, Cbw, Direction, MscClass, Scsi};

#[test]
fn integers_in_bytes() {
    let data = [9, 0x12, 0x34, 0x56, 0x78];
    assert_eq!(read_be32(&data, 1), 0x1234_5678);
    assert_eq!(read_be16(&data, 1), 0x1234);
    assert_eq!(read_le32(&data, 1), 0x7856_3412);
    assert_eq!(read_le16(&data, 3), 0x7856);
    assert_eq!(to_be32(0x0102_0304), [1, 2, 3, 4]);
    let mut dest = [0u8; 4];
    put(&mut dest, 1, &[7, 8]);
    assert_eq!(dest, [0, 7, 8, 0]);
}

#[test]
fn audio_configurations() {
    let config = UsbAudioConfig::default();
    assert_eq!(config.sample_rate, 96_000);
    assert_eq!(config.max_packet_size, 640);
    assert_eq!(config.bytes_per_sample(), 6);
    assert_eq!(config.bytes_per_frame(), 576);
    assert_eq!(UsbAudioConfig::new_96k_24bit().sample_rate, 96_000);
    let slow = UsbAudioConfig::new_48k_24bit();
    assert_eq!(slow.max_packet_size, 320);
    assert_eq!(slow.bytes_per_frame(), 288);
    for (bit_depth, bytes) in [
        (SampleWidth::Width2Byte, 4),
        (SampleWidth::Width3Byte, 6),
        (SampleWidth::Width4Byte, 8),
    ] {
        let config = UsbAudioConfig { sample_rate: 44_100, bit_depth, max_packet_size: 640 };
        assert_eq!(config.bytes_per_sample(), bytes);
        assert_eq!(config.bytes_per_frame(), 44 * bytes);
    }
}

const PACKET: [u8; 13] = [0x01, 0x02, 0x03, 0xFF, 0xFF, 0xFF, 0, 0, 0x80, 0xFF, 0xFF, 0x7F, 0x55];

#[test]
fn packets_to_samples() {
    let mut left = [0i32; 4];
    let mut right = [0i32; 4];
    assert_eq!(usb_24bit_to_i2s_32bit(&PACKET, &mut left, &mut right), 2);
    assert_eq!(left, [0x0302_0100, i32::MIN, 0, 0]);
    assert_eq!(right, [-256, 0x7FFF_FF00, 0, 0]);
    assert_eq!(usb_24bit_to_i2s_32bit(&PACKET, &mut left, &mut right[..1]), 1);

    let mut packed = [0u64; 4];
    assert_eq!(usb_24bit_to_stereo_packed(&PACKET, &mut packed), 2);
    assert_eq!(packed, [0x0302_0100_FFFF_FF00, 0x8000_0000_7FFF_FF00, 0, 0]);
    assert_eq!(usb_24bit_to_stereo_packed(&PACKET, &mut packed[..0]), 0);

    assert_eq!(
        frames_from_packet(&PACKET),
        vec![StereoFrame::new(0x0302_0100, -256), StereoFrame::new(i32::MIN, 0x7FFF_FF00)]
    );
}

#[test]
fn packets_are_played_if_usb_is_active() {
    let mut ring = AudioRingBuffer::new();
    receive_packet(&mut ring, SOURCE_SPDIF, &PACKET);
    assert_eq!(ring.available(), 0);
    receive_packet(&mut ring, SOURCE_USB, &PACKET);
    assert_eq!(ring.available(), 2);
    assert_eq!(ring.read_sample(), Some(StereoFrame::new(0x0302_0100, -256)));
}

#[test]
fn rate_feedback() {
    assert_eq!(raw_feedback(0x1234_5678), [0x78, 0x56, 0x34]);
    let mut feedback = RateFeedback::new(96_000);
    assert_eq!(feedback.update_feedback(767), None);
    // 96 samples in a frame, in 10.14 format.
    assert_eq!(feedback.update_feedback(1), Some([0x00, 0x00, 0x18]));
    feedback.packet_sent();
    assert_eq!(feedback.sample_count(), 0);
    assert_eq!(feedback.update_feedback(767), None);
    assert_eq!(feedback.update_feedback(9), Some([0x00, 0x40, 0x18]));
    // A packet that was not sent leaves its samples counted.
    assert_eq!(feedback.sample_count(), 776);
    assert_eq!(feedback.update_feedback(8), Some([0x00, 0x80, 0x18]));
}

#[test]
fn host_volume() {
    let mut monitor = VolumeMonitor::new();
    let level = HostVolume::Level { decibel: -20 * 256, percent: 80 };
    assert_eq!(monitor.update(level), (None, Some(80)));
    assert_eq!(monitor.update(level), (None, None));
    assert_eq!(monitor.update(HostVolume::Muted), (Some(true), None));
    assert_eq!(monitor.update(HostVolume::Muted), (None, None));
    assert_eq!(monitor.update(level), (Some(false), None));
    let other = HostVolume::Level { decibel: 0, percent: 100 };
    assert_eq!(monitor.update(other), (None, Some(100)));
}

fn command(cb: &[u8], length: u32, to_host: bool) -> Cbw {
    let mut packet = [0u8; 64];
    packet[..4].copy_from_slice(b"USBC");
    packet[4..8].copy_from_slice(&0xAABB_CCDDu32.to_le_bytes());
    packet[8..12].copy_from_slice(&length.to_le_bytes());
    packet[12] = if to_host { 0x80 } else { 0 };
    packet[14] = cb.len() as u8;
    packet[15..15 + cb.len()].copy_from_slice(cb);
    Cbw::receive(&packet).unwrap()
}

fn reply(cb: &[u8], length: u32) -> (Vec<u8>, u32) {
    let mut vfs = VirtualFat12::new(b"x");
    match MscClass::new(64).handle_scsi(&command(cb, length, true), &mut vfs) {
        Scsi::Reply { data, residue } => (data, residue),
        _ => panic!("no reply"),
    }
}

#[test]
fn command_wrappers() {
    let cbw = command(&[0x12, 0, 0, 0, 36, 0], 36, true);
    assert_eq!(cbw.tag, 0xAABB_CCDD);
    assert_eq!(cbw.data_transfer_length, 36);
    assert_eq!(cbw.direction, Direction::In);
    assert_eq!(cbw.cb_len, 6);
    assert_eq!(&cbw.cb[..6], &[0x12, 0, 0, 0, 36, 0]);
    assert_eq!(command(&[0x2A], 0, false).direction, Direction::Out);
    assert!(Cbw::receive(&[0u8; 64]).is_none());
    assert!(Cbw::receive(b"USBC").is_none());
    assert_eq!(
        build_csw(0x0102_0304, 5, 1),
        [0x55, 0x53, 0x42, 0x53, 4, 3, 2, 1, 5, 0, 0, 0, 1]
    );
}

#[test]
fn inquiry() {
    let (data, residue) = reply(&[0x12], 36);
    assert_eq!(data.len(), 36);
    assert_eq!(residue, 0);
    assert_eq!(&data[..8], &[0x00, 0x80, 0x02, 0x02, 31, 0, 0, 0]);
    assert_eq!(&data[8..16], b"OtterAmp");
    assert_eq!(&data[16..32], b"DSP Config      ");
    assert_eq!(&data[32..], b"1.0 ");
    let (data, residue) = reply(&[0x12], 5);
    assert_eq!((data.len(), residue), (5, 0));
    let (data, residue) = reply(&[0x12], 255);
    assert_eq!((data.len(), residue), (36, 219));
}

#[test]
fn capacities() {
    assert_eq!(reply(&[0x25], 8), (vec![0, 0, 0, 63, 0, 0, 2, 0], 0));
    assert_eq!(reply(&[0x23], 12), (vec![0, 0, 0, 8, 0, 0, 0, 64, 2, 0, 2, 0], 0));
    assert_eq!(
        reply(&[0x03], 18),
        (vec![0x70, 0, 0, 0, 0, 0, 0, 10, 0, 0, 0, 0, 0, 0, 0, 0, 0, 0], 0)
    );
    assert_eq!(reply(&[0x1A], 192), (vec![3, 0, 0, 0], 188));
}

#[test]
fn commands_without_data() {
    let mut vfs = VirtualFat12::new(b"x");
    let class = MscClass::new(64);
    for cb in [&[0x00u8, 0, 0, 0, 0][..], &[0x35, 0, 0, 0, 0], &[0x1B, 0, 0, 0, 1], &[0x1E, 0, 0, 0, 1]] {
        assert!(matches!(class.handle_scsi(&command(cb, 0, false), &mut vfs), Scsi::Pass));
    }
    assert!(!vfs.is_ejected());
    assert!(matches!(
        class.handle_scsi(&command(&[0xFF], 100, true), &mut vfs),
        Scsi::Unknown { zeros: 100 }
    ));
    assert!(matches!(
        class.handle_scsi(&command(&[0xFF], 100, false), &mut vfs),
        Scsi::Unknown { zeros: 0 }
    ));
}

#[test]
fn statuses() {
    let mut vfs = VirtualFat12::new(b"x");
    let class = MscClass::new(64);
    for op in [0x00u8, 0x03, 0x12, 0x1A, 0x1B, 0x1E, 0x23, 0x25, 0x28, 0x2A, 0x35] {
        assert_eq!(class.handle_scsi(&command(&[op], 0, false), &mut vfs).status(), 0);
    }
    assert_eq!(class.handle_scsi(&command(&[0xFF], 0, false), &mut vfs).status(), 1);
}

/// Reads blocks of the disk as a host does.
fn read_blocks(class: &MscClass, vfs: &mut VirtualFat12, lba: u8, blocks: u8, len: u32) -> Vec<u8> {
    let cb = [0x28, 0, 0, 0, 0, lba, 0, 0, blocks, 0];
    let mut transfer = match class.handle_scsi(&command(&cb, len, true), vfs) {
        Scsi::Read(transfer) => transfer,
        _ => panic!("no transfer"),
    };
    let mut data = Vec::new();
    while let Some(block) = transfer.next_block(vfs) {
        data.extend(block);
    }
    data
}

#[test]
fn transfers_read_back() {
    let mut vfs = VirtualFat12::new(b"x");
    let class = MscClass::new(64);
    let data: Vec<u8> = (0..2048u32).map(|i| (i * 7 % 251) as u8).collect();
    assert_eq!(write_blocks(&class, &mut vfs, 1, &data), 0);
    assert_eq!(read_blocks(&class, &mut vfs, 1, 4, 2048), data);
    // No more than the host expects, and no more than there are blocks.
    assert_eq!(read_blocks(&class, &mut vfs, 1, 4, 1000), &data[..1000]);
    assert_eq!(read_blocks(&class, &mut vfs, 2, 2, 5000), &data[512..1536]);
}

fn sector(vfs: &VirtualFat12, lba: u32) -> [u8; 512] {
    let mut buf = [0xEEu8; 512];
    vfs.read_sector(lba, &mut buf);
    buf
}

#[test]
fn boot_sector() {
    let vfs = VirtualFat12::new(b"");
    let boot = sector(&vfs, 0);
    assert_eq!(&boot[..3], &[0xEB, 0x3C, 0x90]);
    assert_eq!(&boot[3..11], b"OTTERAMP");
    assert_eq!(&boot[11..13], &[0x00, 0x02]);
    assert_eq!(&boot[13..17], &[1, 1, 0, 1]);
    assert_eq!(&boot[17..19], &[16, 0]);
    assert_eq!(&boot[19..21], &[64, 0]);
    assert_eq!(&boot[21..28], &[0xF8, 1, 0, 1, 0, 1, 0]);
    assert_eq!(&boot[28..38], &[0; 10]);
    assert_eq!(boot[38], 0x29);
    assert_eq!(&boot[39..43], &[0x78, 0x56, 0x34, 0x12]);
    assert_eq!(&boot[43..54], b"OTTERAMP   ");
    assert_eq!(&boot[54..62], b"FAT12   ");
    assert_eq!(&boot[62..510], &[0; 448][..]);
    assert_eq!(&boot[510..], &[0x55, 0xAA]);
}

#[test]
fn fresh_disk_holds_the_file() {
    let data: Vec<u8> = (0..1200).map(|i| (i % 250) as u8).collect();
    let vfs = VirtualFat12::new(&data);
    let fat = sector(&vfs, 1);
    // Clusters 2, 3 and 4.
    assert_eq!(&fat[..9], &[0xF8, 0xFF, 0xFF, 0x03, 0x40, 0x00, 0xFF, 0x0F, 0x00]);
    let root = sector(&vfs, 2);
    assert_eq!(&root[..12], b"OTTERAMP   \x08");
    assert_eq!(&root[32..44], b"DSP     CFG\x20");
    assert_eq!(&root[58..64], &[2, 0, 0xB0, 0x04, 0, 0]);
    assert_eq!(&sector(&vfs, 3)[..], &data[..512]);
    assert_eq!(&sector(&vfs, 5)[..176], &data[1024..]);
    assert_eq!(sector(&vfs, 64), [0; 512]);
}

#[test]
fn sectors_read_back() {
    let mut vfs = VirtualFat12::new(b"abc");
    for lba in [1u32, 2, 3, 63] {
        vfs.write_sector(lba, &[lba as u8; 512]);
    }
    for lba in [1u32, 2, 3, 63] {
        assert_eq!(sector(&vfs, lba), [lba as u8; 512]);
    }
    // The boot sector is read-only, and there is nothing behind the last one.
    let boot = sector(&vfs, 0);
    vfs.write_sector(0, &[1; 512]);
    assert_eq!(sector(&vfs, 0), boot);
    vfs.write_sector(64, &[1; 512]);
    assert_eq!(sector(&vfs, 64), [0; 512]);
}

#[test]
fn fat_entries() {
    let mut fat = [0u8; 6];
    write_fat12_entry(&mut fat, 2, 0x123);
    assert_eq!(fat, [0, 0, 0, 0x23, 0x01, 0]);
    write_fat12_entry(&mut fat, 3, 0xABC);
    assert_eq!(fat, [0, 0, 0, 0x23, 0xC1, 0xAB]);
    write_fat12_entry(&mut fat, 2, 0xFFF);
    assert_eq!(fat, [0, 0, 0, 0xFF, 0xCF, 0xAB]);
    write_fat12_entry(&mut fat, 4, 0xFFF);
    assert_eq!(fat, [0, 0, 0, 0xFF, 0xCF, 0xAB]);
}

/// Writes blocks to the disk as a host does, in packets.
fn write_blocks(class: &MscClass, vfs: &mut VirtualFat12, lba: u8, data: &[u8]) -> u32 {
    let blocks = (data.len() / 512) as u8;
    let cb = [0x2A, 0, 0, 0, 0, lba, 0, 0, blocks, 0];
    let mut transfer = match class.handle_scsi(&command(&cb, data.len() as u32, false), vfs) {
        Scsi::Write(transfer) => transfer,
        _ => panic!("no transfer"),
    };
    let mut at = 0;
    while let Some(n) = transfer.expected() {
        if n == 0 {
            transfer.store_block(vfs);
        } else {
            let len = n.min(64);
            transfer.receive(&data[at..at + len]);
            at += len;
        }
    }
    transfer.residue
}

#[test]
fn host_replaces_the_file() {
    let mut vfs = VirtualFat12::new(b"old");
    let class = MscClass::new(64);
    let mut data = [0u8; 1024];
    data[..600].copy_from_slice(&[7; 600]);
    assert_eq!(write_blocks(&class, &mut vfs, 5, &data), 0);
    let mut root = [0u8; 512];
    root[64..75].copy_from_slice(b"DSP     CFG");
    root[90] = 4;
    root[92..96].copy_from_slice(&600u32.to_le_bytes());
    assert_eq!(write_blocks(&class, &mut vfs, 2, &root), 0);

    // It is read back as it was written.
    let cb = [0x28, 0, 0, 0, 0, 5, 0, 0, 2, 0];
    let mut transfer = match class.handle_scsi(&command(&cb, 1000, true), &mut vfs) {
        Scsi::Read(transfer) => transfer,
        _ => panic!("no transfer"),
    };
    assert_eq!(transfer.next_block(&vfs).unwrap(), &data[..512]);
    assert_eq!(transfer.next_block(&vfs).unwrap(), &data[512..1000]);
    assert_eq!(transfer.next_block(&vfs), None);
    assert_eq!(transfer.residue, 0);

    match class.handle_scsi(&command(&[0x1B, 0, 0, 0, 2], 0, false), &mut vfs) {
        Scsi::Eject(Some(file)) => assert_eq!(file, vec![7; 600]),
        _ => panic!("not ejected"),
    }
    assert!(vfs.is_ejected());
}

#[test]
fn untouched_disk_is_not_stored() {
    let mut vfs = VirtualFat12::new(b"old");
    assert_eq!(vfs.flush(), None);
    assert!(vfs.is_ejected());
    let mut vfs = VirtualFat12::new(b"old");
    let class = MscClass::new(64);
    assert!(matches!(
        class.handle_scsi(&command(&[0x1E, 0, 0, 0, 0], 0, false), &mut vfs),
        Scsi::Eject(None)
    ));
}

#[test]
fn flushed_files() {
    let mut vfs = VirtualFat12::new(b"old");
    vfs.write_sector(4, &[1; 512]);
    assert_eq!(vfs.flush(), Some(b"old".to_vec()));
    // A deleted entry, an empty file and one beyond the end are not stored.
    for (first, cluster, size) in [(0xE5u8, 2u8, 9u32), (b'D', 2, 0), (b'D', 1, 9), (b'D', 62, 513)] {
        let mut vfs = VirtualFat12::new(b"old");
        let mut root = [0u8; 512];
        root[..11].copy_from_slice(b"DSP     CFG");
        root[0] = first;
        root[26] = cluster;
        root[28..32].copy_from_slice(&size.to_le_bytes());
        vfs.write_sector(2, &root);
        assert_eq!(vfs.flush(), None);
        assert!(vfs.is_ejected());
    }
    let mut vfs = VirtualFat12::new(b"old");
    let mut root = [0u8; 512];
    root[..11].copy_from_slice(b"DSP     CFG");
    root[26] = 2;
    root[28..32].copy_from_slice(&u32::MAX.to_le_bytes());
    vfs.write_sector(2, &root);
    assert_eq!(vfs.flush().unwrap().len(), MAX_FILE_SIZE);
}

#[test]
fn packet_lengths() {
    let class = MscClass::new(64);
    assert_eq!(class.packet_len(512, 0), 64);
    assert_eq!(class.packet_len(100, 64), 36);
}
