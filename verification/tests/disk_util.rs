use takeover::common::ErrorKind;
use takeover::migrator::common::disk_util::{
    after_chunk, balena_partitions, balena_pick, BalenaPick, PartitionReader, file_seek_start, position_after_fill, skip_next,
    stream_seek_start, LabelType, PartInfo, PartStep, PartitionIterator, PartitionType,
    SeekStart, SkipRead,
};
use takeover::migrator::common::mig_error::MigErrorKind;

fn set_entry(block: &mut [u8], i: usize, status: u8, ptype: u8, lba: u32, num: u32) {
    let o = 446 + 16 * i;
    block[o] = status;
    block[o + 4] = ptype;
    block[o + 8..o + 12].copy_from_slice(&lba.to_le_bytes());
    block[o + 12..o + 16].copy_from_slice(&num.to_le_bytes());
}

fn boot_record() -> Vec<u8> {
    let mut b = vec![0u8; 512];
    b[510] = 0x55;
    b[511] = 0xAA;
    b
}

fn walk(mbr: &[u8], ebrs: &[(u64, Vec<u8>)]) -> Vec<PartInfo> {
    let mut it = PartitionIterator::new(mbr).unwrap();
    let mut parts = Vec::new();
    for _ in 0..64 {
        match it.next_step() {
            PartStep::Partition(p) => parts.push(p),
            PartStep::ReadMbr(off) => {
                let blk = &ebrs.iter().find(|(o, _)| *o == off).expect("unexpected offset").1;
                it.supply_mbr(blk).unwrap();
            }
            PartStep::End => return parts,
        }
    }
    panic!("walk did not end");
}

#[test]
fn label_types() {
    let mut mbr = boot_record();
    set_entry(&mut mbr, 0, 0x80, 0x0c, 2048, 1000);
    assert_eq!(LabelType::from_device(&mbr), LabelType::Dos);
    let mut gpt = boot_record();
    set_entry(&mut gpt, 0, 0, 0xee, 1, 1000);
    assert_eq!(LabelType::from_device(&gpt), LabelType::GPT);
    assert_eq!(LabelType::from_device(&[0u8; 512]), LabelType::Other);
    assert_eq!(PartitionType::from_ptype(0x0f), PartitionType::Container);
    assert_eq!(PartitionType::from_ptype(0x83), PartitionType::Linux);
    assert_eq!(PartitionType::from_ptype(0x0e), PartitionType::Fat);
    assert_eq!(PartitionType::from_ptype(0x07), PartitionType::Other);
}

#[test]
fn walk_primary_and_logical_partitions() {
    let mut mbr = boot_record();
    set_entry(&mut mbr, 0, 0x80, 0x0c, 2048, 1000);
    set_entry(&mut mbr, 1, 0, 0x83, 4096, 1000);
    set_entry(&mut mbr, 2, 0, 0x05, 10000, 5000);
    let mut ebr1 = boot_record();
    set_entry(&mut ebr1, 0, 0, 0x83, 100, 500);
    set_entry(&mut ebr1, 1, 0, 0x05, 1000, 1000);
    let mut ebr2 = boot_record();
    set_entry(&mut ebr2, 0, 0, 0x83, 50, 200);
    let parts = walk(&mbr, &[(10000, ebr1), (11000, ebr2)]);
    let got: Vec<(usize, u8, u64, u64)> =
        parts.iter().map(|p| (p.index, p.ptype, p.start_lba, p.num_sectors)).collect();
    assert_eq!(
        got,
        vec![(1, 0x0c, 2048, 1000), (2, 0x83, 4096, 1000), (5, 0x83, 10100, 500), (6, 0x83, 11050, 200)]
    );
    assert!(parts[0].is_bootable());
    assert!(!parts[1].is_bootable());
    // partition numbers only grow along the walk
    assert!(parts.windows(2).all(|w| w[0].index < w[1].index));
    let (boot, data) = balena_partitions(&parts).unwrap();
    assert_eq!((boot.index, data.index), (1, 5));
}

#[test]
fn walk_ends_at_unsupported_types() {
    let mut mbr = boot_record();
    set_entry(&mut mbr, 0, 0, 0x83, 2048, 1000);
    set_entry(&mut mbr, 1, 0, 0x07, 4096, 1000);
    set_entry(&mut mbr, 2, 0, 0x83, 8192, 1000);
    let mut it = PartitionIterator::new(&mbr).unwrap();
    assert!(matches!(it.next_step(), PartStep::Partition(p) if p.index == 1));
    assert!(matches!(it.next_step(), PartStep::End));
    assert!(matches!(it.next_step(), PartStep::End));
    // a block that is no boot record ends the walk where it was asked for
    let mut mbr = boot_record();
    set_entry(&mut mbr, 0, 0, 0x05, 100, 1000);
    let mut it = PartitionIterator::new(&mbr).unwrap();
    assert!(matches!(it.next_step(), PartStep::ReadMbr(100)));
    assert_eq!(it.supply_mbr(&[0u8; 512]).unwrap_err().kind, ErrorKind::InvParam);
    assert!(matches!(it.next_step(), PartStep::End));
}

#[test]
fn balena_partition_choice() {
    let p = |index: usize| PartInfo { index, ptype: 0x83, status: 0, start_lba: 0, num_sectors: 1 };
    assert_eq!(balena_partitions(&[p(1), p(2), p(3), p(4), p(5), p(6)]).unwrap().1.index, 5);
    assert_eq!(balena_partitions(&[p(1), p(2)]).unwrap_err().kind, ErrorKind::Displayed);
    assert_eq!(balena_partitions(&[p(2), p(5)]).unwrap_err().kind, ErrorKind::Displayed);
    assert_eq!(balena_partitions(&[p(1), p(7)]).unwrap_err().kind, ErrorKind::Displayed);
}

#[test]
fn seeking_in_decompressed_images() {
    assert_eq!(file_seek_start(100, 40), SeekStart::Reopen { to_skip: 40 });
    assert_eq!(file_seek_start(40, 100), SeekStart::Skip { to_skip: 60 });
    assert_eq!(stream_seek_start(40, 100).unwrap(), 60);
    assert_eq!(stream_seek_start(100, 40).unwrap_err().inner.kind, MigErrorKind::InvState);
    assert_eq!(skip_next(2 * 1048576), SkipRead::Chunk);
    assert_eq!(skip_next(1048575), SkipRead::Exact(1048575));
    assert_eq!(skip_next(0), SkipRead::Done);
    assert_eq!(after_chunk(3 * 1048576, 1048576), 2 * 1048576);
    assert_eq!(position_after_fill(512, 512), 1024);
}

#[test]
fn partition_reader_window() {
    let p = PartInfo { index: 1, ptype: 0x83, status: 0, start_lba: 2, num_sectors: 3 };
    let mut r = PartitionReader::from_part(&p, 512);
    assert_eq!((r.offset, r.bytes_left), (1024, 1536));
    assert_eq!(r.next_read(1000), 1000);
    r.advance(1000);
    assert_eq!(r.next_read(1000), 536);
    r.advance(536);
    assert_eq!((r.offset, r.bytes_left), (2560, 0));
    assert_eq!(r.next_read(1000), 0);
}

#[test]
fn balena_partition_steps() {
    let p = |index: usize| PartInfo { index, ptype: 0x83, status: 0, start_lba: index as u64, num_sectors: 1 };
    assert_eq!(balena_pick(None, p(1)), BalenaPick::Next(Some(p(1))));
    assert_eq!(balena_pick(Some(p(1)), p(3)), BalenaPick::Next(Some(p(1))));
    assert_eq!(balena_pick(Some(p(1)), p(5)), BalenaPick::Found(p(1), p(5)));
    assert_eq!(balena_pick(None, p(5)), BalenaPick::Invalid);
    assert_eq!(balena_pick(Some(p(1)), p(6)), BalenaPick::Invalid);
}
