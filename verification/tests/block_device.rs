use lwext4_rust::blockdev::device_status;
use lwext4_rust::{BlockDevice, Ext4BlockDevice, Ext4Error, Ext4Result, EXT4_DEV_BSIZE};

struct MemDevice {
    data: Vec<u8>,
    calls: usize,
    fail: bool,
    blocks: Ext4Result<u64>,
}

impl MemDevice {
    fn new(blocks: usize) -> Self {
        MemDevice {
            data: vec![0; blocks * EXT4_DEV_BSIZE],
            calls: 0,
            fail: false,
            blocks: Ok(blocks as u64),
        }
    }
}

impl BlockDevice for MemDevice {
    fn write_blocks(&mut self, block_id: u64, buf: &[u8]) -> Ext4Result<usize> {
        self.calls += 1;
        if self.fail {
            return Err(Ext4Error::new(121, None));
        }
        let at = block_id as usize * EXT4_DEV_BSIZE;
        self.data[at..at + buf.len()].copy_from_slice(buf);
        Ok(buf.len())
    }

    fn read_blocks(&mut self, block_id: u64, buf: &mut [u8]) -> Ext4Result<usize> {
        self.calls += 1;
        if self.fail {
            return Err(Ext4Error::new(121, None));
        }
        let at = block_id as usize * EXT4_DEV_BSIZE;
        buf.copy_from_slice(&self.data[at..at + buf.len()]);
        Ok(buf.len())
    }

    fn num_blocks(&self) -> Ext4Result<u64> {
        self.blocks
    }
}

#[test]
fn open_records_the_extent() {
    let mut bdev = Ext4BlockDevice::new(MemDevice::new(8));
    assert_eq!((bdev.ph_bcnt, bdev.part_offset, bdev.part_size), (0, 0, 0));
    assert_eq!(bdev.dev_open(), 0);
    assert_eq!((bdev.ph_bcnt, bdev.part_offset, bdev.part_size), (8, 0, 4096));
    assert_eq!(bdev.dev_close(), 0);
}

#[test]
fn open_maps_failure_to_io_error() {
    let mut dev = MemDevice::new(8);
    dev.blocks = Err(Ext4Error::new(19, None));
    let mut bdev = Ext4BlockDevice::new(dev);
    assert_eq!(bdev.dev_open(), 5);
    assert_eq!((bdev.ph_bcnt, bdev.part_size), (0, 0));
    assert_eq!(bdev.opened(Ok(u64::MAX / 512 + 1)), 5);
    assert_eq!((bdev.ph_bcnt, bdev.part_size), (0, 0));
    assert_eq!(bdev.opened(Ok(u64::MAX / 512)), 0);
    assert_eq!(bdev.part_size, (u64::MAX / 512) * 512);
}

#[test]
fn write_then_read_blocks() {
    let mut bdev = Ext4BlockDevice::new(MemDevice::new(8));
    let block: Vec<u8> = (0..1024).map(|i| (i % 251) as u8).collect();
    assert_eq!(bdev.dev_bwrite(&block, 3, 2), 0);
    let mut back = vec![0u8; 1024];
    assert_eq!(bdev.dev_bread(&mut back, 3, 2), 0);
    assert_eq!(back, block);
    assert_eq!(bdev.dev.calls, 2);
}

#[test]
fn zero_count_does_not_reach_the_device() {
    let mut bdev = Ext4BlockDevice::new(MemDevice::new(8));
    bdev.dev.fail = true;
    let mut nothing: Vec<u8> = vec![];
    assert_eq!(bdev.dev_bread(&mut nothing, 3, 0), 0);
    assert_eq!(bdev.dev_bwrite(&nothing, 3, 0), 0);
    assert_eq!(bdev.dev.calls, 0);
}

#[test]
fn device_errors_become_io_errors() {
    let mut bdev = Ext4BlockDevice::new(MemDevice::new(8));
    bdev.dev.fail = true;
    let mut buf = vec![0u8; 512];
    assert_eq!(bdev.dev_bread(&mut buf, 0, 1), 5);
    assert_eq!(bdev.dev_bwrite(&buf, 0, 1), 5);
    assert_eq!(device_status(&Ok::<usize, Ext4Error>(1)), 0);
    assert_eq!(device_status(&Err::<usize, Ext4Error>(Ext4Error::new(7, None))), 5);
}

struct Recorder {
    reads: Vec<(u64, usize)>,
    writes: Vec<(u64, Vec<u8>)>,
}

impl BlockDevice for Recorder {
    fn write_blocks(&mut self, block_id: u64, buf: &[u8]) -> Ext4Result<usize> {
        self.writes.push((block_id, buf.to_vec()));
        Ok(buf.len())
    }

    fn read_blocks(&mut self, block_id: u64, buf: &mut [u8]) -> Ext4Result<usize> {
        self.reads.push((block_id, buf.len()));
        buf.fill(0x5a);
        Ok(buf.len())
    }

    fn num_blocks(&self) -> Ext4Result<u64> {
        Ok(16)
    }
}

#[test]
fn callbacks_hand_the_block_id_and_the_whole_buffer_to_the_device() {
    let mut bdev = Ext4BlockDevice::new(Recorder { reads: vec![], writes: vec![] });
    let data: Vec<u8> = (0..1536).map(|i| (i % 7) as u8).collect();
    assert_eq!(bdev.dev_bwrite(&data, 11, 3), 0);
    assert_eq!(bdev.dev.writes, vec![(11, data)]);
    let mut buf = vec![0u8; 1024];
    assert_eq!(bdev.dev_bread(&mut buf, 4, 2), 0);
    assert_eq!(bdev.dev.reads, vec![(4, 1024)]);
    assert_eq!(buf, vec![0x5a; 1024]);
    assert_eq!((bdev.ph_bcnt, bdev.part_offset, bdev.part_size), (0, 0, 0));
}
