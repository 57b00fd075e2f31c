use havy_kernel::platform::d1_emac::{D1Emac, NetworkError, DESC_OWN};
use havy_kernel::platform::d1_mmc::{fifo_words, transfer_done, BlockError, D1Mmc};

fn up_emac() -> D1Emac {
    let mut e = D1Emac::new();
    let ops = e.init(0x0012_3456, 0x0000_789a, 0x1234, 0x782d, 0x41e1, 0x4000_0000, 0x4000_1000);
    assert!(ops.is_ok());
    assert!(e.initialized);
    e
}

#[test]
fn emac_refuses_before_init() {
    let mut e = D1Emac::new();
    assert!(e.transmit(b"x") == Err(NetworkError::NotReady));
    let mut b = [0u8; 4];
    assert!(e.receive(&mut b) == Err(NetworkError::NotReady));
    let mut missing = D1Emac::new();
    assert!(missing.init(0, 0, 0xffff, 0, 0, 0, 0).err() == Some(NetworkError::PhyError));
}

#[test]
fn emac_transmit_fills_the_ring_in_order() {
    let mut e = up_emac();
    assert!(e.transmit(b"frame-one").is_ok());
    assert!(e.transmit(b"frame-two!").is_ok());
    assert_eq!(&e.tx_buffers[0][..9], b"frame-one");
    assert_eq!(e.tx_desc[0].size, 9);
    assert_ne!(e.tx_desc[0].status & DESC_OWN, 0);
    assert_eq!(&e.tx_buffers[1][..10], b"frame-two!");
    assert_eq!(e.tx_head, 2);
    // The descriptor at the head is still owned by the DMA engine: refused.
    e.tx_head = 0;
    assert!(e.transmit(b"again") == Err(NetworkError::TxFailed));
}

#[test]
fn emac_receive_takes_a_completed_descriptor() {
    let mut e = up_emac();
    let mut b = [0u8; 64];
    assert!(e.receive(&mut b) == Err(NetworkError::NoPacket));
    e.rx_buffers[0][..5].copy_from_slice(b"hello");
    e.rx_desc[0].status = 5 << 16;
    assert!(e.receive(&mut b) == Ok(5));
    assert_eq!(&b[..5], b"hello");
    assert_eq!(e.rx_desc[0].status, DESC_OWN);
    assert_eq!(e.rx_head, 1);
    e.rx_desc[1].status = 100 << 16;
    let mut small = [0u8; 10];
    assert!(e.receive(&mut small) == Err(NetworkError::RxBufferTooSmall));
    assert_eq!(e.rx_head, 2);
}

#[test]
fn mmc_sector_words() {
    let mut m = D1Mmc::new();
    let words: Vec<u32> = (0..128u32).map(|i| i * 0x0101_0101).collect();
    let mut buf = vec![0xeeu8; 520];
    assert!(m.read_sector(&mut buf, &words, &[0, 0, 0x8]).is_ok());
    assert_eq!(&buf[4..8], &[1, 1, 1, 1]);
    assert_eq!(&buf[512..], &[0xee; 8]);
    assert_eq!(fifo_words(&buf).ok().unwrap(), words);
    let mut short = vec![0u8; 100];
    assert_eq!(m.read_sector(&mut short, &[], &[8]), Err("IO Error"));
    assert_eq!(m.read_sector(&mut buf, &words, &[0, 0]), Err("IO Error"));
    assert!(fifo_words(&short) == Err(BlockError::BufferSize));
    assert!(transfer_done(&[0, 8]).is_ok());
    assert!(transfer_done(&[1, 2, 4]).is_err());
    assert_eq!(m.write_sector(&buf, &[8]), Ok(()));
    assert_eq!(m.write_sector(&short, &[8]), Err("IO Error"));
}
