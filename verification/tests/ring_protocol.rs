//! The claim/consume handoff protocol over transmit and receive rings.

use imxrt_enet::bd::rxbd;
use imxrt_enet::bd::txbd;
use imxrt_enet::{claim_pair, ReceiveBuffers, TransmitBuffers};

#[test]
fn buffer_set_enforces_mtu_multiple_of_16() {
    assert!(TransmitBuffers::new(8, 100).is_none());
    assert!(TransmitBuffers::new(8, 1500).is_none());
    assert!(TransmitBuffers::new(8, 0).is_none());
    assert!(TransmitBuffers::new(0, 1536).is_none());
    assert!(TransmitBuffers::new(8, 1536).is_some());
    assert!(TransmitBuffers::new(8, 2048).is_some());
    assert!(ReceiveBuffers::new(8, 100).is_none());
    assert!(ReceiveBuffers::new(8, 1500).is_none());
    assert!(ReceiveBuffers::new(8, 1536).is_some());
    assert!(ReceiveBuffers::new(8, 2048).is_some());
}

#[test]
fn wrap_bit_set_on_last_descriptor_only() {
    let tx = TransmitBuffers::new(8, 1536).unwrap().take();
    for i in 0..8 {
        let wrapped = tx.descriptor(i).flags & txbd::FLAGS_WRAP != 0;
        assert_eq!(wrapped, i == 7);
    }
    let rx = ReceiveBuffers::new(5, 64).unwrap().take();
    for i in 0..5 {
        let wrapped = rx.descriptor(i).flags & rxbd::FLAGS_WRAP != 0;
        assert_eq!(wrapped, i == 4);
    }
}

#[test]
fn receive_ring_starts_owned_by_hardware() {
    let rx = ReceiveBuffers::new(4, 64).unwrap().take();
    for i in 0..4 {
        assert!(rx.descriptor(i).flags & rxbd::FLAGS_EMPTY != 0);
        assert_eq!(rx.descriptor(i).data_buffer_pointer, (i as u32) * 64);
        assert_eq!(rx.buffer(i).len(), 64);
    }
}

#[test]
fn transmit_ring_starts_owned_by_software() {
    let tx = TransmitBuffers::new(4, 64).unwrap().take();
    for i in 0..4 {
        assert!(tx.descriptor(i).flags & txbd::FLAGS_READY == 0);
        assert_eq!(tx.descriptor(i).data_buffer_pointer, (i as u32) * 64);
        assert_eq!(tx.buffer(i).len(), 64);
    }
}

#[test]
fn transmit_end_to_end_fills_ring_then_backpressures() {
    let mut tx = TransmitBuffers::new(8, 1536).unwrap().take();

    let token = tx.next_token().expect("fresh ring must grant a token");
    assert_eq!(token.index(), 0);
    assert_eq!(token.mtu(), 1536);
    let frame = vec![0xA5u8; 64];
    tx.consume(token, &frame);

    let d0 = tx.descriptor(0);
    assert_eq!(d0.data_length, 64);
    assert!(d0.flags & txbd::FLAGS_READY != 0);
    assert!(d0.flags & txbd::FLAGS_LAST_IN != 0);
    assert!(d0.flags & txbd::FLAGS_TRANSMIT_CRC != 0);
    assert_eq!(tx.index(), 1);
    assert_eq!(&tx.buffer(0)[..64], &frame[..]);

    for expected in 1..8 {
        let token = tx.next_token().expect("ring not yet full");
        assert_eq!(token.index(), expected);
        tx.consume(token, &[0x5A]);
    }
    assert_eq!(tx.index(), 0);
    assert!(
        tx.next_token().is_none(),
        "all descriptors belong to hardware: claiming must backpressure"
    );
}

#[test]
fn claims_are_fifo_across_wrap() {
    let mut tx = TransmitBuffers::new(4, 64).unwrap().take();
    let mut seen = Vec::new();
    for _ in 0..10 {
        let token = tx.next_token().expect("slot was reclaimed by the dma model");
        let idx = token.index();
        seen.push(idx);
        tx.consume(token, &[1, 2, 3]);
        let sent = tx.dma_transmit(idx);
        assert_eq!(sent, vec![1, 2, 3]);
    }
    assert_eq!(seen, vec![0, 1, 2, 3, 0, 1, 2, 3, 0, 1]);
    assert_eq!(tx.doorbells(), 10);
}

#[test]
fn receive_round_trip() {
    let mut rx = ReceiveBuffers::new(4, 64).unwrap().take();
    assert!(
        rx.next_token().is_none(),
        "no frame has arrived: claiming must report nothing ready"
    );

    let frame: Vec<u8> = (0..42u8).collect();
    rx.dma_deliver(0, &frame);
    assert!(rx.descriptor(0).flags & rxbd::FLAGS_EMPTY == 0);
    assert_eq!(rx.descriptor(0).data_length, 42);

    let token = rx.next_token().expect("a filled slot must grant a token");
    assert_eq!(token.index(), 0);
    let received = rx.consume(token);
    assert_eq!(received.len(), 42);
    assert_eq!(received, frame);

    assert!(
        rx.descriptor(0).flags & rxbd::FLAGS_EMPTY != 0,
        "the slot must be back in the hardware's hands"
    );
    assert_eq!(rx.index(), 1);
    assert_eq!(rx.doorbells(), 1);
}

#[test]
fn at_most_one_token_live_per_ring() {
    let mut tx = TransmitBuffers::new(4, 64).unwrap().take();
    let token = tx.next_token().expect("fresh ring must grant a token");
    assert!(tx.is_claimed());
    assert!(
        tx.next_token().is_none(),
        "a second live token over the same ring must be refused"
    );
    tx.consume(token, &[7]);
    assert!(!tx.is_claimed());
    assert!(tx.next_token().is_some());
}

#[test]
fn released_token_leaves_ring_unchanged() {
    let mut tx = TransmitBuffers::new(4, 64).unwrap().take();
    let token = tx.next_token().expect("fresh ring must grant a token");
    assert_eq!(token.index(), 0);
    tx.release(token);
    assert!(!tx.is_claimed());
    assert_eq!(tx.index(), 0);
    assert_eq!(tx.doorbells(), 0);
    assert!(tx.descriptor(0).flags & txbd::FLAGS_READY == 0);
    let again = tx.next_token().expect("the slot is claimable again");
    assert_eq!(again.index(), 0);
    tx.release(again);
}

#[test]
fn doorbell_rings_once_per_consumed_token() {
    let mut rx = ReceiveBuffers::new(4, 64).unwrap().take();
    assert_eq!(rx.doorbells(), 0);
    rx.dma_deliver(0, &[9, 9]);
    rx.dma_deliver(1, &[8]);
    assert_eq!(rx.doorbells(), 0, "hardware actions ring no doorbell");
    let token = rx.next_token().unwrap();
    rx.consume(token);
    assert_eq!(rx.doorbells(), 1);
    let token = rx.next_token().unwrap();
    rx.release(token);
    assert_eq!(rx.doorbells(), 1, "a released token rings no doorbell");
    let token = rx.next_token().unwrap();
    rx.consume(token);
    assert_eq!(rx.doorbells(), 2);
}

#[test]
fn consumed_frame_is_what_hardware_transmits() {
    let mut tx = TransmitBuffers::new(2, 128).unwrap().take();
    let frame: Vec<u8> = (0u8..100).map(|b| b.wrapping_mul(3)).collect();
    let token = tx.next_token().unwrap();
    tx.consume(token, &frame);
    let sent = tx.dma_transmit(0);
    assert_eq!(sent, frame);
    assert!(
        tx.descriptor(0).flags & txbd::FLAGS_READY == 0,
        "the slot must be back in software's hands"
    );
}

#[test]
fn transmit_slot_reusable_after_hardware_reclaims_it() {
    let mut tx = TransmitBuffers::new(1, 16).unwrap().take();
    let token = tx.next_token().unwrap();
    tx.consume(token, &[1]);
    assert!(tx.next_token().is_none());
    tx.dma_transmit(0);
    let token = tx.next_token().expect("reclaimed slot is claimable");
    assert_eq!(token.index(), 0);
    tx.consume(token, &[2]);
    assert_eq!(tx.doorbells(), 2);
}

#[test]
fn claim_pair_yields_both_tokens_or_changes_nothing() {
    let mut tx = TransmitBuffers::new(2, 64).unwrap().take();
    let mut rx = ReceiveBuffers::new(2, 64).unwrap().take();

    // No frame has arrived: the failed receive claim must also undo the
    // transmit claim, leaving both rings claimable.
    assert!(claim_pair(&mut rx, &mut tx).is_none());
    assert!(!tx.is_claimed());
    assert!(!rx.is_claimed());

    rx.dma_deliver(0, &[1, 2, 3]);
    let (rx_token, tx_token) = claim_pair(&mut rx, &mut tx).expect("frame and slot available");
    assert_eq!(rx_token.index(), 0);
    assert_eq!(tx_token.index(), 0);
    let frame = rx.consume(rx_token);
    assert_eq!(frame, vec![1, 2, 3]);
    tx.consume(tx_token, &frame);
    assert_eq!(tx.dma_transmit(0), vec![1, 2, 3]);
}

#[test]
fn delivered_frame_overwrites_only_its_prefix() {
    let mut rx = ReceiveBuffers::new(2, 32).unwrap().take();
    rx.dma_deliver(1, &[0xFF; 32]);
    let token_slot0 = rx.next_token();
    assert!(token_slot0.is_none(), "slot 0 is still empty; the cursor does not skip ahead");
    assert_eq!(rx.buffer(0), &vec![0u8; 32], "slot 0's buffer is untouched");
    assert_eq!(&rx.buffer(1)[..], &[0xFF; 32]);
}
