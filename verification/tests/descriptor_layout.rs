//! Byte-exact layout of the enhanced buffer descriptors.

use imxrt_enet::bd::rxbd;
use imxrt_enet::bd::rxbd::RxBD;
use imxrt_enet::bd::txbd;
use imxrt_enet::bd::txbd::TxBD;

fn sample_txbd() -> TxBD {
    TxBD {
        data_length: 0x1122,
        flags: 0x3344,
        data_buffer_pointer: 0x5566_7788,
        errors: 0x99AA,
        control: 0xBBCC,
        launch_time: 0x1234_5678,
        reserved0: 0,
        last_bdu: 0xDDEE,
        timestamp_1588: 0x55AA_55AA,
        reserved1: [0, 0, 0, 0],
    }
}

fn sample_rxbd() -> RxBD {
    RxBD {
        data_length: 0x1122,
        flags: 0x3344,
        data_buffer_pointer: 0x5566_7788,
        status: 0x99AA,
        control: 0xBBCC,
        checksum: 0x2468,
        header: 0x1357,
        reserved0: 0,
        last_bdu: 0xDDEE,
        timestamp_1588: 0x55AA_55AA,
        reserved1: [0, 0, 0, 0],
    }
}

#[test]
fn txbd_field_offsets() {
    let txbd = sample_txbd();
    let bytes = txbd.encode();
    assert_eq!(&bytes[0x0..0x2], &txbd.data_length.to_le_bytes());
    assert_eq!(&bytes[0x2..0x4], &txbd.flags.to_le_bytes());
    assert_eq!(&bytes[0x4..0x8], &txbd.data_buffer_pointer.to_le_bytes());
    assert_eq!(&bytes[0x8..0xA], &txbd.errors.to_le_bytes());
    assert_eq!(&bytes[0xA..0xC], &txbd.control.to_le_bytes());
    assert_eq!(&bytes[0xC..0x10], &txbd.launch_time.to_le_bytes());
    assert_eq!(&bytes[0x12..0x14], &txbd.last_bdu.to_le_bytes());
    assert_eq!(&bytes[0x14..0x18], &txbd.timestamp_1588.to_le_bytes());
}

#[test]
fn rxbd_field_offsets() {
    let rxbd = sample_rxbd();
    let bytes = rxbd.encode();
    assert_eq!(&bytes[0x0..0x2], &rxbd.data_length.to_le_bytes());
    assert_eq!(&bytes[0x2..0x4], &rxbd.flags.to_le_bytes());
    assert_eq!(&bytes[0x4..0x8], &rxbd.data_buffer_pointer.to_le_bytes());
    assert_eq!(&bytes[0x8..0xA], &rxbd.status.to_le_bytes());
    assert_eq!(&bytes[0xA..0xC], &rxbd.control.to_le_bytes());
    assert_eq!(&bytes[0xC..0xE], &rxbd.checksum.to_le_bytes());
    assert_eq!(&bytes[0xE..0x10], &rxbd.header.to_le_bytes());
    assert_eq!(&bytes[0x12..0x14], &rxbd.last_bdu.to_le_bytes());
    assert_eq!(&bytes[0x14..0x18], &rxbd.timestamp_1588.to_le_bytes());
}

#[test]
fn txbd_offset_constants_match_hardware_manual() {
    assert_eq!(txbd::OFFSET_DATA_LENGTH, 0x0);
    assert_eq!(txbd::OFFSET_FLAGS, 0x2);
    assert_eq!(txbd::OFFSET_DATA_BUFFER_POINTER, 0x4);
    assert_eq!(txbd::OFFSET_ERRORS, 0x8);
    assert_eq!(txbd::OFFSET_CONTROL, 0xA);
    assert_eq!(txbd::OFFSET_LAUNCH_TIME, 0xC);
    assert_eq!(txbd::OFFSET_LAST_BDU, 0x12);
    assert_eq!(txbd::OFFSET_TIMESTAMP_1588, 0x14);
    assert_eq!(txbd::TXBD_BYTES, 32);
}

#[test]
fn rxbd_offset_constants_match_hardware_manual() {
    assert_eq!(rxbd::OFFSET_DATA_LENGTH, 0x0);
    assert_eq!(rxbd::OFFSET_FLAGS, 0x2);
    assert_eq!(rxbd::OFFSET_DATA_BUFFER_POINTER, 0x4);
    assert_eq!(rxbd::OFFSET_STATUS, 0x8);
    assert_eq!(rxbd::OFFSET_CONTROL, 0xA);
    assert_eq!(rxbd::OFFSET_CHECKSUM, 0xC);
    assert_eq!(rxbd::OFFSET_HEADER, 0xE);
    assert_eq!(rxbd::OFFSET_LAST_BDU, 0x12);
    assert_eq!(rxbd::OFFSET_TIMESTAMP_1588, 0x14);
    assert_eq!(rxbd::RXBD_BYTES, 32);
}

#[test]
fn flag_bit_values_match_hardware_manual() {
    assert_eq!(txbd::FLAGS_READY, 0x8000);
    assert_eq!(txbd::FLAGS_WRAP, 0x2000);
    assert_eq!(txbd::FLAGS_LAST_IN, 0x0800);
    assert_eq!(txbd::FLAGS_TRANSMIT_CRC, 0x0400);
    assert_eq!(rxbd::FLAGS_EMPTY, 0x8000);
    assert_eq!(rxbd::FLAGS_WRAP, 0x2000);
}

#[test]
fn txbd_encode_decode_round_trip() {
    let txbd = sample_txbd();
    let bytes = txbd.encode();
    assert_eq!(bytes.len(), 32);
    let back = TxBD::decode(&bytes);
    assert_eq!(back.data_length, txbd.data_length);
    assert_eq!(back.flags, txbd.flags);
    assert_eq!(back.data_buffer_pointer, txbd.data_buffer_pointer);
    assert_eq!(back.errors, txbd.errors);
    assert_eq!(back.control, txbd.control);
    assert_eq!(back.launch_time, txbd.launch_time);
    assert_eq!(back.last_bdu, txbd.last_bdu);
    assert_eq!(back.timestamp_1588, txbd.timestamp_1588);
    assert_eq!(back.encode(), bytes);
}

#[test]
fn rxbd_encode_decode_round_trip() {
    let rxbd = sample_rxbd();
    let bytes = rxbd.encode();
    assert_eq!(bytes.len(), 32);
    let back = RxBD::decode(&bytes);
    assert_eq!(back.data_length, rxbd.data_length);
    assert_eq!(back.flags, rxbd.flags);
    assert_eq!(back.data_buffer_pointer, rxbd.data_buffer_pointer);
    assert_eq!(back.status, rxbd.status);
    assert_eq!(back.control, rxbd.control);
    assert_eq!(back.checksum, rxbd.checksum);
    assert_eq!(back.header, rxbd.header);
    assert_eq!(back.last_bdu, rxbd.last_bdu);
    assert_eq!(back.timestamp_1588, rxbd.timestamp_1588);
    assert_eq!(back.encode(), bytes);
}

#[test]
fn zeroed_descriptors_encode_to_zero_bytes() {
    assert_eq!(TxBD::zeroed().encode(), vec![0u8; 32]);
    assert_eq!(RxBD::zeroed().encode(), vec![0u8; 32]);
}
