//! The pure computations behind the MAC's configuration registers.

use imxrt_enet::{
    duplex_register_bits, mac_address_registers, mdio_hold_time, mii_speed, mmfr_read_frame,
    mmfr_write_frame, negotiated_mtu, receive_buffer_size_register, Duplex,
};

#[test]
fn mii_speed_keeps_management_clock_at_or_under_ceiling() {
    // 50 MHz source: 50e6 / (2 * (9 + 1)) == 2.5 MHz exactly.
    assert_eq!(mii_speed(50_000_000), 9);
    // 2.5 MHz source needs no division at all.
    assert_eq!(mii_speed(2_500_000), 0);
    // 5 MHz + 1 Hz must round the divider up.
    assert_eq!(mii_speed(5_000_001), 1);
    assert_eq!(mii_speed(1), 0);
}

#[test]
fn mdio_hold_time_covers_ten_nanoseconds() {
    // 1 GHz: 1 ns per cycle, ten cycles needed, field stores cycles - 1.
    assert_eq!(mdio_hold_time(1_000_000_000), 9);
    // 500 MHz: 2 ns per cycle, five cycles.
    assert_eq!(mdio_hold_time(500_000_000), 4);
    // 100 MHz: 10 ns per cycle, one cycle.
    assert_eq!(mdio_hold_time(100_000_000), 0);
    // 300 MHz: 3 ns per cycle, ceil(10/3) == 4 cycles.
    assert_eq!(mdio_hold_time(300_000_000), 3);
}

#[test]
fn mac_address_packs_into_two_registers() {
    let mac = [0x01, 0x02, 0x03, 0x04, 0x05, 0x06];
    let (lower, upper) = mac_address_registers(&mac);
    assert_eq!(lower, 0x0102_0304);
    assert_eq!(upper, 0x0506_0000);
}

#[test]
fn mmfr_frames_place_control_bits_high() {
    assert_eq!(mmfr_read_frame(0x6012), 0x6012_0000);
    assert_eq!(mmfr_write_frame(0x5012, 0xBEEF), 0x5012_BEEF);
    assert_eq!(mmfr_write_frame(0, 0x1234), 0x0000_1234);
}

#[test]
fn duplex_bits_are_mutually_exclusive() {
    assert_eq!(duplex_register_bits(Duplex::Full), (1, 0));
    assert_eq!(duplex_register_bits(Duplex::Half), (0, 1));
}

#[test]
fn negotiated_mtu_is_the_smaller_ring() {
    assert_eq!(negotiated_mtu(1536, 2048), 1536);
    assert_eq!(negotiated_mtu(2048, 1536), 1536);
    assert_eq!(negotiated_mtu(1536, 1536), 1536);
}

#[test]
fn receive_buffer_size_drops_four_low_bits() {
    assert_eq!(receive_buffer_size_register(1536), 96);
    assert_eq!(receive_buffer_size_register(16), 1);
    assert_eq!(receive_buffer_size_register(0xFFF0), 0xFFF);
}
