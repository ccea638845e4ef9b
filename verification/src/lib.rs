//! Ethernet MAC driver core: the descriptor-ring buffer-handoff protocol.
//!
//! The heart of the driver is a statically sized ring of buffer descriptors
//! whose ownership alternates between software and the DMA engine, arbitrated
//! by an ownership bit in each descriptor. This crate verifies that protocol —
//! descriptor layout, ring initialization, the claim/consume token discipline,
//! the cursor arithmetic — together with the pure computations that feed the
//! MAC's configuration registers. The register block itself and the DMA engine
//! are hardware; the surrounding driver performs those accesses with values
//! this crate computes.

use vstd::prelude::*;

pub mod bd;

pub use bd::{
    claim_pair, IoBuffers, IoSlices, IoToken, ReceiveBuffers, ReceiveSlices, TransmitBuffers,
    TransmitSlices,
};

verus! {

/// Allows independent transmit and receive functions.
#[derive(Debug, Clone, Copy)]
pub enum Duplex {
    /// Transmit and receive functions cannot overlap.
    ///
    /// Specifically, you cannot transmit frames while you're receiving
    /// frames, and you cannot receive frames while you're sending frames.
    Half,
    /// The MAC can transmit and receive simultaneously.
    ///
    /// The receive path operates independent of the transmit path; frames go
    /// out without concern for carrier sense and collision signals.
    Full,
}

/// An error during an MII transfer.
///
/// The management interface polls until the transfer-complete flag is set
/// and documents no other failure mode, so nothing ever constructs a value
/// of this type; it only shapes the `Result` signatures of the management
/// reads and writes.
#[derive(Debug, Clone, Copy)]
#[non_exhaustive]
pub struct MiiError {}

/// Computes the MII management clock divider for the MSCR register.
///
/// The divider is the smallest value keeping the management clock at or
/// under its 2.5 MHz ceiling: `source_clock_hz / (2 * (r + 1)) <= 2_500_000`.
pub fn mii_speed(source_clock_hz: u32) -> (r: u32)
    requires
        source_clock_hz >= 1,
    ensures
        r == (source_clock_hz + 4_999_999) as int / 5_000_000int - 1,
{
    let denominator: u32 = 2 * 2_500_000;
    (source_clock_hz - 1) / denominator + 1 - 1
}

/// Computes the MDIO output hold-time field for the MSCR register: the
/// number of extra source-clock cycles (less one) needed to hold MDIO output
/// for at least 10 nanoseconds.
pub fn mdio_hold_time(source_clock_hz: u32) -> (r: u32)
    requires
        1 <= source_clock_hz <= 1_000_000_000,
    ensures
        r == (9 + 1_000_000_000int / (source_clock_hz as int)) / (1_000_000_000int / (
        source_clock_hz as int)) - 1,
{
    proof {
        vstd::arithmetic::div_mod::lemma_div_non_zero(1_000_000_000int, source_clock_hz as int);
    }
    let cycle_ns: u32 = 1_000_000_000 / source_clock_hz;
    proof {
        vstd::arithmetic::div_mod::lemma_div_non_zero(9 + cycle_ns as int, cycle_ns as int);
    }
    (10 + cycle_ns - 1) / cycle_ns - 1
}

/// Packs a six-byte MAC address into the two physical-address registers:
/// the first four bytes, most significant first, then the last two in the
/// upper half-word of the second register.
pub fn mac_address_registers(mac: &[u8; 6]) -> (r: (u32, u32))
    ensures
        r.0 == (mac@[0] as u32) << 24 | (mac@[1] as u32) << 16 | (mac@[2] as u32) << 8 | (
        mac@[3] as u32),
        r.1 == (mac@[4] as u32) << 24 | (mac@[5] as u32) << 16,
{
    let lower = (mac[0] as u32) << 24 | (mac[1] as u32) << 16 | (mac[2] as u32) << 8 | (
    mac[3] as u32);
    let upper = (mac[4] as u32) << 24 | (mac[5] as u32) << 16;
    (lower, upper)
}

/// Builds the MMFR register value for a management-interface read: the
/// sixteen control bits in the high half-word, the data half-word left zero
/// for the PHY to fill.
pub fn mmfr_read_frame(ctrl_bits: u16) -> (r: u32)
    ensures
        r == (ctrl_bits as u32) << 16,
{
    (ctrl_bits as u32) << 16
}

/// Builds the MMFR register value for a management-interface write: the
/// sixteen control bits in the high half-word, the data in the low one.
pub fn mmfr_write_frame(ctrl_bits: u16, data_bits: u16) -> (r: u32)
    ensures
        r == (ctrl_bits as u32) << 16 | data_bits as u32,
{
    (ctrl_bits as u32) << 16 | data_bits as u32
}

/// The register bits a duplex choice translates to: full-duplex enable
/// (TCR's FDEN) and disable-reception-during-transmit (RCR's DRT). Exactly
/// one of the two is set.
pub fn duplex_register_bits(duplex: Duplex) -> (r: (u32, u32))
    ensures
        duplex is Full ==> r == (1u32, 0u32),
        duplex is Half ==> r == (0u32, 1u32),
{
    match duplex {
        Duplex::Full => (1, 0),
        Duplex::Half => (0, 1),
    }
}

/// The MTU the device reports to the protocol stack: the smaller of the two
/// rings' buffer sizes, since a frame must fit both directions' slots.
pub fn negotiated_mtu(tx_mtu: usize, rx_mtu: usize) -> (r: usize)
    ensures
        r == if tx_mtu <= rx_mtu {
            tx_mtu
        } else {
            rx_mtu
        },
{
    if tx_mtu <= rx_mtu {
        tx_mtu
    } else {
        rx_mtu
    }
}

/// Computes the MRBR receive-buffer-size field: the buffer length with its
/// four implicit low-order zero bits dropped, which is lossless exactly
/// because the MTU is a multiple of 16.
pub fn receive_buffer_size_register(mtu: usize) -> (r: u32)
    requires
        0 < mtu <= 0xFFF0,
        mtu % 16 == 0,
    ensures
        r == mtu as int / 16,
        r * 16 == mtu,
{
    proof {
        vstd::arithmetic::div_mod::lemma_fundamental_div_mod(mtu as int, 16);
    }
    (mtu / 16) as u32
}

} // verus!
