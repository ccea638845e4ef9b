//! Enhanced transmit buffer descriptor layout and fields.
//!
//! The DMA engine reads each descriptor as a 32-byte record with fixed field
//! offsets. `TxBD` mirrors that record field for field; `encode` and `decode`
//! relate a descriptor to its exact in-memory image, little-endian fields at
//! the `OFFSET_*` byte positions dictated by the hardware manual.

use vstd::prelude::*;
use vstd::bytes::*;
use vstd::slice::slice_subrange;

verus! {

/// Enhanced transmit buffer descriptor.
pub struct TxBD {
    pub data_length: u16,
    pub flags: u16,
    pub data_buffer_pointer: u32,
    pub errors: u16,
    pub control: u16,
    pub launch_time: u32,
    pub reserved0: u16,
    pub last_bdu: u16,
    pub timestamp_1588: u32,
    pub reserved1: [u16; 4],
}

/// Ownership bit: the descriptor (and its buffer) belongs to the DMA engine.
pub const FLAGS_READY: u16 = 1u16 << 15;
/// The DMA engine wraps back to descriptor 0 after this descriptor.
pub const FLAGS_WRAP: u16 = 1u16 << 13;
/// This descriptor holds the last buffer of its frame.
pub const FLAGS_LAST_IN: u16 = 1u16 << 11;
/// The DMA engine appends a CRC to the outgoing frame.
pub const FLAGS_TRANSMIT_CRC: u16 = 1u16 << 10;

pub const OFFSET_DATA_LENGTH: usize = 0x0;
pub const OFFSET_FLAGS: usize = 0x2;
pub const OFFSET_DATA_BUFFER_POINTER: usize = 0x4;
pub const OFFSET_ERRORS: usize = 0x8;
pub const OFFSET_CONTROL: usize = 0xA;
pub const OFFSET_LAUNCH_TIME: usize = 0xC;
pub const OFFSET_LAST_BDU: usize = 0x12;
pub const OFFSET_TIMESTAMP_1588: usize = 0x14;

/// Byte length of one transmit descriptor.
pub const TXBD_BYTES: usize = 32;

impl TxBD {
    /// The 32-byte in-memory image of this descriptor: every field stored
    /// little-endian at its hardware-dictated offset.
    pub open spec fn encoding(self) -> Seq<u8> {
        spec_u16_to_le_bytes(self.data_length) + spec_u16_to_le_bytes(self.flags)
            + spec_u32_to_le_bytes(self.data_buffer_pointer) + spec_u16_to_le_bytes(self.errors)
            + spec_u16_to_le_bytes(self.control) + spec_u32_to_le_bytes(self.launch_time)
            + spec_u16_to_le_bytes(self.reserved0) + spec_u16_to_le_bytes(self.last_bdu)
            + spec_u32_to_le_bytes(self.timestamp_1588) + spec_u16_to_le_bytes(self.reserved1@[0])
            + spec_u16_to_le_bytes(self.reserved1@[1]) + spec_u16_to_le_bytes(self.reserved1@[2])
            + spec_u16_to_le_bytes(self.reserved1@[3])
    }

    /// All fields zero: the state the ring initialization establishes.
    pub open spec fn is_zeroed(self) -> bool {
        &&& self.data_length == 0
        &&& self.flags == 0
        &&& self.data_buffer_pointer == 0
        &&& self.errors == 0
        &&& self.control == 0
        &&& self.launch_time == 0
        &&& self.reserved0 == 0
        &&& self.last_bdu == 0
        &&& self.timestamp_1588 == 0
        &&& self.reserved1@ =~= seq![0u16, 0u16, 0u16, 0u16]
    }

    /// A descriptor with every field zero.
    pub fn zeroed() -> (d: TxBD)
        ensures
            d.is_zeroed(),
    {
        TxBD {
            data_length: 0,
            flags: 0,
            data_buffer_pointer: 0,
            errors: 0,
            control: 0,
            launch_time: 0,
            reserved0: 0,
            last_bdu: 0,
            timestamp_1588: 0,
            reserved1: [0u16, 0u16, 0u16, 0u16],
        }
    }

    /// Whether the ownership bit hands this descriptor to the DMA engine.
    pub fn is_ready(&self) -> (r: bool)
        ensures
            r == (self.flags & FLAGS_READY != 0),
    {
        self.flags & FLAGS_READY != 0
    }

    /// Serializes the descriptor to its hardware image.
    pub fn encode(&self) -> (bytes: Vec<u8>)
        ensures
            bytes@ == self.encoding(),
            bytes@.len() == TXBD_BYTES,
    {
        proof {
            lemma_auto_spec_u16_to_from_le_bytes();
            lemma_auto_spec_u32_to_from_le_bytes();
        }
        let mut bytes = u16_to_le_bytes(self.data_length);
        let mut part = u16_to_le_bytes(self.flags);
        bytes.append(&mut part);
        let mut part = u32_to_le_bytes(self.data_buffer_pointer);
        bytes.append(&mut part);
        let mut part = u16_to_le_bytes(self.errors);
        bytes.append(&mut part);
        let mut part = u16_to_le_bytes(self.control);
        bytes.append(&mut part);
        let mut part = u32_to_le_bytes(self.launch_time);
        bytes.append(&mut part);
        let mut part = u16_to_le_bytes(self.reserved0);
        bytes.append(&mut part);
        let mut part = u16_to_le_bytes(self.last_bdu);
        bytes.append(&mut part);
        let mut part = u32_to_le_bytes(self.timestamp_1588);
        bytes.append(&mut part);
        let mut part = u16_to_le_bytes(self.reserved1[0]);
        bytes.append(&mut part);
        let mut part = u16_to_le_bytes(self.reserved1[1]);
        bytes.append(&mut part);
        let mut part = u16_to_le_bytes(self.reserved1[2]);
        bytes.append(&mut part);
        let mut part = u16_to_le_bytes(self.reserved1[3]);
        bytes.append(&mut part);
        bytes
    }

    /// Reads a descriptor back from its hardware image.
    pub fn decode(bytes: &[u8]) -> (d: TxBD)
        requires
            bytes@.len() == TXBD_BYTES,
        ensures
            d.encoding() == bytes@,
    {
        proof {
            lemma_auto_spec_u16_to_from_le_bytes();
            lemma_auto_spec_u32_to_from_le_bytes();
        }
        let d = TxBD {
            data_length: u16_from_le_bytes(slice_subrange(bytes, 0x0, 0x2)),
            flags: u16_from_le_bytes(slice_subrange(bytes, 0x2, 0x4)),
            data_buffer_pointer: u32_from_le_bytes(slice_subrange(bytes, 0x4, 0x8)),
            errors: u16_from_le_bytes(slice_subrange(bytes, 0x8, 0xA)),
            control: u16_from_le_bytes(slice_subrange(bytes, 0xA, 0xC)),
            launch_time: u32_from_le_bytes(slice_subrange(bytes, 0xC, 0x10)),
            reserved0: u16_from_le_bytes(slice_subrange(bytes, 0x10, 0x12)),
            last_bdu: u16_from_le_bytes(slice_subrange(bytes, 0x12, 0x14)),
            timestamp_1588: u32_from_le_bytes(slice_subrange(bytes, 0x14, 0x18)),
            reserved1: [
                u16_from_le_bytes(slice_subrange(bytes, 0x18, 0x1A)),
                u16_from_le_bytes(slice_subrange(bytes, 0x1A, 0x1C)),
                u16_from_le_bytes(slice_subrange(bytes, 0x1C, 0x1E)),
                u16_from_le_bytes(slice_subrange(bytes, 0x1E, 0x20)),
            ],
        };
        proof {
            assert(d.encoding() =~= bytes@);
        }
        d
    }
}

/// Every field of a transmit descriptor sits at its hardware-dictated byte
/// offset within the 32-byte image, stored little-endian.
pub proof fn lemma_tx_field_offsets(d: TxBD)
    ensures
        d.encoding().len() == TXBD_BYTES,
        d.encoding().subrange(OFFSET_DATA_LENGTH as int, OFFSET_DATA_LENGTH + 2)
            == spec_u16_to_le_bytes(d.data_length),
        d.encoding().subrange(OFFSET_FLAGS as int, OFFSET_FLAGS + 2)
            == spec_u16_to_le_bytes(d.flags),
        d.encoding().subrange(OFFSET_DATA_BUFFER_POINTER as int, OFFSET_DATA_BUFFER_POINTER + 4)
            == spec_u32_to_le_bytes(d.data_buffer_pointer),
        d.encoding().subrange(OFFSET_ERRORS as int, OFFSET_ERRORS + 2)
            == spec_u16_to_le_bytes(d.errors),
        d.encoding().subrange(OFFSET_CONTROL as int, OFFSET_CONTROL + 2)
            == spec_u16_to_le_bytes(d.control),
        d.encoding().subrange(OFFSET_LAUNCH_TIME as int, OFFSET_LAUNCH_TIME + 4)
            == spec_u32_to_le_bytes(d.launch_time),
        d.encoding().subrange(OFFSET_LAST_BDU as int, OFFSET_LAST_BDU + 2)
            == spec_u16_to_le_bytes(d.last_bdu),
        d.encoding().subrange(OFFSET_TIMESTAMP_1588 as int, OFFSET_TIMESTAMP_1588 + 4)
            == spec_u32_to_le_bytes(d.timestamp_1588),
{
    lemma_auto_spec_u16_to_from_le_bytes();
    lemma_auto_spec_u32_to_from_le_bytes();
    assert(d.encoding().subrange(OFFSET_DATA_LENGTH as int, OFFSET_DATA_LENGTH + 2)
        =~= spec_u16_to_le_bytes(d.data_length));
    assert(d.encoding().subrange(OFFSET_FLAGS as int, OFFSET_FLAGS + 2)
        =~= spec_u16_to_le_bytes(d.flags));
    assert(d.encoding().subrange(OFFSET_DATA_BUFFER_POINTER as int, OFFSET_DATA_BUFFER_POINTER + 4)
        =~= spec_u32_to_le_bytes(d.data_buffer_pointer));
    assert(d.encoding().subrange(OFFSET_ERRORS as int, OFFSET_ERRORS + 2)
        =~= spec_u16_to_le_bytes(d.errors));
    assert(d.encoding().subrange(OFFSET_CONTROL as int, OFFSET_CONTROL + 2)
        =~= spec_u16_to_le_bytes(d.control));
    assert(d.encoding().subrange(OFFSET_LAUNCH_TIME as int, OFFSET_LAUNCH_TIME + 4)
        =~= spec_u32_to_le_bytes(d.launch_time));
    assert(d.encoding().subrange(OFFSET_LAST_BDU as int, OFFSET_LAST_BDU + 2)
        =~= spec_u16_to_le_bytes(d.last_bdu));
    assert(d.encoding().subrange(OFFSET_TIMESTAMP_1588 as int, OFFSET_TIMESTAMP_1588 + 4)
        =~= spec_u32_to_le_bytes(d.timestamp_1588));
}

/// The encoding is lossless: decoding an image recovers the descriptor that
/// produced it, field for field.
pub proof fn lemma_tx_encoding_injective(d1: TxBD, d2: TxBD)
    requires
        d1.encoding() == d2.encoding(),
    ensures
        d1.data_length == d2.data_length,
        d1.flags == d2.flags,
        d1.data_buffer_pointer == d2.data_buffer_pointer,
        d1.errors == d2.errors,
        d1.control == d2.control,
        d1.launch_time == d2.launch_time,
        d1.last_bdu == d2.last_bdu,
        d1.timestamp_1588 == d2.timestamp_1588,
{
    lemma_auto_spec_u16_to_from_le_bytes();
    lemma_auto_spec_u32_to_from_le_bytes();
    lemma_tx_field_offsets(d1);
    lemma_tx_field_offsets(d2);
    assert(spec_u16_from_le_bytes(spec_u16_to_le_bytes(d1.data_length))
        == spec_u16_from_le_bytes(spec_u16_to_le_bytes(d2.data_length)));
    assert(spec_u16_from_le_bytes(spec_u16_to_le_bytes(d1.flags))
        == spec_u16_from_le_bytes(spec_u16_to_le_bytes(d2.flags)));
    assert(spec_u32_from_le_bytes(spec_u32_to_le_bytes(d1.data_buffer_pointer))
        == spec_u32_from_le_bytes(spec_u32_to_le_bytes(d2.data_buffer_pointer)));
    assert(spec_u16_from_le_bytes(spec_u16_to_le_bytes(d1.errors))
        == spec_u16_from_le_bytes(spec_u16_to_le_bytes(d2.errors)));
    assert(spec_u16_from_le_bytes(spec_u16_to_le_bytes(d1.control))
        == spec_u16_from_le_bytes(spec_u16_to_le_bytes(d2.control)));
    assert(spec_u32_from_le_bytes(spec_u32_to_le_bytes(d1.launch_time))
        == spec_u32_from_le_bytes(spec_u32_to_le_bytes(d2.launch_time)));
    assert(spec_u16_from_le_bytes(spec_u16_to_le_bytes(d1.last_bdu))
        == spec_u16_from_le_bytes(spec_u16_to_le_bytes(d2.last_bdu)));
    assert(spec_u32_from_le_bytes(spec_u32_to_le_bytes(d1.timestamp_1588))
        == spec_u32_from_le_bytes(spec_u32_to_le_bytes(d2.timestamp_1588)));
}

} // verus!
