//! Enhanced buffer descriptors and the ring handoff protocol.
//!
//! A descriptor ring plus its buffer pool forms an [`IoBuffers`] allocation.
//! Taking it yields the one live [`IoSlices`] cursor over the ring, from which
//! descriptors are claimed one [`IoToken`] at a time and handed back to the
//! DMA engine by consuming the token. Each descriptor's ownership bit
//! (`FLAGS_READY` for transmit, `FLAGS_EMPTY` for receive) is the sole arbiter
//! of which party — software or the DMA engine — may touch the descriptor and
//! its buffer.
//!
//! The DMA engine's half of the protocol is modelled by the `dma_*` methods:
//! they perform exactly the descriptor and buffer updates the hardware
//! performs, so the two-party handoff can be stated and checked end to end.
//!
//! The handoff order is part of the protocol and is kept structurally: a
//! claim reads the ownership bit before anything else of the slot, and a
//! consume commits the frame bytes and length before the single flag update
//! that flips ownership. On the device these two points carry the acquire
//! and release ordering that makes the DMA engine's view of memory
//! consistent.

pub mod rxbd;
pub mod txbd;

use vstd::prelude::*;
use vstd::arithmetic::div_mod::{lemma_add_mod_noop, lemma_small_mod};
use vstd::arithmetic::mul::lemma_mul_inequality;

use rxbd::RxBD;
use txbd::TxBD;

verus! {

/// The abstract state of an [`IoBuffers`] allocation: the descriptors, the
/// buffer contents, and the configured buffer length (MTU).
pub ghost struct PoolModel<D> {
    pub descriptors: Seq<D>,
    pub buffers: Seq<Seq<u8>>,
    pub mtu: int,
}

/// The abstract state of an [`IoSlices`] ring cursor.
pub ghost struct RingModel<D> {
    /// The descriptors, in ring order.
    pub descriptors: Seq<D>,
    /// The data buffer paired with each descriptor slot.
    pub buffers: Seq<Seq<u8>>,
    /// The fixed byte length of every buffer.
    pub mtu: int,
    /// The next slot software will try to claim.
    pub index: int,
    /// Whether a claimed, not yet consumed token is outstanding.
    pub claimed: bool,
    /// How many tokens have been consumed — equivalently, how many times the
    /// doorbell register has been rung.
    pub doorbells: int,
}

/// The abstract state of an [`IoToken`].
pub ghost struct TokenModel {
    /// The claimed slot.
    pub index: int,
    /// Where the cursor moves once the token is consumed.
    pub next: int,
    /// The buffer length of the ring the token was claimed from.
    pub mtu: int,
}

/// Ring geometry the hardware can accept: at least one descriptor, a buffer
/// length that is a positive multiple of 16 (the receive buffer-size register
/// drops the four low bits) that still fits the 16-bit descriptor length
/// fields, and a pool small enough that every buffer offset fits the 32-bit
/// descriptor address fields.
pub open spec fn valid_geometry(count: int, mtu: int) -> bool {
    &&& 0 < count
    &&& 0 < mtu <= 0xFFF0
    &&& mtu % 16 == 0
    &&& count * mtu <= 0xFFFF_FFFF
}

/// What holds of every freshly constructed pool: valid geometry and
/// zero-filled buffers, one per descriptor.
pub open spec fn pool_geometry_wf<D>(p: PoolModel<D>) -> bool {
    &&& valid_geometry(p.descriptors.len() as int, p.mtu)
    &&& p.buffers.len() == p.descriptors.len()
    &&& forall|i: int|
        0 <= i < p.buffers.len() ==> (#[trigger] p.buffers[i]) =~= Seq::new(
            p.mtu as nat,
            |j: int| 0u8,
        )
}

/// A freshly constructed transmit pool: valid geometry, zeroed buffers,
/// zeroed descriptors.
pub open spec fn tx_pool_wf(p: PoolModel<TxBD>) -> bool {
    &&& pool_geometry_wf(p)
    &&& forall|i: int| 0 <= i < p.descriptors.len() ==> (#[trigger] p.descriptors[i]).is_zeroed()
}

/// A freshly constructed receive pool: valid geometry, zeroed buffers,
/// zeroed descriptors.
pub open spec fn rx_pool_wf(p: PoolModel<RxBD>) -> bool {
    &&& pool_geometry_wf(p)
    &&& forall|i: int| 0 <= i < p.descriptors.len() ==> (#[trigger] p.descriptors[i]).is_zeroed()
}

/// The descriptor-independent part of a ring cursor's invariant.
///
/// `doorbells % count == index` ties the cursor to the number of consumed
/// tokens: slots are serviced strictly first-in, first-out, wrapping at the
/// ring's end.
pub open spec fn ring_geometry_wf<D>(m: RingModel<D>) -> bool {
    &&& valid_geometry(m.descriptors.len() as int, m.mtu)
    &&& m.buffers.len() == m.descriptors.len()
    &&& 0 <= m.index < m.descriptors.len()
    &&& 0 <= m.doorbells
    &&& m.doorbells % (m.descriptors.len() as int) == m.index
    &&& forall|i: int| 0 <= i < m.buffers.len() ==> (#[trigger] m.buffers[i]).len() == m.mtu
}

/// Invariant of a transmit ring: geometry, every recorded frame length within
/// the MTU, every descriptor pointing at its own buffer's offset in the pool,
/// and the wrap bit on the last descriptor exactly.
pub open spec fn tx_wf(m: RingModel<TxBD>) -> bool {
    &&& ring_geometry_wf(m)
    &&& forall|i: int|
        0 <= i < m.descriptors.len() ==> (#[trigger] m.descriptors[i]).data_length <= m.mtu
    &&& forall|i: int|
        0 <= i < m.descriptors.len() ==> (#[trigger] m.descriptors[i]).data_buffer_pointer == i
            * m.mtu
    &&& forall|i: int|
        0 <= i < m.descriptors.len() ==> ((#[trigger] m.descriptors[i]).flags & txbd::FLAGS_WRAP
            != 0 <==> i == m.descriptors.len() - 1)
}

/// Invariant of a receive ring: the receive-descriptor counterpart of
/// [`tx_wf`].
pub open spec fn rx_wf(m: RingModel<RxBD>) -> bool {
    &&& ring_geometry_wf(m)
    &&& forall|i: int|
        0 <= i < m.descriptors.len() ==> (#[trigger] m.descriptors[i]).data_length <= m.mtu
    &&& forall|i: int|
        0 <= i < m.descriptors.len() ==> (#[trigger] m.descriptors[i]).data_buffer_pointer == i
            * m.mtu
    &&& forall|i: int|
        0 <= i < m.descriptors.len() ==> ((#[trigger] m.descriptors[i]).flags & rxbd::FLAGS_WRAP
            != 0 <==> i == m.descriptors.len() - 1)
}

/// One descriptor ring and its paired buffer pool, before initialization.
///
/// This is the static allocation unit: it owns the memory but exposes no way
/// to touch it. The only operation is `take`, which consumes the allocation
/// and yields the single ring cursor that will ever exist over this memory —
/// initializing the same pool twice is a compile-time impossibility, not a
/// runtime check.
pub struct IoBuffers<D> {
    ring: Vec<D>,
    buffers: Vec<Vec<u8>>,
    mtu: usize,
}

/// Transmit descriptor ring plus buffers.
pub type TransmitBuffers = IoBuffers<TxBD>;

/// Receive descriptor ring plus buffers.
pub type ReceiveBuffers = IoBuffers<RxBD>;

impl<D> View for IoBuffers<D> {
    type V = PoolModel<D>;

    closed spec fn view(&self) -> PoolModel<D> {
        PoolModel {
            descriptors: self.ring@,
            buffers: self.buffers.deep_view(),
            mtu: self.mtu as int,
        }
    }
}

/// The runtime cursor over one initialized descriptor ring.
///
/// Tracks the next slot to service; the only mutating operations are claiming
/// the next descriptor (`next_token`) and consuming or releasing the claimed
/// token.
pub struct IoSlices<D> {
    ring: Vec<D>,
    buffers: Vec<Vec<u8>>,
    mtu: usize,
    index: usize,
    claimed: bool,
    doorbells: u64,
}

/// Cursor over a transmit ring.
pub type TransmitSlices = IoSlices<TxBD>;

/// Cursor over a receive ring.
pub type ReceiveSlices = IoSlices<RxBD>;

impl<D> View for IoSlices<D> {
    type V = RingModel<D>;

    closed spec fn view(&self) -> RingModel<D> {
        RingModel {
            descriptors: self.ring@,
            buffers: self.buffers.deep_view(),
            mtu: self.mtu as int,
            index: self.index as int,
            claimed: self.claimed,
            doorbells: self.doorbells as int,
        }
    }
}

/// A one-shot capability over one claimed descriptor.
///
/// Only `next_token` creates tokens, at most one is live per ring at any
/// instant, and consuming or releasing one takes it by value: a token cannot
/// be cloned, forged, or used twice.
pub struct IoToken {
    index: usize,
    next: usize,
    mtu: usize,
}

impl View for IoToken {
    type V = TokenModel;

    closed spec fn view(&self) -> TokenModel {
        TokenModel { index: self.index as int, next: self.next as int, mtu: self.mtu as int }
    }
}

impl IoToken {
    /// The ring slot this token grants access to.
    pub fn index(&self) -> (r: usize)
        ensures
            r as int == self@.index,
    {
        self.index
    }

    /// The buffer length of the ring the token was claimed from.
    pub fn mtu(&self) -> (r: usize)
        ensures
            r as int == self@.mtu,
    {
        self.mtu
    }
}

/// The relation between a live token and the ring it was claimed from: the
/// token is bound to the cursor's slot, knows the successor slot, and carries
/// the ring's MTU.
pub open spec fn token_for<D>(t: TokenModel, m: RingModel<D>) -> bool {
    &&& m.claimed
    &&& t.index == m.index
    &&& t.next == (m.index + 1) % (m.descriptors.len() as int)
    &&& t.mtu == m.mtu
}

/// A buffer of `mtu` zero bytes.
fn zero_buffer(mtu: usize) -> (b: Vec<u8>)
    ensures
        b@ =~= Seq::new(mtu as nat, |j: int| 0u8),
{
    let mut b: Vec<u8> = Vec::new();
    let mut j: usize = 0;
    while j < mtu
        invariant
            j <= mtu,
            b@.len() == j,
            forall|k: int| 0 <= k < j ==> b@[k] == 0u8,
        decreases mtu - j,
    {
        b.push(0u8);
        j += 1;
    }
    b
}

/// Copies `src` over the front of `dst`, leaving the tail unchanged.
fn copy_into(dst: &mut Vec<u8>, src: &[u8])
    requires
        src@.len() <= old(dst)@.len(),
    ensures
        final(dst)@.len() == old(dst)@.len(),
        final(dst)@ == src@ + old(dst)@.skip(src@.len() as int),
{
    let n = src.len();
    let mut j: usize = 0;
    while j < n
        invariant
            j <= n,
            n == src@.len(),
            n <= dst@.len(),
            dst@.len() == old(dst)@.len(),
            forall|k: int| 0 <= k < j ==> dst@[k] == src@[k],
            forall|k: int| j <= k < dst@.len() ==> dst@[k] == old(dst)@[k],
        decreases n - j,
    {
        dst[j] = src[j];
        j += 1;
    }
    proof {
        assert(dst@ =~= src@ + old(dst)@.skip(src@.len() as int));
    }
}

/// `deep_view` of a vector of byte vectors is the element-wise view.
proof fn lemma_buffers_deep_view(v: Vec<Vec<u8>>)
    ensures
        v.deep_view().len() == v@.len(),
        forall|i: int| 0 <= i < v@.len() ==> #[trigger] v.deep_view()[i] == v@[i]@,
{
    assert forall|i: int| 0 <= i < v@.len() implies #[trigger] v.deep_view()[i] == v@[i]@ by {
        assert(v.deep_view()[i] =~= v@[i]@);
    }
}

impl IoBuffers<TxBD> {
    /// Allocates a transmit pool of `count` descriptors with `mtu`-byte
    /// buffers, or refuses a geometry the hardware cannot encode — in
    /// particular any `mtu` that is zero or not a multiple of 16.
    pub fn new(count: usize, mtu: usize) -> (r: Option<IoBuffers<TxBD>>)
        ensures
            r is Some <==> valid_geometry(count as int, mtu as int),
            (r matches Some(p) ==> {
                &&& tx_pool_wf(p@)
                &&& p@.descriptors.len() == count
                &&& p@.mtu == mtu
            }),
    {
        if count == 0 || mtu == 0 || mtu > 0xFFF0 || mtu % 16 != 0 {
            return None;
        }
        match count.checked_mul(mtu) {
            Some(total) if total <= 0xFFFF_FFFFusize => {}
            _ => {
                return None;
            },
        }
        let mut ring: Vec<TxBD> = Vec::new();
        let mut i: usize = 0;
        while i < count
            invariant
                i <= count,
                ring@.len() == i,
                forall|k: int| 0 <= k < i ==> (#[trigger] ring@[k]).is_zeroed(),
            decreases count - i,
        {
            ring.push(TxBD::zeroed());
            i += 1;
        }
        let mut buffers: Vec<Vec<u8>> = Vec::new();
        let mut i: usize = 0;
        while i < count
            invariant
                i <= count,
                buffers@.len() == i,
                forall|k: int|
                    0 <= k < i ==> (#[trigger] buffers@[k])@ =~= Seq::new(
                        mtu as nat,
                        |j: int| 0u8,
                    ),
            decreases count - i,
        {
            buffers.push(zero_buffer(mtu));
            i += 1;
        }
        let pool = IoBuffers { ring, buffers, mtu };
        proof {
            lemma_buffers_deep_view(pool.buffers);
        }
        Some(pool)
    }
}

impl IoBuffers<RxBD> {
    /// Allocates a receive pool of `count` descriptors with `mtu`-byte
    /// buffers, or refuses a geometry the hardware cannot encode — in
    /// particular any `mtu` that is zero or not a multiple of 16.
    pub fn new(count: usize, mtu: usize) -> (r: Option<IoBuffers<RxBD>>)
        ensures
            r is Some <==> valid_geometry(count as int, mtu as int),
            (r matches Some(p) ==> {
                &&& rx_pool_wf(p@)
                &&& p@.descriptors.len() == count
                &&& p@.mtu == mtu
            }),
    {
        if count == 0 || mtu == 0 || mtu > 0xFFF0 || mtu % 16 != 0 {
            return None;
        }
        match count.checked_mul(mtu) {
            Some(total) if total <= 0xFFFF_FFFFusize => {}
            _ => {
                return None;
            },
        }
        let mut ring: Vec<RxBD> = Vec::new();
        let mut i: usize = 0;
        while i < count
            invariant
                i <= count,
                ring@.len() == i,
                forall|k: int| 0 <= k < i ==> (#[trigger] ring@[k]).is_zeroed(),
            decreases count - i,
        {
            ring.push(RxBD::zeroed());
            i += 1;
        }
        let mut buffers: Vec<Vec<u8>> = Vec::new();
        let mut i: usize = 0;
        while i < count
            invariant
                i <= count,
                buffers@.len() == i,
                forall|k: int|
                    0 <= k < i ==> (#[trigger] buffers@[k])@ =~= Seq::new(
                        mtu as nat,
                        |j: int| 0u8,
                    ),
            decreases count - i,
        {
            buffers.push(zero_buffer(mtu));
            i += 1;
        }
        let pool = IoBuffers { ring, buffers, mtu };
        proof {
            lemma_buffers_deep_view(pool.buffers);
        }
        Some(pool)
    }

    /// Initializes the ring — buffer addresses written into the descriptors,
    /// every slot owned by hardware (`FLAGS_EMPTY`), wrap bit on the last
    /// slot — and hands out the single cursor over it.
    ///
    /// Taking consumes the pool, so a second initialization of the same
    /// memory cannot even be written down.
    pub fn take(self) -> (s: IoSlices<RxBD>)
        requires
            rx_pool_wf(self@),
        ensures
            rx_wf(s@),
            s@.mtu == self@.mtu,
            s@.descriptors.len() == self@.descriptors.len(),
            s@.buffers == self@.buffers,
            s@.index == 0,
            s@.claimed == false,
            s@.doorbells == 0,
            forall|i: int|
                0 <= i < s@.descriptors.len() ==> {
                    &&& (#[trigger] s@.descriptors[i]).data_length == 0
                    &&& s@.descriptors[i].data_buffer_pointer == i * s@.mtu
                    &&& s@.descriptors[i].flags == (rxbd::FLAGS_EMPTY | (if i
                        == s@.descriptors.len() - 1 {
                        rxbd::FLAGS_WRAP
                    } else {
                        0u16
                    }))
                },
    {
        proof {
            lemma_rx_flag_values();
            assert(0x8000u16 | 0x2000u16 == 0xA000u16) by (bit_vector);
            assert(0x8000u16 | 0u16 == 0x8000u16) by (bit_vector);
            assert(0xA000u16 & 0x2000u16 != 0) by (bit_vector);
            assert(0x8000u16 & 0x2000u16 == 0) by (bit_vector);
        }
        let mut ring = self.ring;
        let buffers = self.buffers;
        let mtu = self.mtu;
        let count = ring.len();
        let mut i: usize = 0;
        while i < count
            invariant
                i <= count,
                ring@.len() == count,
                valid_geometry(count as int, mtu as int),
                forall|k: int| i <= k < count ==> (#[trigger] ring@[k]).is_zeroed(),
                forall|k: int|
                    0 <= k < i ==> {
                        &&& (#[trigger] ring@[k]).data_length == 0
                        &&& ring@[k].data_buffer_pointer == k * mtu
                        &&& ring@[k].flags == (rxbd::FLAGS_EMPTY | (if k == count - 1 {
                            rxbd::FLAGS_WRAP
                        } else {
                            0u16
                        }))
                    },
            decreases count - i,
        {
            proof {
                lemma_mul_inequality(i as int, count as int, mtu as int);
                lemma_rx_flag_values();
                assert(0x8000u16 | 0u16 == 0x8000u16) by (bit_vector);
            }
            let flags: u16 = if i == count - 1 {
                rxbd::FLAGS_EMPTY | rxbd::FLAGS_WRAP
            } else {
                rxbd::FLAGS_EMPTY
            };
            ring[i] = RxBD {
                data_length: 0,
                flags,
                data_buffer_pointer: (i * mtu) as u32,
                status: 0,
                control: 0,
                checksum: 0,
                header: 0,
                reserved0: 0,
                last_bdu: 0,
                timestamp_1588: 0,
                reserved1: [0u16, 0u16, 0u16, 0u16],
            };
            i += 1;
        }
        let s = IoSlices { ring, buffers, mtu, index: 0, claimed: false, doorbells: 0 };
        proof {
            lemma_small_mod(0nat, count as nat);
            lemma_rx_flag_values();
            assert forall|k: int| 0 <= k < count implies ((#[trigger] s@.descriptors[k]).flags
                & rxbd::FLAGS_WRAP != 0 <==> k == count - 1) by {
                assert(0x8000u16 | 0x2000u16 == 0xA000u16) by (bit_vector);
                assert(0x8000u16 | 0u16 == 0x8000u16) by (bit_vector);
                assert(0xA000u16 & 0x2000u16 != 0) by (bit_vector);
                assert(0x8000u16 & 0x2000u16 == 0) by (bit_vector);
            }
        }
        s
    }
}

impl IoBuffers<TxBD> {
    /// Initializes the ring — buffer addresses written into the descriptors,
    /// every slot left owned by software (ready bit clear), wrap bit on the
    /// last slot — and hands out the single cursor over it.
    ///
    /// Taking consumes the pool, so a second initialization of the same
    /// memory cannot even be written down.
    pub fn take(self) -> (s: IoSlices<TxBD>)
        requires
            tx_pool_wf(self@),
        ensures
            tx_wf(s@),
            s@.mtu == self@.mtu,
            s@.descriptors.len() == self@.descriptors.len(),
            s@.buffers == self@.buffers,
            s@.index == 0,
            s@.claimed == false,
            s@.doorbells == 0,
            forall|i: int|
                0 <= i < s@.descriptors.len() ==> {
                    &&& (#[trigger] s@.descriptors[i]).data_length == 0
                    &&& s@.descriptors[i].data_buffer_pointer == i * s@.mtu
                    &&& s@.descriptors[i].flags == (if i == s@.descriptors.len() - 1 {
                        txbd::FLAGS_WRAP
                    } else {
                        0u16
                    })
                },
    {
        proof {
            lemma_tx_flag_values();
            assert(0x2000u16 & 0x2000u16 != 0) by (bit_vector);
            assert(0u16 & 0x2000u16 == 0) by (bit_vector);
        }
        let mut ring = self.ring;
        let buffers = self.buffers;
        let mtu = self.mtu;
        let count = ring.len();
        let mut i: usize = 0;
        while i < count
            invariant
                i <= count,
                ring@.len() == count,
                valid_geometry(count as int, mtu as int),
                forall|k: int| i <= k < count ==> (#[trigger] ring@[k]).is_zeroed(),
                forall|k: int|
                    0 <= k < i ==> {
                        &&& (#[trigger] ring@[k]).data_length == 0
                        &&& ring@[k].data_buffer_pointer == k * mtu
                        &&& ring@[k].flags == (if k == count - 1 {
                            txbd::FLAGS_WRAP
                        } else {
                            0u16
                        })
                    },
            decreases count - i,
        {
            proof {
                lemma_mul_inequality(i as int, count as int, mtu as int);
            }
            let flags: u16 = if i == count - 1 {
                txbd::FLAGS_WRAP
            } else {
                0
            };
            ring[i] = TxBD {
                data_length: 0,
                flags,
                data_buffer_pointer: (i * mtu) as u32,
                errors: 0,
                control: 0,
                launch_time: 0,
                reserved0: 0,
                last_bdu: 0,
                timestamp_1588: 0,
                reserved1: [0u16, 0u16, 0u16, 0u16],
            };
            i += 1;
        }
        let s = IoSlices { ring, buffers, mtu, index: 0, claimed: false, doorbells: 0 };
        proof {
            lemma_small_mod(0nat, count as nat);
            lemma_tx_flag_values();
            assert forall|k: int| 0 <= k < count implies ((#[trigger] s@.descriptors[k]).flags
                & txbd::FLAGS_WRAP != 0 <==> k == count - 1) by {
                assert(0x2000u16 & 0x2000u16 != 0) by (bit_vector);
                assert(0u16 & 0x2000u16 == 0) by (bit_vector);
            }
        }
        s
    }
}

/// Copies a prefix of `src` out into a fresh vector.
fn copy_prefix(src: &Vec<u8>, n: usize) -> (out: Vec<u8>)
    requires
        n <= src@.len(),
    ensures
        out@ == src@.take(n as int),
{
    let mut out: Vec<u8> = Vec::new();
    let mut j: usize = 0;
    while j < n
        invariant
            j <= n,
            n <= src@.len(),
            out@.len() == j,
            forall|k: int| 0 <= k < j ==> out@[k] == src@[k],
        decreases n - j,
    {
        out.push(src[j]);
        j += 1;
    }
    proof {
        assert(out@ =~= src@.take(n as int));
    }
    out
}

/// A transmit descriptor as `consume` commits it to hardware: frame length
/// recorded, ready/last-in-frame/CRC-request bits set in one update,
/// everything else untouched.
pub open spec fn tx_committed(d: TxBD, len: u16) -> TxBD {
    TxBD {
        data_length: len,
        flags: d.flags | (txbd::FLAGS_READY | txbd::FLAGS_LAST_IN | txbd::FLAGS_TRANSMIT_CRC),
        ..d
    }
}

/// A transmit descriptor as the DMA engine returns it after sending the
/// frame: the ready bit cleared, everything else untouched.
pub open spec fn tx_reclaimed(d: TxBD) -> TxBD {
    TxBD { flags: d.flags & !txbd::FLAGS_READY, ..d }
}

/// A receive descriptor as `consume` hands it back for reuse: the empty bit
/// set, everything else untouched.
pub open spec fn rx_released(d: RxBD) -> RxBD {
    RxBD { flags: d.flags | rxbd::FLAGS_EMPTY, ..d }
}

/// A receive descriptor as the DMA engine fills it with a received frame:
/// length recorded, the empty bit cleared, everything else untouched.
pub open spec fn rx_filled(d: RxBD, len: u16) -> RxBD {
    RxBD { data_length: len, flags: d.flags & !rxbd::FLAGS_EMPTY, ..d }
}

impl<D> IoSlices<D> {
    /// The configured buffer length.
    pub fn mtu(&self) -> (r: usize)
        ensures
            r as int == self@.mtu,
    {
        self.mtu
    }

    /// How many descriptors the ring holds.
    pub fn len(&self) -> (r: usize)
        ensures
            r as int == self@.descriptors.len(),
    {
        self.ring.len()
    }

    /// The next slot software will try to claim.
    pub fn index(&self) -> (r: usize)
        ensures
            r as int == self@.index,
    {
        self.index
    }

    /// How many tokens have been consumed — equivalently, how many doorbell
    /// notifications this ring has produced.
    pub fn doorbells(&self) -> (r: u64)
        ensures
            r as int == self@.doorbells,
    {
        self.doorbells
    }

    /// Whether a claimed, not yet consumed token is outstanding.
    pub fn is_claimed(&self) -> (r: bool)
        ensures
            r == self@.claimed,
    {
        self.claimed
    }

    /// Read-only access to one descriptor, for inspecting its status fields.
    pub fn descriptor(&self, i: usize) -> (d: &D)
        requires
            (i as int) < self@.descriptors.len(),
        ensures
            *d == self@.descriptors[i as int],
    {
        &self.ring[i]
    }

    /// Read-only access to one slot's data buffer.
    pub fn buffer(&self, i: usize) -> (b: &Vec<u8>)
        requires
            (i as int) < self@.buffers.len(),
        ensures
            b@ == self@.buffers[i as int],
    {
        proof {
            lemma_buffers_deep_view(self.buffers);
        }
        &self.buffers[i]
    }

    /// Gives up a claimed token without consuming it.
    ///
    /// This is the drop path: the descriptor, the buffer, and the cursor are
    /// all left exactly as they were — no partial handoff — and the slot can
    /// be claimed again.
    pub fn release(&mut self, token: IoToken)
        requires
            old(self)@.claimed,
            token@.index == old(self)@.index,
        ensures
            final(self)@ == (RingModel { claimed: false, ..old(self)@ }),
    {
        let _ = token;
        self.claimed = false;
    }
}

impl IoSlices<TxBD> {
    /// Tries to claim the next transmit slot.
    ///
    /// The claim succeeds exactly when no token is already outstanding and
    /// the ownership bit of the slot under the cursor grants software access
    /// (ready bit clear). A `None` is backpressure, not an error: the ring is
    /// full and the caller polls again later. Nothing is modified except the
    /// outstanding-token mark.
    pub fn next_token(&mut self) -> (t: Option<IoToken>)
        requires
            tx_wf(old(self)@),
        ensures
            tx_wf(final(self)@),
            (t is Some) <==> (!old(self)@.claimed && old(self)@.descriptors[old(
                self,
            )@.index].flags & txbd::FLAGS_READY == 0),
            (t matches Some(tok) ==> tok@ == (TokenModel {
                index: old(self)@.index,
                next: (old(self)@.index + 1) % (old(self)@.descriptors.len() as int),
                mtu: old(self)@.mtu,
            })),
            t is Some ==> final(self)@ == (RingModel { claimed: true, ..old(self)@ }),
            t is None ==> final(self)@ == old(self)@,
    {
        if self.claimed {
            return None;
        }
        let idx = self.index;
        let count = self.ring.len();
        if self.ring[idx].is_ready() {
            None
        } else {
            let next = (idx + 1) % count;
            self.claimed = true;
            Some(IoToken { index: idx, next, mtu: self.mtu })
        }
    }

    /// Consumes a claimed token with a frame to transmit: writes the frame
    /// into the slot's buffer, records its length, hands the descriptor to
    /// the DMA engine (ready, last-in-frame, CRC-request bits in one update),
    /// rings the doorbell once, and advances the cursor.
    ///
    /// A frame longer than the MTU is a contract violation: the call is
    /// statically impossible rather than checked at runtime.
    pub fn consume(&mut self, token: IoToken, frame: &[u8])
        requires
            tx_wf(old(self)@),
            token_for(token@, old(self)@),
            frame@.len() <= old(self)@.mtu,
            old(self)@.doorbells < u64::MAX,
        ensures
            tx_wf(final(self)@),
            final(self)@.mtu == old(self)@.mtu,
            final(self)@.claimed == false,
            final(self)@.doorbells == old(self)@.doorbells + 1,
            final(self)@.index == token@.next,
            final(self)@.descriptors == old(self)@.descriptors.update(
                token@.index,
                tx_committed(old(self)@.descriptors[token@.index], frame@.len() as u16),
            ),
            final(self)@.buffers == old(self)@.buffers.update(
                token@.index,
                frame@ + old(self)@.buffers[token@.index].skip(frame@.len() as int),
            ),
    {
        let idx = token.index;
        proof {
            lemma_buffers_deep_view(self.buffers);
            assert(self@.buffers[token@.index].len() == self@.mtu);
            assert(self.buffers@[token@.index]@ == self@.buffers[token@.index]);
        }
        copy_into(&mut self.buffers[idx], frame);
        let d = &mut self.ring[idx];
        d.data_length = frame.len() as u16;
        d.flags = d.flags | (txbd::FLAGS_READY | txbd::FLAGS_LAST_IN | txbd::FLAGS_TRANSMIT_CRC);
        self.index = token.next;
        self.claimed = false;
        self.doorbells = self.doorbells + 1;
        proof {
            lemma_buffers_deep_view(self.buffers);
            let n = old(self)@.descriptors.len() as int;
            lemma_add_mod_noop(old(self)@.doorbells, 1, n);
            lemma_add_mod_noop(old(self)@.index, 1, n);
            lemma_small_mod(old(self)@.index as nat, n as nat);
            vstd::arithmetic::div_mod::lemma_mod_bound(old(self)@.index + 1, n);
            lemma_tx_flag_values();
            let f = old(self)@.descriptors[token@.index].flags;
            assert((f | (0x8000u16 | 0x0800u16 | 0x0400u16)) & 0x2000u16 == f & 0x2000u16)
                by (bit_vector);
            assert(self@.buffers =~= old(self)@.buffers.update(
                token@.index,
                frame@ + old(self)@.buffers[token@.index].skip(frame@.len() as int),
            ));
        }
    }

    /// The DMA engine's half of a transmission: it may take any descriptor
    /// whose ready bit is set, reads exactly the recorded number of bytes out
    /// of the slot's buffer as the outgoing frame, and clears the ready bit,
    /// returning the slot to software. Cursor and doorbell state belong to
    /// software and are untouched.
    pub fn dma_transmit(&mut self, i: usize) -> (frame: Vec<u8>)
        requires
            tx_wf(old(self)@),
            (i as int) < old(self)@.descriptors.len(),
            old(self)@.descriptors[i as int].flags & txbd::FLAGS_READY != 0,
        ensures
            tx_wf(final(self)@),
            frame@ == old(self)@.buffers[i as int].take(
                old(self)@.descriptors[i as int].data_length as int,
            ),
            final(self)@.descriptors == old(self)@.descriptors.update(
                i as int,
                tx_reclaimed(old(self)@.descriptors[i as int]),
            ),
            final(self)@ == (RingModel {
                descriptors: final(self)@.descriptors,
                ..old(self)@
            }),
    {
        proof {
            lemma_buffers_deep_view(self.buffers);
            assert(self@.buffers[i as int].len() == self@.mtu);
            assert(self@.descriptors[i as int].data_length <= self@.mtu);
            assert(self.buffers@[i as int]@ == self@.buffers[i as int]);
        }
        let len = self.ring[i].data_length as usize;
        let frame = copy_prefix(&self.buffers[i], len);
        let d = &mut self.ring[i];
        d.flags = d.flags & !txbd::FLAGS_READY;
        proof {
            lemma_buffers_deep_view(self.buffers);
            lemma_tx_flag_values();
            let f = old(self)@.descriptors[i as int].flags;
            assert((f & !0x8000u16) & 0x2000u16 == f & 0x2000u16) by (bit_vector);
            assert(self@.buffers =~= old(self)@.buffers);
        }
        frame
    }
}

impl IoSlices<RxBD> {
    /// Tries to claim the next received frame.
    ///
    /// The claim succeeds exactly when no token is already outstanding and
    /// the ownership bit of the slot under the cursor grants software access
    /// (empty bit clear, i.e. the DMA engine has filled it). A `None` is the
    /// expected "no frame ready" signal. Nothing is modified except the
    /// outstanding-token mark.
    pub fn next_token(&mut self) -> (t: Option<IoToken>)
        requires
            rx_wf(old(self)@),
        ensures
            rx_wf(final(self)@),
            (t is Some) <==> (!old(self)@.claimed && old(self)@.descriptors[old(
                self,
            )@.index].flags & rxbd::FLAGS_EMPTY == 0),
            (t matches Some(tok) ==> tok@ == (TokenModel {
                index: old(self)@.index,
                next: (old(self)@.index + 1) % (old(self)@.descriptors.len() as int),
                mtu: old(self)@.mtu,
            })),
            t is Some ==> final(self)@ == (RingModel { claimed: true, ..old(self)@ }),
            t is None ==> final(self)@ == old(self)@,
    {
        if self.claimed {
            return None;
        }
        let idx = self.index;
        let count = self.ring.len();
        if self.ring[idx].is_empty() {
            None
        } else {
            let next = (idx + 1) % count;
            self.claimed = true;
            Some(IoToken { index: idx, next, mtu: self.mtu })
        }
    }

    /// Consumes a claimed token: reads out exactly the number of bytes the
    /// DMA engine recorded for the frame, hands the descriptor back to the
    /// DMA engine for reuse (empty bit set), rings the doorbell once, and
    /// advances the cursor.
    pub fn consume(&mut self, token: IoToken) -> (frame: Vec<u8>)
        requires
            rx_wf(old(self)@),
            token_for(token@, old(self)@),
            old(self)@.doorbells < u64::MAX,
        ensures
            rx_wf(final(self)@),
            final(self)@.mtu == old(self)@.mtu,
            final(self)@.claimed == false,
            final(self)@.doorbells == old(self)@.doorbells + 1,
            final(self)@.index == token@.next,
            frame@ == old(self)@.buffers[token@.index].take(
                old(self)@.descriptors[token@.index].data_length as int,
            ),
            final(self)@.buffers == old(self)@.buffers,
            final(self)@.descriptors == old(self)@.descriptors.update(
                token@.index,
                rx_released(old(self)@.descriptors[token@.index]),
            ),
    {
        let idx = token.index;
        proof {
            lemma_buffers_deep_view(self.buffers);
            assert(self@.buffers[token@.index].len() == self@.mtu);
            assert(self@.descriptors[token@.index].data_length <= self@.mtu);
            assert(self.buffers@[token@.index]@ == self@.buffers[token@.index]);
        }
        let len = self.ring[idx].data_length as usize;
        let frame = copy_prefix(&self.buffers[idx], len);
        let d = &mut self.ring[idx];
        d.flags = d.flags | rxbd::FLAGS_EMPTY;
        self.index = token.next;
        self.claimed = false;
        self.doorbells = self.doorbells + 1;
        proof {
            lemma_buffers_deep_view(self.buffers);
            let n = old(self)@.descriptors.len() as int;
            lemma_add_mod_noop(old(self)@.doorbells, 1, n);
            lemma_add_mod_noop(old(self)@.index, 1, n);
            lemma_small_mod(old(self)@.index as nat, n as nat);
            vstd::arithmetic::div_mod::lemma_mod_bound(old(self)@.index + 1, n);
            lemma_rx_flag_values();
            let f = old(self)@.descriptors[token@.index].flags;
            assert((f | 0x8000u16) & 0x2000u16 == f & 0x2000u16) by (bit_vector);
            assert(self@.buffers =~= old(self)@.buffers);
        }
        frame
    }

    /// The DMA engine's half of a reception: it may fill any descriptor
    /// whose empty bit is set, writing the frame over the front of the
    /// slot's buffer, recording its length, and clearing the empty bit —
    /// which hands the slot to software. Cursor and doorbell state belong to
    /// software and are untouched.
    pub fn dma_deliver(&mut self, i: usize, frame: &[u8])
        requires
            rx_wf(old(self)@),
            (i as int) < old(self)@.descriptors.len(),
            old(self)@.descriptors[i as int].flags & rxbd::FLAGS_EMPTY != 0,
            frame@.len() <= old(self)@.mtu,
        ensures
            rx_wf(final(self)@),
            final(self)@.descriptors == old(self)@.descriptors.update(
                i as int,
                rx_filled(old(self)@.descriptors[i as int], frame@.len() as u16),
            ),
            final(self)@.buffers == old(self)@.buffers.update(
                i as int,
                frame@ + old(self)@.buffers[i as int].skip(frame@.len() as int),
            ),
            final(self)@ == (RingModel {
                descriptors: final(self)@.descriptors,
                buffers: final(self)@.buffers,
                ..old(self)@
            }),
    {
        proof {
            lemma_buffers_deep_view(self.buffers);
            assert(self@.buffers[i as int].len() == self@.mtu);
            assert(self.buffers@[i as int]@ == self@.buffers[i as int]);
        }
        copy_into(&mut self.buffers[i], frame);
        let d = &mut self.ring[i];
        d.data_length = frame.len() as u16;
        d.flags = d.flags & !rxbd::FLAGS_EMPTY;
        proof {
            lemma_buffers_deep_view(self.buffers);
            lemma_rx_flag_values();
            let f = old(self)@.descriptors[i as int].flags;
            assert((f & !0x8000u16) & 0x2000u16 == f & 0x2000u16) by (bit_vector);
            assert(self@.buffers =~= old(self)@.buffers.update(
                i as int,
                frame@ + old(self)@.buffers[i as int].skip(frame@.len() as int),
            ));
        }
    }
}

/// Claims a received frame together with the transmit slot a reply may need.
///
/// Receiving always yields both tokens, since acknowledgement frames may
/// have to go out. If either ring cannot grant its claim, neither ring is
/// changed: a transmit claim made before a failed receive claim is released
/// again, so no half-claimed state ever escapes.
pub fn claim_pair(rx: &mut IoSlices<RxBD>, tx: &mut IoSlices<TxBD>) -> (r: Option<
    (IoToken, IoToken),
>)
    requires
        rx_wf(old(rx)@),
        tx_wf(old(tx)@),
    ensures
        rx_wf(final(rx)@),
        tx_wf(final(tx)@),
        (r is Some) <==> ({
            &&& !old(tx)@.claimed
            &&& old(tx)@.descriptors[old(tx)@.index].flags & txbd::FLAGS_READY == 0
            &&& !old(rx)@.claimed
            &&& old(rx)@.descriptors[old(rx)@.index].flags & rxbd::FLAGS_EMPTY == 0
        }),
        (r matches Some((rx_token, tx_token)) ==> {
            &&& token_for(rx_token@, final(rx)@)
            &&& token_for(tx_token@, final(tx)@)
            &&& final(rx)@ == (RingModel { claimed: true, ..old(rx)@ })
            &&& final(tx)@ == (RingModel { claimed: true, ..old(tx)@ })
        }),
        r is None ==> final(rx)@ == old(rx)@ && final(tx)@ == old(tx)@,
{
    let tx_token = match tx.next_token() {
        Some(t) => t,
        None => {
            return None;
        },
    };
    match rx.next_token() {
        Some(rx_token) => Some((rx_token, tx_token)),
        None => {
            tx.release(tx_token);
            None
        },
    }
}

/// After initialization — and preserved by every claim, consume, and DMA
/// action — exactly one transmit descriptor carries the wrap bit: the last.
pub proof fn lemma_wrap_bit_placement_tx(m: RingModel<TxBD>)
    requires
        tx_wf(m),
    ensures
        m.descriptors[m.descriptors.len() - 1].flags & txbd::FLAGS_WRAP != 0,
        forall|i: int|
            0 <= i < m.descriptors.len() - 1 ==> (#[trigger] m.descriptors[i]).flags
                & txbd::FLAGS_WRAP == 0,
{
}

/// After initialization — and preserved by every claim, consume, and DMA
/// action — exactly one receive descriptor carries the wrap bit: the last.
pub proof fn lemma_wrap_bit_placement_rx(m: RingModel<RxBD>)
    requires
        rx_wf(m),
    ensures
        m.descriptors[m.descriptors.len() - 1].flags & rxbd::FLAGS_WRAP != 0,
        forall|i: int|
            0 <= i < m.descriptors.len() - 1 ==> (#[trigger] m.descriptors[i]).flags
                & rxbd::FLAGS_WRAP == 0,
{
}

/// Claims are strictly first-in, first-out: the cursor always sits at the
/// number of consumed tokens modulo the ring size, so the k-th consumed token
/// was bound to slot `k % count` — `0, 1, ..., count-1, 0, 1, ...` with the
/// wrap exactly at the ring's end.
pub proof fn lemma_fifo_cursor<D>(m: RingModel<D>)
    requires
        ring_geometry_wf(m),
    ensures
        m.index == m.doorbells % (m.descriptors.len() as int),
{
}

/// Committing a transmit token flips ownership to the DMA engine in a single
/// combined flag update: ready, last-in-frame, and CRC-request all set, wrap
/// untouched, and the frame length recorded.
pub proof fn lemma_tx_commit_flags(d: TxBD, len: u16)
    ensures
        tx_committed(d, len).flags & txbd::FLAGS_READY != 0,
        tx_committed(d, len).flags & txbd::FLAGS_LAST_IN != 0,
        tx_committed(d, len).flags & txbd::FLAGS_TRANSMIT_CRC != 0,
        tx_committed(d, len).flags & txbd::FLAGS_WRAP == d.flags & txbd::FLAGS_WRAP,
        tx_committed(d, len).data_length == len,
        tx_committed(d, len).data_buffer_pointer == d.data_buffer_pointer,
{
    lemma_tx_flag_values();
    let f = d.flags;
    assert((f | (0x8000u16 | 0x0800u16 | 0x0400u16)) & 0x8000u16 != 0) by (bit_vector);
    assert((f | (0x8000u16 | 0x0800u16 | 0x0400u16)) & 0x0800u16 != 0) by (bit_vector);
    assert((f | (0x8000u16 | 0x0800u16 | 0x0400u16)) & 0x0400u16 != 0) by (bit_vector);
    assert((f | (0x8000u16 | 0x0800u16 | 0x0400u16)) & 0x2000u16 == f & 0x2000u16)
        by (bit_vector);
}

/// Releasing a consumed receive slot hands it to the DMA engine: the empty
/// bit is set afterward, the wrap bit and the rest of the descriptor are
/// untouched.
pub proof fn lemma_rx_release_flags(d: RxBD)
    ensures
        rx_released(d).flags & rxbd::FLAGS_EMPTY != 0,
        rx_released(d).flags & rxbd::FLAGS_WRAP == d.flags & rxbd::FLAGS_WRAP,
        rx_released(d).data_length == d.data_length,
        rx_released(d).data_buffer_pointer == d.data_buffer_pointer,
{
    lemma_rx_flag_values();
    let f = d.flags;
    assert((f | 0x8000u16) & 0x8000u16 != 0) by (bit_vector);
    assert((f | 0x8000u16) & 0x2000u16 == f & 0x2000u16) by (bit_vector);
}

/// A filled receive slot belongs to software (empty bit clear), and a
/// reclaimed transmit slot belongs to software (ready bit clear): the
/// ownership bit always says whose turn it is.
pub proof fn lemma_dma_returns_ownership(rx: RxBD, len: u16, tx: TxBD)
    ensures
        rx_filled(rx, len).flags & rxbd::FLAGS_EMPTY == 0,
        tx_reclaimed(tx).flags & txbd::FLAGS_READY == 0,
{
    lemma_rx_flag_values();
    lemma_tx_flag_values();
    let f = rx.flags;
    assert((f & !0x8000u16) & 0x8000u16 == 0) by (bit_vector);
    let g = tx.flags;
    assert((g & !0x8000u16) & 0x8000u16 == 0) by (bit_vector);
}

/// The frame written at a handoff is exactly the frame read back at the next
/// handoff of the same slot: writing a frame over the front of a buffer and
/// then taking the recorded length returns that frame, byte for byte.
pub proof fn lemma_frame_round_trip(buffer: Seq<u8>, frame: Seq<u8>, rest: Seq<u8>)
    requires
        buffer == frame + rest,
    ensures
        buffer.take(frame.len() as int) == frame,
{
    assert(buffer.take(frame.len() as int) =~= frame);
}

/// The numeric values of the transmit flag bits, fixed by the hardware
/// manual.
proof fn lemma_tx_flag_values()
    ensures
        txbd::FLAGS_READY == 0x8000u16,
        txbd::FLAGS_WRAP == 0x2000u16,
        txbd::FLAGS_LAST_IN == 0x0800u16,
        txbd::FLAGS_TRANSMIT_CRC == 0x0400u16,
{
    assert(1u16 << 15 == 0x8000u16) by (bit_vector);
    assert(1u16 << 13 == 0x2000u16) by (bit_vector);
    assert(1u16 << 11 == 0x0800u16) by (bit_vector);
    assert(1u16 << 10 == 0x0400u16) by (bit_vector);
}

/// The numeric values of the receive flag bits, fixed by the hardware manual.
proof fn lemma_rx_flag_values()
    ensures
        rxbd::FLAGS_EMPTY == 0x8000u16,
        rxbd::FLAGS_WRAP == 0x2000u16,
{
    assert(1u16 << 15 == 0x8000u16) by (bit_vector);
    assert(1u16 << 13 == 0x2000u16) by (bit_vector);
}

} // verus!
