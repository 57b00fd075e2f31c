//! The D1 Ethernet controller: its descriptor rings, how frames are handed
//! to and taken from the DMA engine, the PHY's answers, and the address the
//! relay assigned.
use vstd::prelude::*;
use crate::mmio::RegOp;
use crate::net::device::DeviceCapabilities;

verus! {

pub const EMAC_BASE: usize = 0x0450_0000;
pub const EMAC_BASIC_CTL0: usize = 0x00;
pub const EMAC_BASIC_CTL1: usize = 0x04;
pub const EMAC_TX_CTL0: usize = 0x10;
pub const EMAC_TX_CTL1: usize = 0x14;
pub const EMAC_TX_DMA_DESC: usize = 0x20;
pub const EMAC_RX_CTL0: usize = 0x24;
pub const EMAC_RX_CTL1: usize = 0x28;
pub const EMAC_RX_DMA_DESC: usize = 0x34;
pub const EMAC_RX_FRM_FLT: usize = 0x38;
pub const EMAC_MII_CMD: usize = 0x48;
pub const EMAC_MII_DATA: usize = 0x4C;
pub const EMAC_ADDR_HIGH: usize = 0x50;
pub const EMAC_ADDR_LOW: usize = 0x54;
/// The address the relay assigned (an extension of the emulated controller).
pub const EMAC_IP_CONFIG: usize = 0x100;
pub const CTL0_FULL_DUPLEX: u32 = 1;
pub const CTL0_SPEED_100: u32 = 0xC;
pub const CTL0_SPEED_10: u32 = 0x8;
pub const CTL1_SOFT_RST: u32 = 1;
pub const CTL1_BURST_LEN: u32 = 0x0800_0000;
pub const TX_CTL0_TX_EN: u32 = 0x8000_0000;
pub const TX_CTL1_TX_DMA_EN: u32 = 0x4000_0000;
pub const RX_CTL0_RX_EN: u32 = 0x8000_0000;
pub const RX_CTL1_RX_DMA_EN: u32 = 0x4000_0000;
/// The RTL8201F's address on the MDIO bus.
pub const PHY_ADDR: u32 = 1;
pub const MII_BMCR: u32 = 0;
pub const MII_BMSR: u32 = 1;
pub const MII_PHYSID1: u32 = 2;
pub const MII_PHYSID2: u32 = 3;
pub const MII_ADVERTISE: u32 = 4;
pub const MII_LPA: u32 = 5;
pub const BMSR_LINK: u32 = 0x4;
pub const BMSR_100FULL: u32 = 0x4000;
pub const BMSR_100HALF: u32 = 0x2000;
/// The DMA engine owns the descriptor.
pub const DESC_OWN: u32 = 0x8000_0000;
pub const DESC_LAST: u32 = 0x4000_0000;
pub const DESC_FIRST: u32 = 0x2000_0000;
pub const TX_DESC_COUNT: usize = 32;
pub const RX_DESC_COUNT: usize = 32;
pub const BUFFER_SIZE: usize = 2048;
/// The address the controller starts with.
pub const DEFAULT_MAC: [u8; 6] = [0x02, 0x00, 0x00, 0x00, 0x00, 0x01];

/// Why a network device operation failed.
#[derive(Clone, Copy, PartialEq, Eq, Structural)]
pub enum NetworkError {
    NotReady,
    TxFailed,
    NoPacket,
    RxBufferTooSmall,
    PhyError,
}

/// A DMA descriptor: status (ownership and, on receive, the frame length),
/// size, and the ring position of the next descriptor.
#[derive(Clone, Copy, PartialEq, Eq, Structural)]
pub struct DmaDescriptor {
    pub status: u32,
    pub size: u32,
    pub next: u32,
}

/// The controller: registers, MAC address, the two descriptor rings with
/// one buffer per descriptor, the next descriptor of each ring, and whether
/// it is up.
pub struct D1Emac {
    pub base: usize,
    pub mac_addr: [u8; 6],
    pub tx_desc: Vec<DmaDescriptor>,
    pub rx_desc: Vec<DmaDescriptor>,
    pub tx_buffers: Vec<Vec<u8>>,
    pub rx_buffers: Vec<Vec<u8>>,
    pub tx_head: usize,
    pub rx_head: usize,
    pub initialized: bool,
}

/// The frame length a receive descriptor reports (bits 16..28).
pub open spec fn rx_frame_len(status: u32) -> int {
    ((status / 65536) % 8192) as int
}

/// The MAC address the address registers hold (low word: bytes 0..3,
/// high word: bytes 4..5, little-endian), unless both read zero.
pub open spec fn mac_from_registers(low: u32, high: u32, current: [u8; 6]) -> [u8; 6] {
    if low == 0 && high == 0 {
        current
    } else {
        [
            (low % 256) as u8,
            ((low / 256) % 256) as u8,
            ((low / 65536) % 256) as u8,
            ((low / 16777216) % 256) as u8,
            (high % 256) as u8,
            ((high / 256) % 256) as u8,
        ]
    }
}

/// A well-formed controller: both rings full size with a buffer of
/// BUFFER_SIZE bytes per descriptor, heads inside the rings.
pub open spec fn rings_ok(e: &D1Emac) -> bool {
    &&& e.tx_desc@.len() == TX_DESC_COUNT
    &&& e.rx_desc@.len() == RX_DESC_COUNT
    &&& e.tx_buffers@.len() == TX_DESC_COUNT
    &&& e.rx_buffers@.len() == RX_DESC_COUNT
    &&& forall|i: int| 0 <= i < TX_DESC_COUNT ==> #[trigger] e.tx_buffers@[i]@.len() == BUFFER_SIZE
    &&& forall|i: int| 0 <= i < RX_DESC_COUNT ==> #[trigger] e.rx_buffers@[i]@.len() == BUFFER_SIZE
    &&& e.tx_head < TX_DESC_COUNT
    &&& e.rx_head < RX_DESC_COUNT
}

/// The relay's address, if it assigned one (most significant byte first);
/// zero means none.
pub fn get_config_ip(ip_val: u32) -> (r: Option<[u8; 4]>)
    ensures
        ip_val == 0 ==> r is None,
        ip_val != 0 ==> r == Some(
            [
                ((ip_val / 16777216) % 256) as u8,
                ((ip_val / 65536) % 256) as u8,
                ((ip_val / 256) % 256) as u8,
                (ip_val % 256) as u8,
            ],
        ),
{
    if ip_val == 0 {
        return None;
    }
    Some(
        [
            ((ip_val / 16777216) % 256) as u8,
            ((ip_val / 65536) % 256) as u8,
            ((ip_val / 256) % 256) as u8,
            (ip_val % 256) as u8,
        ],
    )
}

/// The MDIO command word that reads register `reg` of PHY `phy`.
pub fn mdio_read_cmd(phy: u32, reg: u32) -> (c: u32)
    requires
        phy < 32,
        reg < 32,
    ensures
        c == phy * 4096 + reg * 16 + 3,
{
    assert((phy << 12u32) | (reg << 4u32) | 2 | 1 == phy * 4096 + reg * 16 + 3) by (bit_vector)
        requires
            phy < 32,
            reg < 32,
    ;
    (phy << 12u32) | (reg << 4u32) | 2 | 1
}

/// The MDIO command word that writes register `reg` of PHY `phy`.
pub fn mdio_write_cmd(phy: u32, reg: u32) -> (c: u32)
    requires
        phy < 32,
        reg < 32,
    ensures
        c == phy * 4096 + reg * 16 + 1,
{
    assert((phy << 12u32) | (reg << 4u32) | 1 == phy * 4096 + reg * 16 + 1) by (bit_vector)
        requires
            phy < 32,
            reg < 32,
    ;
    (phy << 12u32) | (reg << 4u32) | 1
}

/// The MDIO bus is idle when the command register's busy bit is clear.
pub fn mdio_idle(cmd: u32) -> (r: bool)
    ensures
        r == (cmd % 2 == 0),
{
    assert(cmd & 1 == cmd % 2) by (bit_vector);
    cmd & 1 == 0
}

/// A PHY register value from the data register (its low 16 bits).
pub fn mdio_value(data: u32) -> (v: u32)
    ensures
        v == data % 65536,
{
    assert(data & 0xFFFF == data % 65536) by (bit_vector);
    data & 0xFFFF
}

/// A PHY answers on the bus when its first identifier register reads
/// neither all ones nor all zeros.
pub fn probe(id1: u32) -> (r: bool)
    ensures
        r == (id1 != 0xFFFF && id1 != 0),
{
    id1 != 0xFFFF && id1 != 0
}

/// PHY bring-up: a missing PHY fails; otherwise it is reset and told to
/// advertise 10/100 at both duplexes and restart auto-negotiation (the
/// MDIO writes `phy_reset_writes` and `phy_an_writes`).
pub fn phy_init(id1: u32) -> (r: Result<(), NetworkError>)
    ensures
        r is Ok <==> (id1 != 0xFFFF && id1 != 0),
        r matches Err(e) ==> e == NetworkError::PhyError,
{
    if id1 == 0xFFFF || id1 == 0 {
        return Err(NetworkError::PhyError);
    }
    Ok(())
}

/// The PHY reset: BMCR bit 15.
pub const PHY_RESET: (u32, u32) = (0, 0x8000);
/// The PHY has left reset when BMCR bit 15 reads clear.
pub fn phy_reset_done(bmcr: u32) -> (r: bool)
    ensures
        r == (bmcr % 65536 < 0x8000),
{
    assert((bmcr & 0x8000 == 0) == (bmcr % 65536 < 0x8000)) by (bit_vector);
    bmcr & 0x8000 == 0
}

/// Auto-negotiation: advertise 10/100 full and half duplex, then enable and restart it.
pub fn phy_an_writes() -> (w: Vec<(u32, u32)>)
    ensures
        w@ == seq![(MII_ADVERTISE, 0x01E1u32), (MII_BMCR, 0x1200u32)],
{
    let mut w: Vec<(u32, u32)> = Vec::new();
    w.push((MII_ADVERTISE, 0x01E1));
    w.push((MII_BMCR, 0x1200));
    w
}

/// The speed setting from the PHY's status and link partner ability:
/// 100 Mb/s when either side offers it, else 10 Mb/s.
pub fn get_speed_ctl(bmsr: u32, lpa: u32) -> (c: u32)
    ensures
        c == if (lpa & 0x0100) != 0 || (bmsr & BMSR_100FULL) != 0 || (lpa & 0x0080) != 0 || (bmsr
            & BMSR_100HALF) != 0 {
            CTL0_SPEED_100
        } else {
            CTL0_SPEED_10
        },
{
    if (lpa & 0x0100) != 0 || (bmsr & BMSR_100FULL) != 0 {
        CTL0_SPEED_100
    } else if (lpa & 0x0080) != 0 || (bmsr & BMSR_100HALF) != 0 {
        CTL0_SPEED_100
    } else {
        CTL0_SPEED_10
    }
}

/// The address register words of `mac` (low word: bytes 0..3, high word:
/// bytes 4..5, little-endian).
pub fn set_mac_address(mac: [u8; 6]) -> (ops: Vec<RegOp>)
    ensures
        ops@ == seq![
            RegOp::Write {
                addr: (EMAC_BASE + EMAC_ADDR_LOW) as usize,
                value: (mac[0] as int + mac[1] as int * 256 + mac[2] as int * 65536 + mac[3] as int
                    * 16777216) as u32,
            },
            RegOp::Write {
                addr: (EMAC_BASE + EMAC_ADDR_HIGH) as usize,
                value: (mac[4] as int + mac[5] as int * 256) as u32,
            },
        ],
{
    let low: u32 = (mac[0] as u32) + (mac[1] as u32) * 256 + (mac[2] as u32) * 65536 + (mac[3] as u32)
        * 16777216;
    let high: u32 = (mac[4] as u32) + (mac[5] as u32) * 256;
    let mut ops: Vec<RegOp> = Vec::new();
    ops.push(RegOp::Write { addr: EMAC_BASE + EMAC_ADDR_LOW, value: low });
    ops.push(RegOp::Write { addr: EMAC_BASE + EMAC_ADDR_HIGH, value: high });
    assert(ops@ =~= seq![
        RegOp::Write {
            addr: (EMAC_BASE + EMAC_ADDR_LOW) as usize,
            value: (mac[0] as int + mac[1] as int * 256 + mac[2] as int * 65536 + mac[3] as int * 16777216) as u32,
        },
        RegOp::Write {
            addr: (EMAC_BASE + EMAC_ADDR_HIGH) as usize,
            value: (mac[4] as int + mac[5] as int * 256) as u32,
        },
    ]);
    ops
}

impl D1Emac {
    /// A controller with the default MAC address and no rings yet, not up.
    pub fn new() -> (e: Self)
        ensures
            e.base == EMAC_BASE,
            e.mac_addr == DEFAULT_MAC,
            e.tx_desc@.len() == 0,
            e.rx_desc@.len() == 0,
            e.tx_buffers@.len() == 0,
            e.rx_buffers@.len() == 0,
            e.tx_head == 0,
            e.rx_head == 0,
            !e.initialized,
    {
        D1Emac {
            base: EMAC_BASE,
            mac_addr: [0x02, 0x00, 0x00, 0x00, 0x00, 0x01],
            tx_desc: Vec::new(),
            rx_desc: Vec::new(),
            tx_buffers: Vec::new(),
            rx_buffers: Vec::new(),
            tx_head: 0,
            rx_head: 0,
            initialized: false,
        }
    }

    /// Build both rings: transmit descriptors start owned by the driver and
    /// empty, receive descriptors owned by the DMA engine with room for a
    /// full buffer; each links to the next, the last back to the first.
    pub fn alloc_dma_resources(&mut self)
        requires
            old(self).tx_desc@.len() == 0,
            old(self).rx_desc@.len() == 0,
            old(self).tx_buffers@.len() == 0,
            old(self).rx_buffers@.len() == 0,
            old(self).tx_head == 0,
            old(self).rx_head == 0,
        ensures
            rings_ok(final(self)),
            forall|i: int| 0 <= i < TX_DESC_COUNT ==> #[trigger] final(self).tx_desc@[i] == (DmaDescriptor {
                status: 0,
                size: 0,
                next: ((i + 1) % 32) as u32,
            }),
            forall|i: int| 0 <= i < RX_DESC_COUNT ==> #[trigger] final(self).rx_desc@[i] == (DmaDescriptor {
                status: DESC_OWN,
                size: 0x0800_0000,
                next: ((i + 1) % 32) as u32,
            }),
            final(self).mac_addr == old(self).mac_addr,
            final(self).initialized == old(self).initialized,
            final(self).base == old(self).base,
    {
        let mut i: usize = 0;
        while i < TX_DESC_COUNT
            invariant
                i <= TX_DESC_COUNT,
                self.tx_desc@.len() == i,
                self.tx_buffers@.len() == i,
                self.rx_desc@.len() == 0,
                self.rx_buffers@.len() == 0,
                self.tx_head == 0,
                self.rx_head == 0,
                self.mac_addr == old(self).mac_addr,
                self.initialized == old(self).initialized,
                self.base == old(self).base,
                forall|k: int| 0 <= k < i ==> #[trigger] self.tx_buffers@[k]@.len() == BUFFER_SIZE,
                forall|k: int| 0 <= k < i ==> #[trigger] self.tx_desc@[k] == (DmaDescriptor {
                    status: 0,
                    size: 0,
                    next: ((k + 1) % 32) as u32,
                }),
            decreases TX_DESC_COUNT - i,
        {
            let next: u32 = ((i + 1) % TX_DESC_COUNT) as u32;
            self.tx_desc.push(DmaDescriptor { status: 0, size: 0, next });
            self.tx_buffers.push(vec![0u8; BUFFER_SIZE]);
            i = i + 1;
        }
        i = 0;
        while i < RX_DESC_COUNT
            invariant
                i <= RX_DESC_COUNT,
                self.tx_desc@.len() == TX_DESC_COUNT,
                self.tx_buffers@.len() == TX_DESC_COUNT,
                self.rx_desc@.len() == i,
                self.rx_buffers@.len() == i,
                self.tx_head == 0,
                self.rx_head == 0,
                self.mac_addr == old(self).mac_addr,
                self.initialized == old(self).initialized,
                self.base == old(self).base,
                forall|k: int| 0 <= k < TX_DESC_COUNT ==> #[trigger] self.tx_buffers@[k]@.len() == BUFFER_SIZE,
                forall|k: int| 0 <= k < TX_DESC_COUNT ==> #[trigger] self.tx_desc@[k] == (DmaDescriptor {
                    status: 0,
                    size: 0,
                    next: ((k + 1) % 32) as u32,
                }),
                forall|k: int| 0 <= k < i ==> #[trigger] self.rx_buffers@[k]@.len() == BUFFER_SIZE,
                forall|k: int| 0 <= k < i ==> #[trigger] self.rx_desc@[k] == (DmaDescriptor {
                    status: DESC_OWN,
                    size: 0x0800_0000,
                    next: ((k + 1) % 32) as u32,
                }),
            decreases RX_DESC_COUNT - i,
        {
            let next: u32 = ((i + 1) % RX_DESC_COUNT) as u32;
            self.rx_desc.push(DmaDescriptor { status: DESC_OWN, size: 0x0800_0000, next });
            self.rx_buffers.push(vec![0u8; BUFFER_SIZE]);
            i = i + 1;
        }
    }

    /// Bring the controller up from what its registers and the PHY report
    /// (the address registers, the PHY's first identifier, its status and
    /// link partner ability) and where the rings live: a missing PHY fails;
    /// otherwise the address is taken, the rings built, and the register
    /// writes that program address, DMA, filter, speed and enables returned.
    pub fn init(&mut self, addr_low: u32, addr_high: u32, phy_id1: u32, bmsr: u32, lpa: u32, tx_ring: u32, rx_ring: u32)
        -> (r: Result<Vec<RegOp>, NetworkError>)
        requires
            old(self).tx_desc@.len() == 0,
            old(self).rx_desc@.len() == 0,
            old(self).tx_buffers@.len() == 0,
            old(self).rx_buffers@.len() == 0,
            old(self).tx_head == 0,
            old(self).rx_head == 0,
        ensures
            final(self).mac_addr == mac_from_registers(addr_low, addr_high, old(self).mac_addr),
            phy_id1 == 0xFFFF || phy_id1 == 0 ==> r == Err::<Vec<RegOp>, NetworkError>(NetworkError::PhyError)
                && final(self).initialized == old(self).initialized,
            !(phy_id1 == 0xFFFF || phy_id1 == 0) ==> {
                &&& rings_ok(final(self))
                &&& final(self).initialized
                &&& r matches Ok(ops) && ops@.len() == 10 && ops@[9] == (RegOp::Write {
                    addr: (EMAC_BASE + EMAC_RX_CTL0) as usize,
                    value: RX_CTL0_RX_EN,
                }) && ops@[7] == (RegOp::Write {
                    addr: (EMAC_BASE + EMAC_BASIC_CTL0) as usize,
                    value: get_speed_ctl_spec(bmsr, lpa) | CTL0_FULL_DUPLEX,
                })
            },
    {
        if addr_low != 0 || addr_high != 0 {
            self.mac_addr = [
                (addr_low % 256) as u8,
                ((addr_low / 256) % 256) as u8,
                ((addr_low / 65536) % 256) as u8,
                ((addr_low / 16777216) % 256) as u8,
                (addr_high % 256) as u8,
                ((addr_high / 256) % 256) as u8,
            ];
        }
        match phy_init(phy_id1) {
            Ok(()) => {},
            Err(e) => {
                return Err(e);
            },
        }
        self.alloc_dma_resources();
        let mut ops = set_mac_address(self.mac_addr);
        ops.push(RegOp::Write { addr: EMAC_BASE + EMAC_TX_CTL1, value: TX_CTL1_TX_DMA_EN | CTL1_BURST_LEN });
        ops.push(RegOp::Write { addr: EMAC_BASE + EMAC_TX_DMA_DESC, value: tx_ring });
        ops.push(RegOp::Write { addr: EMAC_BASE + EMAC_RX_CTL1, value: RX_CTL1_RX_DMA_EN | CTL1_BURST_LEN });
        ops.push(RegOp::Write { addr: EMAC_BASE + EMAC_RX_DMA_DESC, value: rx_ring });
        ops.push(RegOp::Write { addr: EMAC_BASE + EMAC_RX_FRM_FLT, value: 0 });
        let speed = get_speed_ctl(bmsr, lpa);
        ops.push(RegOp::Write { addr: EMAC_BASE + EMAC_BASIC_CTL0, value: speed | CTL0_FULL_DUPLEX });
        ops.push(RegOp::Write { addr: EMAC_BASE + EMAC_TX_CTL0, value: TX_CTL0_TX_EN });
        ops.push(RegOp::Write { addr: EMAC_BASE + EMAC_RX_CTL0, value: RX_CTL0_RX_EN });
        self.initialized = true;
        Ok(ops)
    }

    /// The MAC address in use.
    pub fn mac_address(&self) -> (m: [u8; 6])
        ensures
            m == self.mac_addr,
    {
        self.mac_addr
    }

    /// The link is up when the controller is and the PHY's status says so.
    pub fn link_up(&self, bmsr: u32) -> (r: bool)
        ensures
            r == (self.initialized && (bmsr & BMSR_LINK) != 0),
    {
        if !self.initialized {
            return false;
        }
        (bmsr & BMSR_LINK) != 0
    }

    /// The link speed in Mb/s from the link partner's abilities.
    pub fn link_speed(&self, lpa: u32) -> (s: u32)
        ensures
            s == if (lpa & 0x0180) != 0 { 100u32 } else { 10u32 },
    {
        if (lpa & 0x0180) != 0 {
            100
        } else {
            10
        }
    }

    /// Queue `packet` on the next transmit descriptor (at most one buffer's
    /// worth is sent): the controller must be up and the descriptor free; it
    /// then belongs to the DMA engine as a whole frame, and the ring moves on.
    /// The caller then sets the transmit-poll bit.
    pub fn transmit(&mut self, packet: &[u8]) -> (r: Result<(), NetworkError>)
        requires
            rings_ok(old(self)),
        ensures
            rings_ok(final(self)),
            !old(self).initialized ==> r == Err::<(), NetworkError>(NetworkError::NotReady) && final(self).tx_desc@
                == old(self).tx_desc@ && final(self).tx_buffers@ == old(self).tx_buffers@ && final(self).tx_head
                == old(self).tx_head,
            old(self).initialized && (old(self).tx_desc@[old(self).tx_head as int].status & DESC_OWN) != 0
                ==> r == Err::<(), NetworkError>(NetworkError::TxFailed) && final(self).tx_desc@ == old(
                self,
            ).tx_desc@ && final(self).tx_buffers@ == old(self).tx_buffers@ && final(self).tx_head == old(
                self,
            ).tx_head,
            old(self).initialized && (old(self).tx_desc@[old(self).tx_head as int].status & DESC_OWN) == 0
                ==> {
                let h = old(self).tx_head as int;
                let n = if packet@.len() < BUFFER_SIZE { packet@.len() as int } else { BUFFER_SIZE as int };
                &&& r is Ok
                &&& final(self).tx_buffers@[h]@ == packet@.subrange(0, n) + old(self).tx_buffers@[h]@.skip(n)
                &&& forall|i: int| 0 <= i < TX_DESC_COUNT && i != h ==> #[trigger] final(self).tx_buffers@[i]
                    == old(self).tx_buffers@[i]
                &&& final(self).tx_desc@ == old(self).tx_desc@.update(
                    h,
                    DmaDescriptor {
                        size: n as u32,
                        status: DESC_OWN | DESC_FIRST | DESC_LAST,
                        ..old(self).tx_desc@[h]
                    },
                )
                &&& final(self).tx_head == (h + 1) % 32
            },
            final(self).rx_desc@ == old(self).rx_desc@,
            final(self).rx_buffers@ == old(self).rx_buffers@,
            final(self).rx_head == old(self).rx_head,
            final(self).mac_addr == old(self).mac_addr,
            final(self).initialized == old(self).initialized,
    {
        if !self.initialized {
            return Err(NetworkError::NotReady);
        }
        let h = self.tx_head;
        let d = self.tx_desc[h];
        if d.status & DESC_OWN != 0 {
            return Err(NetworkError::TxFailed);
        }
        let n: usize = if packet.len() < BUFFER_SIZE { packet.len() } else { BUFFER_SIZE };
        let mut buf = self.tx_buffers[h].clone();
        let ghost b0 = buf@;
        assert(b0 == old(self).tx_buffers@[h as int]@);
        let mut k: usize = 0;
        while k < n
            invariant
                k <= n,
                n <= packet@.len(),
                n <= BUFFER_SIZE,
                buf@.len() == BUFFER_SIZE,
                b0.len() == BUFFER_SIZE,
                buf@ == packet@.subrange(0, k as int) + b0.skip(k as int),
            decreases n - k,
        {
            buf.set(k, packet[k]);
            k = k + 1;
            assert(buf@ =~= packet@.subrange(0, k as int) + b0.skip(k as int));
        }
        self.tx_buffers.set(h, buf);
        self.tx_desc.set(h, DmaDescriptor { size: n as u32, status: DESC_OWN | DESC_FIRST | DESC_LAST, ..d });
        self.tx_head = (h + 1) % TX_DESC_COUNT;
        Ok(())
    }

    /// Take the next received frame into `buf`: the controller must be up
    /// and the DMA engine done with the descriptor; a frame longer than
    /// `buf` is dropped. Either way the descriptor goes back to the DMA
    /// engine and the ring moves on. Returns the frame's length.
    pub fn receive(&mut self, buf: &mut [u8]) -> (r: Result<usize, NetworkError>)
        requires
            rings_ok(old(self)),
            rx_frame_len(old(self).rx_desc@[old(self).rx_head as int].status) <= BUFFER_SIZE || rx_frame_len(
                old(self).rx_desc@[old(self).rx_head as int].status,
            ) > old(buf)@.len(),
        ensures
            rings_ok(final(self)),
            final(self).tx_desc@ == old(self).tx_desc@,
            final(self).tx_buffers@ == old(self).tx_buffers@,
            final(self).tx_head == old(self).tx_head,
            final(self).rx_buffers@ == old(self).rx_buffers@,
            final(self).mac_addr == old(self).mac_addr,
            final(self).initialized == old(self).initialized,
            !old(self).initialized ==> r == Err::<usize, NetworkError>(NetworkError::NotReady) && final(self).rx_desc@
                == old(self).rx_desc@ && final(self).rx_head == old(self).rx_head && final(buf)@ == old(buf)@,
            old(self).initialized ==> {
                let h = old(self).rx_head as int;
                let st = old(self).rx_desc@[h].status;
                let n = rx_frame_len(st);
                if (st & DESC_OWN) != 0 {
                    &&& r == Err::<usize, NetworkError>(NetworkError::NoPacket)
                    &&& final(self).rx_desc@ == old(self).rx_desc@
                    &&& final(self).rx_head == old(self).rx_head
                    &&& final(buf)@ == old(buf)@
                } else {
                    &&& final(self).rx_desc@ == old(self).rx_desc@.update(
                        h,
                        DmaDescriptor { status: DESC_OWN, ..old(self).rx_desc@[h] },
                    )
                    &&& final(self).rx_head == (h + 1) % 32
                    &&& if n > old(buf)@.len() {
                        r == Err::<usize, NetworkError>(NetworkError::RxBufferTooSmall) && final(buf)@ == old(
                            buf,
                        )@
                    } else {
                        r == Ok::<usize, NetworkError>(n as usize) && final(buf)@ == old(self).rx_buffers@[h]@.subrange(
                            0,
                            n,
                        ) + old(buf)@.skip(n)
                    }
                }
            },
    {
        if !self.initialized {
            return Err(NetworkError::NotReady);
        }
        let h = self.rx_head;
        let d = self.rx_desc[h];
        if d.status & DESC_OWN != 0 {
            return Err(NetworkError::NoPacket);
        }
        let n: usize = ((d.status / 65536) % 8192) as usize;
        if n > buf.len() {
            self.rx_desc.set(h, DmaDescriptor { status: DESC_OWN, ..d });
            self.rx_head = (h + 1) % RX_DESC_COUNT;
            return Err(NetworkError::RxBufferTooSmall);
        }
        let ghost b0 = buf@;
        assert(n <= BUFFER_SIZE);
        let mut k: usize = 0;
        while k < n
            invariant
                k <= n,
                n <= buf@.len(),
                n <= BUFFER_SIZE,
                h < RX_DESC_COUNT,
                self.rx_buffers@.len() == RX_DESC_COUNT,
                self.rx_buffers@[h as int]@.len() == BUFFER_SIZE,
                self.rx_buffers@ == old(self).rx_buffers@,
                buf@.len() == b0.len(),
                buf@ == self.rx_buffers@[h as int]@.subrange(0, k as int) + b0.skip(k as int),
            decreases n - k,
        {
            buf[k] = self.rx_buffers[h][k];
            k = k + 1;
            assert(buf@ =~= self.rx_buffers@[h as int]@.subrange(0, k as int) + b0.skip(k as int));
        }
        self.rx_desc.set(h, DmaDescriptor { status: DESC_OWN, ..d });
        self.rx_head = (h + 1) % RX_DESC_COUNT;
        Ok(n)
    }

    /// A frame waits: the controller is up and the DMA engine is done with
    /// the next receive descriptor.
    pub fn has_packet(&self) -> (r: bool)
        requires
            rings_ok(self),
        ensures
            r == (self.initialized && (self.rx_desc@[self.rx_head as int].status & DESC_OWN) == 0),
    {
        if !self.initialized {
            return false;
        }
        self.rx_desc[self.rx_head].status & DESC_OWN == 0
    }
}

pub open spec fn get_speed_ctl_spec(bmsr: u32, lpa: u32) -> u32 {
    if (lpa & 0x0100) != 0 || (bmsr & BMSR_100FULL) != 0 || (lpa & 0x0080) != 0 || (bmsr & BMSR_100HALF) != 0 {
        CTL0_SPEED_100
    } else {
        CTL0_SPEED_10
    }
}

/// A controller brought up (see `D1Emac::init`).
pub fn create_device(addr_low: u32, addr_high: u32, phy_id1: u32, bmsr: u32, lpa: u32, tx_ring: u32, rx_ring: u32)
    -> (r: Result<(D1Emac, Vec<RegOp>), NetworkError>)
    ensures
        phy_id1 == 0xFFFF || phy_id1 == 0 ==> r is Err,
        !(phy_id1 == 0xFFFF || phy_id1 == 0) ==> (r matches Ok((e, _)) && rings_ok(&e) && e.initialized
            && e.mac_addr == mac_from_registers(addr_low, addr_high, DEFAULT_MAC)),
{
    let mut emac = D1Emac::new();
    match emac.init(addr_low, addr_high, phy_id1, bmsr, lpa, tx_ring, rx_ring) {
        Ok(ops) => Ok((emac, ops)),
        Err(e) => Err(e),
    }
}

/// The controller as the TCP/IP stack drives it.
pub struct D1EmacDevice {
    pub emac: D1Emac,
}

/// A received frame, copied out of the receive ring, for the stack.
pub struct D1RxToken {
    pub buffer: Vec<u8>,
}

/// Permission to send one frame.
pub struct D1TxToken;

impl D1EmacDevice {
    /// Ethernet, 1500-byte MTU, one frame per burst.
    pub fn capabilities(&self) -> (c: DeviceCapabilities)
        ensures
            c.ethernet,
            c.max_transmission_unit == 1500,
            c.max_burst_size == Some(1usize),
    {
        DeviceCapabilities { ethernet: true, max_transmission_unit: 1500, max_burst_size: Some(1) }
    }

    /// A waiting frame, copied out of the ring (cut to its length), with
    /// permission to answer; `None` when no frame waits or it could not be
    /// taken.
    pub fn receive(&mut self) -> (r: Option<(D1RxToken, D1TxToken)>)
        requires
            rings_ok(&old(self).emac),
        ensures
            rings_ok(&final(self).emac),
            !(old(self).emac.initialized && (old(self).emac.rx_desc@[old(self).emac.rx_head as int].status
                & DESC_OWN) == 0) ==> r is None && final(self).emac.rx_head == old(self).emac.rx_head,
            old(self).emac.initialized && (old(self).emac.rx_desc@[old(self).emac.rx_head as int].status
                & DESC_OWN) == 0 ==> {
                let h = old(self).emac.rx_head as int;
                let n = rx_frame_len(old(self).emac.rx_desc@[h].status);
                &&& final(self).emac.rx_head == (h + 1) % 32
                &&& if n <= BUFFER_SIZE {
                    r matches Some((rx, _)) && rx.buffer@ == old(self).emac.rx_buffers@[h]@.subrange(0, n)
                } else {
                    r is None
                }
            },
            final(self).emac.tx_desc@ == old(self).emac.tx_desc@,
            final(self).emac.tx_head == old(self).emac.tx_head,
    {
        if !self.emac.has_packet() {
            return None;
        }
        let mut buf: Vec<u8> = vec![0u8; BUFFER_SIZE];
        match self.emac.receive(buf.as_mut_slice()) {
            Ok(len) => {
                buf.truncate(len);
                Some((D1RxToken { buffer: buf }, D1TxToken))
            },
            Err(_) => None,
        }
    }

    /// Sending is always allowed; a full ring drops the frame.
    pub fn transmit(&mut self) -> (t: Option<D1TxToken>)
        ensures
            t is Some,
    {
        Some(D1TxToken)
    }
}

impl D1RxToken {
    /// The received frame, for the stack to read.
    pub fn consume(self) -> (frame: Vec<u8>)
        ensures
            frame@ == self.buffer@,
    {
        self.buffer
    }
}

impl D1TxToken {
    /// Send the frame the stack built (failures are left to the stack's retransmission).
    pub fn consume(self, device: &mut D1EmacDevice, frame: &[u8])
        requires
            rings_ok(&old(device).emac),
        ensures
            rings_ok(&final(device).emac),
    {
        let _ = device.emac.transmit(frame);
    }
}

} // verus!
