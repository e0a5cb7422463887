use vstd::prelude::*;
use std::collections::VecDeque;

verus! {

broadcast use vstd::std_specs::vecdeque::group_vec_dequeue_axioms, vstd::std_specs::vec::group_vec_axioms;

/// Capacity of a port's transmit buffer.
pub const DEFAULT_TX_BUFFER_SIZE: usize = 1000;
/// Capacity of a port's receive buffer.
pub const DEFAULT_RX_BUFFER_SIZE: usize = 1000;
/// Bytes the transmitter takes per "holding register empty" interrupt.
pub const FIFO_DEPTH: usize = 16;
/// Number of serial ports.
pub const SERIAL_NUM: usize = 4;
/// Address of port 0's registers.
pub const SERIAL_BASE_ADDRESS: usize = 0x1000_2000;
/// Distance between two ports' registers.
pub const SERIAL_ADDRESS_STRIDE: usize = 0x1000;

/// The serial port of interrupt `irq`: 12 to 15 are ports 0 to 3, any
/// other interrupt maps to port 0.
pub fn irq_to_serial_id(irq: u16) -> (r: usize)
    ensures
        r == (if 12 <= irq <= 15 { (irq - 12) as usize } else { 0 }),
        r < SERIAL_NUM,
{
    match irq {
        12 => 0,
        13 => 1,
        14 => 2,
        15 => 3,
        _ => 0,
    }
}

/// The register address of the port of interrupt `irq`.
pub fn get_base_addr_from_irq(irq: u16) -> (r: usize)
    ensures
        r == SERIAL_BASE_ADDRESS + irq_serial_spec(irq) * SERIAL_ADDRESS_STRIDE,
{
    SERIAL_BASE_ADDRESS + irq_to_serial_id(irq) * SERIAL_ADDRESS_STRIDE
}

/// The port number `irq_to_serial_id` gives.
pub open spec fn irq_serial_spec(irq: u16) -> int {
    if 12 <= irq <= 15 { irq - 12 } else { 0 }
}

/// The kinds of interrupt a 8250 port raises.
#[derive(PartialEq, Eq, Structural, Debug, Clone, Copy)]
pub enum InterruptKind {
    ModemStatus,
    TransmitterHoldingRegisterEmpty,
    ReceivedDataAvailable,
    ReceiverLineStatus,
    Timeout,
    Reserved,
}

/// The port has no room or no data now; try again later.
#[derive(PartialEq, Eq, Structural, Debug, Clone, Copy)]
pub struct WouldBlock;

/// How many more received bytes an interrupt buffers when the receive
/// buffer holds `len` bytes.
pub open spec fn rx_room(len: nat) -> int {
    if len < DEFAULT_TX_BUFFER_SIZE { DEFAULT_TX_BUFFER_SIZE - len } else { 0 }
}

/// How many of `n` received bytes an interrupt buffers when the receive
/// buffer holds `len` bytes.
pub open spec fn rx_taken(len: nat, n: nat) -> int {
    let room = rx_room(len);
    if n <= room { n as int } else { room }
}

/// How many buffered bytes a "holding register empty" interrupt sends when
/// the transmit buffer holds `len` bytes.
pub open spec fn tx_sent(len: nat) -> int {
    if len < FIFO_DEPTH { len as int } else { FIFO_DEPTH as int }
}

/// What the port's hardware must do after an interrupt was handled.
#[derive(Debug)]
pub struct SerialAction {
    /// Bytes to put in the transmitter, in order.
    pub write: Vec<u8>,
    /// Switch the "holding register empty" interrupt off.
    pub disable_thre: bool,
    /// Received bytes dropped because the receive buffer was full.
    pub dropped: usize,
    /// The interrupt kind is not handled (to report).
    pub unsupported: bool,
}

/// What the port's hardware must do after a byte was offered for sending.
#[derive(PartialEq, Eq, Structural, Debug, Clone, Copy)]
pub enum WriteStep {
    /// Buffered; switch the "holding register empty" interrupt on when `enable_thre`.
    Queued { enable_thre: bool },
    /// The transmit buffer is full.
    WouldBlock,
}

/// A serial port's software side: bounded receive and transmit buffers and
/// counters of bytes moved and interrupts handled.
pub struct BufferedSerial {
    pub rx_buffer: VecDeque<u8>,
    pub tx_buffer: VecDeque<u8>,
    pub rx_count: usize,
    pub tx_count: usize,
    pub intr_count: usize,
}

impl BufferedSerial {
    /// The transmit buffer is within its capacity. (The receive buffer is
    /// bounded by interrupts only; a read that drains the port's FIFO may
    /// take it beyond.)
    pub open spec fn wf(&self) -> bool {
        self.tx_buffer@.len() <= DEFAULT_TX_BUFFER_SIZE
    }

    /// Empty buffers, zero counters.
    pub fn new() -> (r: Self)
        ensures
            r.wf(),
            r.rx_buffer@ == Seq::<u8>::empty(),
            r.tx_buffer@ == Seq::<u8>::empty(),
            r.rx_count == 0,
            r.tx_count == 0,
            r.intr_count == 0,
    {
        BufferedSerial {
            rx_buffer: VecDeque::with_capacity(DEFAULT_RX_BUFFER_SIZE),
            tx_buffer: VecDeque::with_capacity(DEFAULT_TX_BUFFER_SIZE),
            rx_count: 0,
            tx_count: 0,
            intr_count: 0,
        }
    }

    /// Handles interrupt `int_type` (`None`: the port raised none). Received
    /// data (`received`, everything the port's FIFO held, in order) is
    /// buffered while there is room and dropped beyond; on "holding register
    /// empty" up to `FIFO_DEPTH` buffered bytes go to the transmitter, and the
    /// interrupt is switched off once the buffer runs dry.
    pub fn interrupt_handler(&mut self, int_type: Option<InterruptKind>, received: &Vec<u8>) -> (r: SerialAction)
        requires
            old(self).wf(),
            int_type is Some ==> old(self).intr_count < usize::MAX,
            int_type == Some(InterruptKind::ReceivedDataAvailable) || int_type == Some(InterruptKind::Timeout)
                ==> old(self).rx_count + received@.len() <= usize::MAX,
            int_type == Some(InterruptKind::TransmitterHoldingRegisterEmpty) ==> old(self).tx_count + FIFO_DEPTH <= usize::MAX,
        ensures
            final(self).wf(),
            match int_type {
                None => {
                    &&& final(self).rx_buffer@ == old(self).rx_buffer@
                    &&& final(self).tx_buffer@ == old(self).tx_buffer@
                    &&& final(self).intr_count == old(self).intr_count
                    &&& final(self).rx_count == old(self).rx_count
                    &&& final(self).tx_count == old(self).tx_count
                    &&& r.write@ == Seq::<u8>::empty() && !r.disable_thre && r.dropped == 0 && !r.unsupported
                },
                Some(kind) => {
                    &&& final(self).intr_count == old(self).intr_count + 1
                    &&& if kind == InterruptKind::ReceivedDataAvailable || kind == InterruptKind::Timeout {
                        let taken = rx_taken(old(self).rx_buffer@.len(), received@.len());
                        &&& final(self).rx_buffer@ == old(self).rx_buffer@ + received@.subrange(0, taken)
                        &&& final(self).rx_buffer@.len() == (if old(self).rx_buffer@.len() >= DEFAULT_TX_BUFFER_SIZE {
                            old(self).rx_buffer@.len() as int
                        } else if old(self).rx_buffer@.len() + received@.len() <= DEFAULT_TX_BUFFER_SIZE {
                            (old(self).rx_buffer@.len() + received@.len()) as int
                        } else {
                            DEFAULT_TX_BUFFER_SIZE as int
                        })
                        &&& final(self).rx_buffer@.subrange(0, old(self).rx_buffer@.len() as int) == old(self).rx_buffer@
                        &&& final(self).rx_count == old(self).rx_count + taken
                        &&& r.dropped == received@.len() - taken
                        &&& final(self).tx_buffer@ == old(self).tx_buffer@
                        &&& final(self).tx_count == old(self).tx_count
                        &&& r.write@ == Seq::<u8>::empty() && !r.disable_thre && !r.unsupported
                    } else if kind == InterruptKind::TransmitterHoldingRegisterEmpty {
                        let n = tx_sent(old(self).tx_buffer@.len());
                        &&& r.write@ == old(self).tx_buffer@.subrange(0, n)
                        &&& final(self).tx_buffer@ == old(self).tx_buffer@.subrange(n, old(self).tx_buffer@.len() as int)
                        &&& final(self).tx_count == old(self).tx_count + n
                        &&& r.disable_thre == (old(self).tx_buffer@.len() < FIFO_DEPTH)
                        &&& final(self).rx_buffer@ == old(self).rx_buffer@
                        &&& final(self).rx_count == old(self).rx_count
                        &&& r.dropped == 0 && !r.unsupported
                    } else {
                        &&& final(self).rx_buffer@ == old(self).rx_buffer@
                        &&& final(self).tx_buffer@ == old(self).tx_buffer@
                        &&& final(self).rx_count == old(self).rx_count
                        &&& final(self).tx_count == old(self).tx_count
                        &&& r.write@ == Seq::<u8>::empty() && !r.disable_thre && r.dropped == 0
                        &&& r.unsupported == (kind != InterruptKind::ModemStatus)
                    }
                },
            },
    {
        let mut action = SerialAction { write: Vec::new(), disable_thre: false, dropped: 0, unsupported: false };
        match int_type {
            None => {},
            Some(kind) => {
                self.intr_count += 1;
                match kind {
                    InterruptKind::ReceivedDataAvailable | InterruptKind::Timeout => {
                        let ghost rx0 = self.rx_buffer@;
                        let ghost c0 = self.rx_count;
                        let mut i: usize = 0;
                        while i < received.len()
                            invariant
                                i <= received@.len(),
                                c0 + received@.len() <= usize::MAX,
                                ({
                                    let room = rx_room(rx0.len());
                                    let taken = if i <= room { i as int } else { room };
                                    &&& self.rx_buffer@ == rx0 + received@.subrange(0, taken)
                                    &&& self.rx_count == c0 + taken
                                    &&& action.dropped == i - taken
                                }),
                                self.tx_buffer@ == old(self).tx_buffer@,
                                self.tx_count == old(self).tx_count,
                                self.intr_count == old(self).intr_count + 1,
                                action.write@ == Seq::<u8>::empty(),
                                !action.disable_thre,
                                !action.unsupported,
                            decreases received@.len() - i,
                        {
                            let ch = received[i];
                            if self.rx_buffer.len() < DEFAULT_TX_BUFFER_SIZE {
                                proof {
                                    assert(received@.subrange(0, i as int + 1) =~= received@.subrange(0, i as int).push(ch));
                                }
                                self.rx_buffer.push_back(ch);
                                self.rx_count += 1;
                            } else {
                                action.dropped = action.dropped + 1;
                            }
                            i = i + 1;
                        }
                    },
                    InterruptKind::TransmitterHoldingRegisterEmpty => {
                        let ghost tx0 = self.tx_buffer@;
                        let mut k: usize = 0;
                        while k < FIFO_DEPTH
                            invariant_except_break
                                k <= FIFO_DEPTH,
                                k <= tx0.len(),
                                self.tx_buffer@ == tx0.subrange(k as int, tx0.len() as int),
                                action.write@ == tx0.subrange(0, k as int),
                                self.tx_count == old(self).tx_count + k,
                                !action.disable_thre,
                            invariant
                                self.tx_count <= old(self).tx_count + FIFO_DEPTH,
                                tx0 == old(self).tx_buffer@,
                                old(self).tx_count + FIFO_DEPTH <= usize::MAX,
                                self.rx_buffer@ == old(self).rx_buffer@,
                                self.rx_count == old(self).rx_count,
                                self.intr_count == old(self).intr_count + 1,
                                action.dropped == 0,
                                !action.unsupported,
                                self.tx_buffer@.len() <= tx0.len(),
                            ensures
                                ({
                                    let n = if tx0.len() < FIFO_DEPTH { tx0.len() as int } else { FIFO_DEPTH as int };
                                    &&& action.write@ == tx0.subrange(0, n)
                                    &&& self.tx_buffer@ == tx0.subrange(n, tx0.len() as int)
                                    &&& self.tx_count == old(self).tx_count + n
                                    &&& action.disable_thre == (tx0.len() < FIFO_DEPTH)
                                }),
                            decreases FIFO_DEPTH - k,
                        {
                            match self.tx_buffer.pop_front() {
                                Some(ch) => {
                                    proof {
                                        assert(tx0.subrange(0, k as int + 1) =~= tx0.subrange(0, k as int).push(ch));
                                        assert(self.tx_buffer@ =~= tx0.subrange(k as int + 1, tx0.len() as int));
                                    }
                                    action.write.push(ch);
                                    self.tx_count += 1;
                                },
                                None => {
                                    action.disable_thre = true;
                                    break;
                                },
                            }
                            k = k + 1;
                        }
                    },
                    InterruptKind::ModemStatus => {},
                    _ => {
                        action.unsupported = true;
                    },
                }
            },
        }
        action
    }

    /// Offers `word` for sending: buffered when there is room (and the
    /// "holding register empty" interrupt is then switched on unless
    /// `thre_enabled` says it already is), refused otherwise.
    pub fn try_write(&mut self, word: u8, thre_enabled: bool) -> (r: WriteStep)
        requires
            old(self).wf(),
        ensures
            final(self).wf(),
            final(self).rx_buffer@ == old(self).rx_buffer@,
            final(self).rx_count == old(self).rx_count,
            final(self).tx_count == old(self).tx_count,
            final(self).intr_count == old(self).intr_count,
            old(self).tx_buffer@.len() < DEFAULT_TX_BUFFER_SIZE ==> {
                &&& final(self).tx_buffer@ == old(self).tx_buffer@.push(word)
                &&& r == WriteStep::Queued { enable_thre: !thre_enabled }
            },
            old(self).tx_buffer@.len() >= DEFAULT_TX_BUFFER_SIZE ==> {
                &&& final(self).tx_buffer@ == old(self).tx_buffer@
                &&& r == WriteStep::WouldBlock
            },
    {
        if self.tx_buffer.len() < DEFAULT_TX_BUFFER_SIZE {
            self.tx_buffer.push_back(word);
            WriteStep::Queued { enable_thre: !thre_enabled }
        } else {
            WriteStep::WouldBlock
        }
    }

    /// Takes the oldest received byte. When the receive buffer is empty,
    /// the bytes waiting in the port's FIFO (`fifo`, everything it held, in
    /// order; the caller drains it only in that case) are buffered first;
    /// with none either, nothing is available.
    pub fn try_read(&mut self, fifo: &Vec<u8>) -> (r: Result<u8, WouldBlock>)
        requires
            old(self).wf(),
            old(self).rx_buffer@.len() == 0 ==> old(self).rx_count + fifo@.len() <= usize::MAX,
        ensures
            final(self).wf(),
            final(self).tx_buffer@ == old(self).tx_buffer@,
            final(self).tx_count == old(self).tx_count,
            final(self).intr_count == old(self).intr_count,
            old(self).rx_buffer@.len() > 0 ==> {
                &&& r == Ok::<u8, WouldBlock>(old(self).rx_buffer@[0])
                &&& final(self).rx_buffer@ == old(self).rx_buffer@.drop_first()
                &&& final(self).rx_count == old(self).rx_count
            },
            old(self).rx_buffer@.len() == 0 ==> {
                &&& final(self).rx_count == old(self).rx_count + fifo@.len()
                &&& fifo@.len() > 0 ==> r == Ok::<u8, WouldBlock>(fifo@[0]) && final(self).rx_buffer@ == fifo@.drop_first()
                &&& fifo@.len() == 0 ==> r == Err::<u8, WouldBlock>(WouldBlock) && final(self).rx_buffer@ == Seq::<u8>::empty()
            },
    {
        if self.rx_buffer.len() == 0 {
            let mut i: usize = 0;
            while i < fifo.len()
                invariant
                    i <= fifo@.len(),
                    old(self).rx_buffer@.len() == 0,
                    old(self).rx_count + fifo@.len() <= usize::MAX,
                    self.rx_buffer@ == fifo@.subrange(0, i as int),
                    self.rx_count == old(self).rx_count + i,
                    self.tx_buffer@ == old(self).tx_buffer@,
                    self.tx_count == old(self).tx_count,
                    self.intr_count == old(self).intr_count,
                decreases fifo@.len() - i,
            {
                let ch = fifo[i];
                proof {
                    assert(fifo@.subrange(0, i as int + 1) =~= fifo@.subrange(0, i as int).push(ch));
                }
                self.rx_buffer.push_back(ch);
                self.rx_count += 1;
                i = i + 1;
            }
            proof {
                assert(fifo@.subrange(0, fifo@.len() as int) =~= fifo@);
            }
        }
        let ghost before = self.rx_buffer@;
        match self.rx_buffer.pop_front() {
            Some(ch) => {
                proof {
                    assert(before.drop_first() =~= before.subrange(1, before.len() as int));
                }
                Ok(ch)
            },
            None => Err(WouldBlock),
        }
    }
}

/// While the receive buffer has room, an interrupt loses nothing and keeps
/// order: the buffer becomes the old contents followed by every received
/// byte, so `try_read` gives the bytes back in the order they arrived.
pub proof fn reception_keeps_order_while_room(before: BufferedSerial, after: BufferedSerial, received: Seq<u8>)
    requires
        before.rx_buffer@.len() + received.len() <= DEFAULT_TX_BUFFER_SIZE,
        after.rx_buffer@ == before.rx_buffer@ + received.subrange(0, rx_taken(before.rx_buffer@.len(), received.len())),
    ensures
        rx_taken(before.rx_buffer@.len(), received.len()) == received.len(),
        after.rx_buffer@ == before.rx_buffer@ + received,
{
    assert(received.subrange(0, received.len() as int) =~= received);
}

/// Transmission keeps order: the bytes a "holding register empty"
/// interrupt sends are the oldest buffered ones, and the rest stay queued
/// behind them in order.
pub proof fn transmission_keeps_order(before: BufferedSerial, after: BufferedSerial, sent: Seq<u8>)
    requires
        sent == before.tx_buffer@.subrange(0, tx_sent(before.tx_buffer@.len())),
        after.tx_buffer@ == before.tx_buffer@.subrange(tx_sent(before.tx_buffer@.len()), before.tx_buffer@.len() as int),
    ensures
        sent + after.tx_buffer@ == before.tx_buffer@,
{
    assert(sent + after.tx_buffer@ =~= before.tx_buffer@);
}

/// A receive interrupt never takes the receive buffer past its capacity:
/// with `len` bytes buffered and `n` received, the buffer ends with
/// `min(len + n, max(len, capacity))` bytes, that is it takes all `n` while
/// they fit, fills up to the capacity otherwise, and takes none when full.
pub proof fn reception_bounded_by_capacity(len: nat, n: nat)
    ensures
        0 <= rx_taken(len, n) <= n,
        len + rx_taken(len, n) == (if len >= DEFAULT_TX_BUFFER_SIZE {
            len as int
        } else if len + n <= DEFAULT_TX_BUFFER_SIZE {
            (len + n) as int
        } else {
            DEFAULT_TX_BUFFER_SIZE as int
        }),
{
}

} // verus!
