//! Interrupt-driven driver for one serial peripheral: a receive and a
//! transmit ring buffer plus the decisions its two interrupt conditions
//! and its foreground entry points take.
//!
//! The driver owns no hardware. Each decision that ends in a register
//! access or an interrupt-controller change is returned to the caller as a
//! value (a byte to write, a line to arm or disarm, a chip-select to
//! assert), so the surrounding interrupt handlers stay one call deep.

use vstd::prelude::*;

use crate::circular_buffer::CircularBuff;
use crate::circular_buffer::queue_push;
use crate::circular_buffer::queue_push_all;

verus! {

/// The physical transport behind the driver. The two share one contract;
/// the synchronous bus additionally needs its chip-select line asserted
/// before bytes are queued, since it has no independent framing signal.
#[derive(Clone, Copy, PartialEq, Eq, Structural, Debug)]
pub enum LinkKind {
    Uart,
    Spi,
}

/// What a transmit interrupt asks the hardware to do: write one byte to
/// the peripheral's data register, or — on an empty transmit queue — stop
/// the peripheral from requesting bytes. Disarming the interrupt is the
/// sole stopping condition of a transmission.
#[derive(Clone, Copy, PartialEq, Eq, Structural, Debug)]
pub enum TxStep {
    Transmit(u8),
    DisableTxInterrupt,
}

/// One serial link: a receive buffer filled by the receive interrupt and
/// drained by the foreground loop, a transmit buffer filled by the
/// foreground loop and drained by the transmit interrupt, and the armed
/// state of the transmit-interrupt condition.
pub struct SerialLinkDriver<const N: usize> {
    kind: LinkKind,
    rx: CircularBuff<u8, N>,
    tx: CircularBuff<u8, N>,
    tx_irq_armed: bool,
}

impl<const N: usize> SerialLinkDriver<N> {
    /// Unread received bytes, oldest first.
    pub closed spec fn rx_queue(&self) -> Seq<u8> {
        self.rx@
    }

    /// Bytes waiting to be transmitted, next-to-send first.
    pub closed spec fn tx_queue(&self) -> Seq<u8> {
        self.tx@
    }

    /// Whether the transmit-interrupt condition is currently armed.
    pub closed spec fn tx_irq_armed(&self) -> bool {
        self.tx_irq_armed
    }

    /// The transport this driver serves.
    pub closed spec fn kind_spec(&self) -> LinkKind {
        self.kind
    }

    /// Structural invariant: both buffers are well formed.
    pub closed spec fn wf(&self) -> bool {
        &&& self.rx.wf()
        &&& self.tx.wf()
    }

    /// A driver with both queues empty and the transmit interrupt
    /// disarmed.
    pub fn new(kind: LinkKind) -> (r: Self)
        requires
            N > 0,
        ensures
            r.wf(),
            r.kind_spec() == kind,
            r.rx_queue() == Seq::<u8>::empty(),
            r.tx_queue() == Seq::<u8>::empty(),
            !r.tx_irq_armed(),
    {
        SerialLinkDriver {
            kind,
            rx: CircularBuff::new(0),
            tx: CircularBuff::new(0),
            tx_irq_armed: false,
        }
    }

    /// Exec view of the transport kind.
    pub fn kind(&self) -> (k: LinkKind)
        ensures
            k == self.kind_spec(),
    {
        self.kind
    }

    /// Exec view of the armed state of the transmit-interrupt condition.
    pub fn is_tx_irq_armed(&self) -> (b: bool)
        ensures
            b == self.tx_irq_armed(),
    {
        self.tx_irq_armed
    }

    /// Foreground entry point: queues `bytes` for transmission, in order,
    /// and arms the transmit-interrupt condition so the hardware requests
    /// them one at a time. Returns whether the caller must first assert
    /// the chip-select line, which is owed exactly on the synchronous bus.
    pub fn enqueue_for_transmit(&mut self, bytes: &[u8]) -> (assert_chip_select: bool)
        requires
            old(self).wf(),
        ensures
            final(self).wf(),
            final(self).tx_queue() == queue_push_all(old(self).tx_queue(), bytes@, N as nat),
            final(self).tx_irq_armed(),
            final(self).rx_queue() == old(self).rx_queue(),
            final(self).kind_spec() == old(self).kind_spec(),
            assert_chip_select == (old(self).kind_spec() == LinkKind::Spi),
    {
        let assert_chip_select = match self.kind {
            LinkKind::Spi => true,
            LinkKind::Uart => false,
        };
        self.tx.put_all_data(bytes);
        self.tx_irq_armed = true;
        assert_chip_select
    }

    /// Receive-interrupt decision: stores the byte just read from the
    /// peripheral's data register. On a full receive buffer the oldest
    /// unread byte is silently overwritten; there is no backpressure.
    pub fn on_receive_interrupt(&mut self, data: u8)
        requires
            old(self).wf(),
        ensures
            final(self).wf(),
            final(self).rx_queue() == queue_push(old(self).rx_queue(), data, N as nat),
            final(self).tx_queue() == old(self).tx_queue(),
            final(self).tx_irq_armed() == old(self).tx_irq_armed(),
            final(self).kind_spec() == old(self).kind_spec(),
    {
        self.rx.put_data(data);
    }

    /// Transmit-interrupt decision: hands out the next byte to write to
    /// the data register, oldest first; when the transmit queue is empty
    /// it disarms the transmit-interrupt condition instead, so the
    /// peripheral stops requesting bytes. On the asynchronous port the
    /// caller acknowledges the transmission-complete condition before
    /// writing the byte; on both transports the hardware clears the
    /// receive condition on its own when the data register is read.
    pub fn on_transmit_interrupt(&mut self) -> (step: TxStep)
        requires
            old(self).wf(),
        ensures
            final(self).wf(),
            old(self).tx_queue().len() > 0 ==> step == TxStep::Transmit(old(self).tx_queue()[0])
                && final(self).tx_queue() == old(self).tx_queue().drop_first()
                && final(self).tx_irq_armed() == old(self).tx_irq_armed(),
            old(self).tx_queue().len() == 0 ==> step == TxStep::DisableTxInterrupt
                && final(self).tx_queue() == old(self).tx_queue()
                && !final(self).tx_irq_armed(),
            final(self).rx_queue() == old(self).rx_queue(),
            final(self).kind_spec() == old(self).kind_spec(),
    {
        match self.tx.get_data() {
            Some(data) => TxStep::Transmit(data),
            None => {
                self.tx_irq_armed = false;
                TxStep::DisableTxInterrupt
            },
        }
    }

    /// Foreground entry point: empties the receive buffer into `sink`,
    /// appending the bytes in the order they arrived. Never called from an
    /// interrupt; finite and restartable.
    pub fn drain_receive_into(&mut self, sink: &mut Vec<u8>)
        requires
            old(self).wf(),
        ensures
            final(self).wf(),
            final(sink)@ == old(sink)@ + old(self).rx_queue(),
            final(self).rx_queue() == Seq::<u8>::empty(),
            final(self).tx_queue() == old(self).tx_queue(),
            final(self).tx_irq_armed() == old(self).tx_irq_armed(),
            final(self).kind_spec() == old(self).kind_spec(),
    {
        self.rx.drain_all(sink);
    }
}

} // verus!
