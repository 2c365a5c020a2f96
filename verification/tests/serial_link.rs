use ring_io::serial_link::{LinkKind, SerialLinkDriver, TxStep};

#[test]
fn transmit_drain_terminates() {
    // After enqueueing three bytes, three transmit interrupts return them
    // in order, and the fourth observes an empty queue and disarms the
    // transmit-interrupt condition — exactly once.
    let mut link: SerialLinkDriver<1024> = SerialLinkDriver::new(LinkKind::Uart);
    link.enqueue_for_transmit(&[b'a', b'b', b'c']);
    assert!(link.is_tx_irq_armed());

    assert_eq!(link.on_transmit_interrupt(), TxStep::Transmit(b'a'));
    assert_eq!(link.on_transmit_interrupt(), TxStep::Transmit(b'b'));
    assert_eq!(link.on_transmit_interrupt(), TxStep::Transmit(b'c'));
    assert!(link.is_tx_irq_armed());

    assert_eq!(link.on_transmit_interrupt(), TxStep::DisableTxInterrupt);
    assert!(!link.is_tx_irq_armed());
}

#[test]
fn enqueue_arms_transmit_interrupt() {
    let mut link: SerialLinkDriver<8> = SerialLinkDriver::new(LinkKind::Uart);
    assert!(!link.is_tx_irq_armed());
    link.enqueue_for_transmit(&[1]);
    assert!(link.is_tx_irq_armed());
    // Draining disarms; a later enqueue arms again.
    assert_eq!(link.on_transmit_interrupt(), TxStep::Transmit(1));
    assert_eq!(link.on_transmit_interrupt(), TxStep::DisableTxInterrupt);
    assert!(!link.is_tx_irq_armed());
    link.enqueue_for_transmit(&[2]);
    assert!(link.is_tx_irq_armed());
}

#[test]
fn spi_enqueue_asserts_chip_select() {
    // The synchronous bus has no framing signal of its own, so queuing
    // bytes asks the caller to assert chip-select first; the asynchronous
    // port does not.
    let mut spi: SerialLinkDriver<8> = SerialLinkDriver::new(LinkKind::Spi);
    let mut uart: SerialLinkDriver<8> = SerialLinkDriver::new(LinkKind::Uart);
    assert!(spi.enqueue_for_transmit(&[1, 2]));
    assert!(!uart.enqueue_for_transmit(&[1, 2]));
    assert_eq!(spi.kind(), LinkKind::Spi);
    assert_eq!(uart.kind(), LinkKind::Uart);
}

#[test]
fn receive_then_drain_in_order() {
    let mut link: SerialLinkDriver<8> = SerialLinkDriver::new(LinkKind::Uart);
    link.on_receive_interrupt(10);
    link.on_receive_interrupt(20);
    link.on_receive_interrupt(30);
    let mut sink = Vec::new();
    link.drain_receive_into(&mut sink);
    assert_eq!(sink, vec![10, 20, 30]);
    // Drained: a second drain adds nothing, and the driver keeps working.
    link.drain_receive_into(&mut sink);
    assert_eq!(sink, vec![10, 20, 30]);
    link.on_receive_interrupt(40);
    link.drain_receive_into(&mut sink);
    assert_eq!(sink, vec![10, 20, 30, 40]);
}

#[test]
fn receive_overflow_drops_oldest() {
    // A full receive buffer silently overwrites the oldest unread byte;
    // the foreground drain then sees a gap with no marker.
    let mut link: SerialLinkDriver<4> = SerialLinkDriver::new(LinkKind::Spi);
    for byte in 1..=6u8 {
        link.on_receive_interrupt(byte);
    }
    let mut sink = Vec::new();
    link.drain_receive_into(&mut sink);
    assert_eq!(sink, vec![3, 4, 5, 6]);
}

#[test]
fn receive_does_not_touch_transmit() {
    let mut link: SerialLinkDriver<8> = SerialLinkDriver::new(LinkKind::Uart);
    link.enqueue_for_transmit(&[7]);
    link.on_receive_interrupt(99);
    assert!(link.is_tx_irq_armed());
    assert_eq!(link.on_transmit_interrupt(), TxStep::Transmit(7));
    let mut sink = Vec::new();
    link.drain_receive_into(&mut sink);
    assert_eq!(sink, vec![99]);
}

#[test]
fn diagnostic_echo_between_links() {
    // The receive handler of one transport may mirror each byte to the
    // other transport's transmit queue: the wiring the interrupt handlers
    // use for diagnostic echoing.
    let mut spi: SerialLinkDriver<16> = SerialLinkDriver::new(LinkKind::Spi);
    let mut uart: SerialLinkDriver<16> = SerialLinkDriver::new(LinkKind::Uart);
    for byte in [b'h', b'i'] {
        spi.on_receive_interrupt(byte);
        uart.enqueue_for_transmit(&[byte]);
    }
    let mut echoed = Vec::new();
    while let TxStep::Transmit(byte) = uart.on_transmit_interrupt() {
        echoed.push(byte);
    }
    assert_eq!(echoed, vec![b'h', b'i']);
    let mut received = Vec::new();
    spi.drain_receive_into(&mut received);
    assert_eq!(received, echoed);
}
