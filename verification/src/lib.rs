//! Core of an interrupt-driven buffered serial I/O subsystem: a
//! fixed-capacity ring buffer shared between an interrupt handler and
//! foreground code, serial link drivers built on a pair of such buffers,
//! and a tick-driven debounce state machine for a mechanical button.
//!
//! Everything that touches hardware registers (peripheral setup, the
//! interrupt vectors themselves, pin reads and data-register transfers)
//! lives outside this library; the modules here hold the decisions and the
//! data movement, each with a contract.

pub mod circular_buffer;
pub mod debounce;
pub mod serial_link;
