//! The PL011 UART: a receive FIFO, a transmit that never waits, and the
//! receive interrupt.
use crate::irq::IrqLine;
use std::collections::VecDeque;
use vstd::prelude::*;

verus! {

pub const UART_DR: u64 = 0x00;

pub const UART_FR: u64 = 0x18;

pub const UART_IMSC: u64 = 0x38;

pub const UART_RIS: u64 = 0x3c;

pub const UART_MIS: u64 = 0x40;

/// Flag: the receive FIFO is empty.
pub const UART_FR_RXFE: u32 = 0x10;

/// Flag: the transmit FIFO is empty.
pub const UART_FR_TXFE: u32 = 0x80;

/// The receive interrupt bit.
pub const UART_INT_RX: u32 = 0x10;

/// The UART. Bytes written to the data register go to the host's serial output.
pub struct Uart {
    imsc: u32,
    q: VecDeque<u8>,
    irq: IrqLine,
}

/// What an access asks of the host: a byte for the serial output, and a new
/// level for the interrupt line where it changes.
#[derive(Debug, Clone, Copy, PartialEq, Eq)]
pub struct UartEffect {
    pub serial: Option<u8>,
    pub irq: Option<bool>,
}

/// The raw interrupt status: receive, while bytes wait.
pub open spec fn ris_spec(q: Seq<u8>) -> u32 {
    if q.len() > 0 {
        UART_INT_RX
    } else {
        0
    }
}

/// The masked interrupt status.
pub open spec fn mis_spec(q: Seq<u8>, imsc: u32) -> u32 {
    ris_spec(q) & imsc
}

/// The level change of a line at `old_level` that must now be at `level`.
pub open spec fn change(old_level: bool, level: bool) -> Option<bool> {
    if level != old_level {
        Some(level)
    } else {
        None
    }
}

/// What a read of `offset` gives.
pub open spec fn read_value(q: Seq<u8>, imsc: u32, offset: u64) -> u32 {
    if offset == UART_FR {
        (if q.len() == 0 {
            UART_FR_RXFE
        } else {
            0
        }) | UART_FR_TXFE
    } else if offset == UART_DR {
        if q.len() > 0 {
            q[0] as u32
        } else {
            0
        }
    } else if offset == UART_RIS {
        ris_spec(q)
    } else if offset == UART_MIS {
        mis_spec(q, imsc)
    } else {
        0
    }
}

/// What `n` guest reads of the data register give, starting from the queue `q`.
pub open spec fn dr_reads(q: Seq<u8>, imsc: u32, n: nat) -> Seq<u32>
    decreases n,
{
    if n == 0 {
        Seq::empty()
    } else {
        seq![read_value(q, imsc, UART_DR)] + dr_reads(
            if q.len() > 0 {
                q.drop_first()
            } else {
                q
            },
            imsc,
            (n - 1) as nat,
        )
    }
}

/// The guest reads the host's bytes in the order they were queued: as many
/// reads of the data register as bytes wait give those bytes, first queued
/// first.
pub proof fn lemma_reads_in_order(q: Seq<u8>, imsc: u32)
    ensures
        dr_reads(q, imsc, q.len()) == q.map_values(|b: u8| b as u32),
    decreases q.len(),
{
    if q.len() > 0 {
        lemma_reads_in_order(q.drop_first(), imsc);
        assert(q.map_values(|b: u8| b as u32) =~= seq![q[0] as u32] + q.drop_first().map_values(
            |b: u8| b as u32,
        ));
    } else {
        assert(q.map_values(|b: u8| b as u32) =~= Seq::<u32>::empty());
    }
}

impl Uart {
    /// The bytes that wait for the guest.
    pub closed spec fn pending(&self) -> Seq<u8> {
        self.q@
    }

    /// The interrupt mask.
    pub closed spec fn mask(&self) -> u32 {
        self.imsc
    }

    /// The level the interrupt line is at.
    pub closed spec fn line(&self) -> bool {
        self.irq.level()
    }

    pub fn new(irq: IrqLine) -> (r: Uart)
        ensures
            r.pending().len() == 0,
            r.mask() == 0,
            r.line() == irq.level(),
    {
        Uart { imsc: 0, q: VecDeque::new(), irq }
    }

    fn mis(&self) -> (r: u32)
        ensures
            r == mis_spec(self.q@, self.imsc),
    {
        let ris = if self.q.len() > 0 {
            UART_INT_RX
        } else {
            0
        };
        ris & self.imsc
    }

    fn sync_irq(&mut self) -> (r: Option<bool>)
        ensures
            final(self).line() == (mis_spec(old(self).q@, old(self).imsc) != 0),
            r == change(old(self).line(), mis_spec(old(self).q@, old(self).imsc) != 0),
            final(self).q@ == old(self).q@,
            final(self).imsc == old(self).imsc,
    {
        let level = self.mis() != 0;
        if self.irq.set(level) {
            Some(level)
        } else {
            None
        }
    }

    /// Queues a byte from the host for the guest.
    pub fn enqueue(&mut self, value: u8) -> (r: Option<bool>)
        ensures
            final(self).pending() == old(self).pending().push(value),
            final(self).mask() == old(self).mask(),
            final(self).line() == (mis_spec(final(self).pending(), final(self).mask()) != 0),
            r == change(old(self).line(), final(self).line()),
    {
        self.q.push_back(value);
        self.sync_irq()
    }

    /// A guest read of register `offset`: a read of the data register takes
    /// the first byte that waits.
    pub fn read(&mut self, offset: u64) -> (r: (u32, Option<bool>))
        ensures
            r.0 == read_value(old(self).pending(), old(self).mask(), offset),
            final(self).pending() == (if offset == UART_DR && old(self).pending().len() > 0 {
                old(self).pending().drop_first()
            } else {
                old(self).pending()
            }),
            final(self).mask() == old(self).mask(),
            final(self).line() == (mis_spec(final(self).pending(), final(self).mask()) != 0),
            r.1 == change(old(self).line(), final(self).line()),
    {
        let value: u32 = if offset == UART_FR {
            (if self.q.len() == 0 {
                UART_FR_RXFE
            } else {
                0
            }) | UART_FR_TXFE
        } else if offset == UART_DR {
            match self.q.pop_front() {
                Some(b) => b as u32,
                None => 0,
            }
        } else if offset == UART_RIS {
            if self.q.len() > 0 {
                UART_INT_RX
            } else {
                0
            }
        } else if offset == UART_MIS {
            self.mis()
        } else {
            0
        };
        let irq = self.sync_irq();
        (value, irq)
    }

    /// A guest write of `value` to register `offset`.
    pub fn write(&mut self, offset: u64, value: u32) -> (r: UartEffect)
        ensures
            r.serial == (if offset == UART_DR {
                Some(value as u8)
            } else {
                None::<u8>
            }),
            final(self).mask() == (if offset == UART_IMSC {
                value
            } else {
                old(self).mask()
            }),
            final(self).pending() == old(self).pending(),
            final(self).line() == (mis_spec(final(self).pending(), final(self).mask()) != 0),
            r.irq == change(old(self).line(), final(self).line()),
    {
        let mut serial: Option<u8> = None;
        if offset == UART_DR {
            serial = Some(value as u8);
        } else if offset == UART_IMSC {
            self.imsc = value;
        }
        let irq = self.sync_irq();
        UartEffect { serial, irq }
    }
}

} // verus!
