//! The host terminal's side of the serial console: Ctrl-] then `x` detaches.
use vstd::prelude::*;

verus! {

/// Ctrl-]: the byte that starts a console command.
pub const ESCAPE_PREFIX: u8 = 0x1d;

/// The command byte that detaches the console.
pub const DETACH: u8 = 0x78;

/// What a byte typed on the host terminal does.
#[derive(Debug, Clone, Copy, PartialEq, Eq)]
pub enum SerialInput {
    /// Pass the byte to the guest.
    Forward(u8),
    /// The byte started a command; nothing goes to the guest.
    Prefix,
    /// Stop reading the terminal.
    Detach,
    /// An unknown command byte; nothing goes to the guest.
    Unknown(u8),
}

/// Whether the last byte was the command prefix.
pub struct SerialEscape {
    got_prefix: bool,
}

/// The meaning of byte `b` after a prefix (`after_prefix`) or not.
pub open spec fn feed_spec(after_prefix: bool, b: u8) -> SerialInput {
    if after_prefix {
        if b == DETACH {
            SerialInput::Detach
        } else {
            SerialInput::Unknown(b)
        }
    } else if b == ESCAPE_PREFIX {
        SerialInput::Prefix
    } else {
        SerialInput::Forward(b)
    }
}

impl SerialEscape {
    pub closed spec fn after_prefix(&self) -> bool {
        self.got_prefix
    }

    pub fn new() -> (r: SerialEscape)
        ensures
            !r.after_prefix(),
    {
        SerialEscape { got_prefix: false }
    }

    /// Takes the next byte typed on the terminal.
    pub fn feed(&mut self, b: u8) -> (r: SerialInput)
        ensures
            r == feed_spec(old(self).after_prefix(), b),
            final(self).after_prefix() == (r == SerialInput::Prefix),
    {
        if self.got_prefix {
            self.got_prefix = false;
            if b == DETACH {
                SerialInput::Detach
            } else {
                SerialInput::Unknown(b)
            }
        } else if b == ESCAPE_PREFIX {
            self.got_prefix = true;
            SerialInput::Prefix
        } else {
            SerialInput::Forward(b)
        }
    }
}

} // verus!
