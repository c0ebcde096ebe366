//! The register block and the interface through which it is accessed.
use vstd::prelude::*;

verus! {

/// One of the eight single-byte registers of the block, in address order.
///
/// Two of the addresses are overlaid: while the divisor latch access bit of
/// the line control register is set, offsets 0 and 1 reach the two halves of
/// the baud divisor instead of the data registers and the interrupt enable
/// register.
#[derive(Clone, Copy, Debug, PartialEq, Eq, Structural)]
pub enum Register {
    /// Offset 0: receive holding register on a read, transmit holding register
    /// on a write; the low byte of the divisor while the latch is open.
    RthrDll,
    /// Offset 1: interrupt enable register; the high byte of the divisor while
    /// the latch is open.
    IerDlm,
    /// Offset 2: interrupt status on a read, FIFO control on a write.
    IsrFcr,
    /// Offset 3: line control; bits 0 and 1 hold the word length, bit 7 is the
    /// divisor latch access bit.
    LcrPd,
    /// Offset 4: modem control.
    Mcr,
    /// Offset 5: line status, read-only; bit 0 is the data-ready flag.
    Lsr,
    /// Offset 6: modem status, read-only.
    Msr,
    /// Offset 7: scratch, read-only.
    Spr,
}

impl Register {
    /// The distance of the register from the base address of the block.
    pub open spec fn offset(self) -> nat {
        match self {
            Register::RthrDll => 0,
            Register::IerDlm => 1,
            Register::IsrFcr => 2,
            Register::LcrPd => 3,
            Register::Mcr => 4,
            Register::Lsr => 5,
            Register::Msr => 6,
            Register::Spr => 7,
        }
    }

    /// Whether the register accepts writes.
    pub open spec fn writable(self) -> bool {
        self.offset() <= 4
    }
}

/// A single access to the register block, with the byte that crossed the bus.
#[derive(Clone, Copy, Debug, PartialEq, Eq, Structural)]
pub enum Access {
    /// The register was read and yielded the byte.
    Read(Register, u8),
    /// The byte was written to the register.
    Write(Register, u8),
}

/// A history of accesses, oldest first.
///
/// Histories exist in proofs only. The name is here for code outside the
/// library that implements [`RegisterBlock`]: it has to declare `accesses`
/// with this result type, and nothing ever calls what it declares.
pub type History = Seq<Access>;

/// The register interface: one read and one write primitive per register.
///
/// Each call is a single access that has an effect outside the program, so
/// none may be dropped, repeated or reordered. The contract records this as
/// a history to which every call appends exactly one entry. Nothing is
/// promised about the byte that a read returns: that is up to the device.
///
/// The library implements the trait for its device model. For hardware it is
/// implemented outside the library, where the accesses can be made: there
/// each primitive is one volatile access to the register at its offset from
/// the base address of the block, and that it is so is assumed here, not
/// proved.
pub trait RegisterBlock {
    /// Every access made through this handle, oldest first.
    spec fn accesses(&self) -> History;

    /// Reads `register` once.
    fn read(&mut self, register: Register) -> (value: u8)
        ensures
            final(self).accesses() == old(self).accesses().push(Access::Read(register, value)),
    ;

    /// Writes `value` to `register` once.
    fn write(&mut self, register: Register, value: u8)
        requires
            register.writable(),
        ensures
            final(self).accesses() == old(self).accesses().push(Access::Write(register, value)),
    ;
}

} // verus!
