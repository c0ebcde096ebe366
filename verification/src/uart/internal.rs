//! The hardware control layer: the named operations of the device.
//!
//! Each operation is one semantic access to one register: a plain read, a
//! plain write, or a read followed by a write of the same register. The layer
//! decides nothing. It exists so that the driver above it speaks of what it
//! wants done, and so that a stand-in can take the place of the hardware.
use vstd::prelude::*;
use crate::uart::registers::{Access, Register, RegisterBlock};

verus! {

/// Bits 0 and 1 of the line control register: the word length.
pub const WORD_LENGTH_MASK: u8 = 0b0000_0011;

/// Bit 7 of the line control register: the divisor latch access bit.
pub const DIVISOR_LATCH_ACCESS_BIT: u8 = 0b1000_0000;

/// Bit 0 of the FIFO control register: FIFO enable.
pub const FIFO_ENABLE: u8 = 0b0000_0001;

/// Bit 0 of the interrupt enable register: receiver buffer interrupts.
pub const RECEIVER_BUFFER_INTERRUPTS: u8 = 0b0000_0001;

/// Bit 0 of the line status register: the data-ready flag.
pub const DATA_READY: u8 = 0b0000_0001;

/// The word length field of a line control byte: bits 0 and 1.
pub open spec fn spec_word_length_of(line_control: u8) -> u8 {
    line_control & WORD_LENGTH_MASK
}

/// The word length field of a line control byte: bits 0 and 1.
#[verifier::when_used_as_spec(spec_word_length_of)]
pub fn word_length_of(line_control: u8) -> (word_length: u8)
    ensures
        word_length == spec_word_length_of(line_control),
        word_length <= 0b11,
{
    assert(line_control & 0b11 <= 0b11) by (bit_vector);
    line_control & WORD_LENGTH_MASK
}

/// A line control byte with its word length field replaced by the low two
/// bits of `word_length`, and bits 2 to 7 as they were.
pub open spec fn spec_with_word_length(line_control: u8, word_length: u8) -> u8 {
    (line_control & 0b1111_1100) | (word_length & WORD_LENGTH_MASK)
}

/// A line control byte with its word length field replaced by the low two
/// bits of `word_length`, and bits 2 to 7 as they were.
#[verifier::when_used_as_spec(spec_with_word_length)]
pub fn with_word_length(line_control: u8, word_length: u8) -> (merged: u8)
    ensures
        merged == spec_with_word_length(line_control, word_length),
{
    (line_control & 0b1111_1100) | (word_length & WORD_LENGTH_MASK)
}

/// A line control byte with the divisor latch opened: bit 7 set.
pub open spec fn spec_with_divisor_latch(line_control: u8) -> u8 {
    line_control | DIVISOR_LATCH_ACCESS_BIT
}

/// A line control byte with the divisor latch opened: bit 7 set.
#[verifier::when_used_as_spec(spec_with_divisor_latch)]
pub fn with_divisor_latch(line_control: u8) -> (opened: u8)
    ensures
        opened == spec_with_divisor_latch(line_control),
{
    line_control | DIVISOR_LATCH_ACCESS_BIT
}

/// A line control byte with the divisor latch closed: bit 7 cleared.
pub open spec fn spec_without_divisor_latch(line_control: u8) -> u8 {
    line_control & 0b0111_1111
}

/// A line control byte with the divisor latch closed: bit 7 cleared.
#[verifier::when_used_as_spec(spec_without_divisor_latch)]
pub fn without_divisor_latch(line_control: u8) -> (closed: u8)
    ensures
        closed == spec_without_divisor_latch(line_control),
{
    line_control & 0b0111_1111
}

/// The data-ready flag of a line status byte: bit 0.
pub open spec fn spec_data_ready_of(line_status: u8) -> u8 {
    line_status & DATA_READY
}

/// The data-ready flag of a line status byte: bit 0.
#[verifier::when_used_as_spec(spec_data_ready_of)]
pub fn data_ready_of(line_status: u8) -> (flag: u8)
    ensures
        flag == spec_data_ready_of(line_status),
        flag <= 1,
{
    assert(line_status & 0b1 <= 1) by (bit_vector);
    line_status & DATA_READY
}

/// Merging a word length into a line control byte stores its low two bits in
/// bits 0 and 1 and keeps bits 2 to 7. A word length that fits in two bits is
/// stored as it is.
pub proof fn lemma_with_word_length(line_control: u8, word_length: u8)
    ensures
        word_length_of(with_word_length(line_control, word_length)) == word_length_of(word_length),
        with_word_length(line_control, word_length) & 0b1111_1100 == line_control & 0b1111_1100,
        word_length <= 0b11 ==> word_length_of(with_word_length(line_control, word_length))
            == word_length,
{
    assert(((line_control & 0b1111_1100) | (word_length & 0b11)) & 0b11 == word_length & 0b11)
        by (bit_vector);
    assert(((line_control & 0b1111_1100) | (word_length & 0b11)) & 0b1111_1100 == line_control
        & 0b1111_1100) by (bit_vector);
    assert(word_length <= 0b11 ==> word_length & 0b11 == word_length) by (bit_vector);
}

/// Opening the divisor latch sets bit 7 of a line control byte, closing it
/// clears bit 7, and both keep bits 0 to 6.
pub proof fn lemma_divisor_latch(line_control: u8)
    ensures
        with_divisor_latch(line_control) & DIVISOR_LATCH_ACCESS_BIT == DIVISOR_LATCH_ACCESS_BIT,
        with_divisor_latch(line_control) & 0b0111_1111 == line_control & 0b0111_1111,
        without_divisor_latch(line_control) & DIVISOR_LATCH_ACCESS_BIT == 0,
        without_divisor_latch(line_control) & 0b0111_1111 == line_control & 0b0111_1111,
{
    assert((line_control | 0b1000_0000) & 0b1000_0000 == 0b1000_0000) by (bit_vector);
    assert((line_control | 0b1000_0000) & 0b0111_1111 == line_control & 0b0111_1111)
        by (bit_vector);
    assert((line_control & 0b0111_1111) & 0b1000_0000 == 0) by (bit_vector);
    assert((line_control & 0b0111_1111) & 0b0111_1111 == line_control & 0b0111_1111)
        by (bit_vector);
}

/// One operation of the hardware control layer, as it was carried out.
///
/// An operation that takes a byte records that byte; one that returns a byte
/// records what it returned.
#[derive(Clone, Copy, Debug, PartialEq, Eq, Structural)]
pub enum Call {
    /// `get_word_length`, with the word length it returned.
    GetWordLength(u8),
    /// `set_word_length`, with the word length it was given.
    SetWordLength(u8),
    /// `enable_fifo`.
    EnableFifo,
    /// `enable_receiver_buffer_interrupts`.
    EnableReceiverBufferInterrupts,
    /// `enable_divisor_latch_access_bit`.
    EnableDivisorLatchAccessBit,
    /// `disable_divisor_latch_access_bit`.
    DisableDivisorLatchAccessBit,
    /// `set_divisor_least`, with the byte it was given.
    SetDivisorLeast(u8),
    /// `set_divisor_most`, with the byte it was given.
    SetDivisorMost(u8),
    /// `set_thr`, with the byte it was given.
    SetThr(u8),
    /// `get_dr`, with the flag it returned.
    GetDr(u8),
    /// `get_rhr`, with the byte it returned.
    GetRhr(u8),
}

/// The register accesses that carry out `call` on a device that answers the
/// read, where the operation makes one, with `seen`.
pub open spec fn accesses_of(call: Call, seen: u8) -> Seq<Access> {
    match call {
        Call::GetWordLength(_) => seq![Access::Read(Register::LcrPd, seen)],
        Call::SetWordLength(word_length) => seq![
            Access::Read(Register::LcrPd, seen),
            Access::Write(Register::LcrPd, with_word_length(seen, word_length)),
        ],
        Call::EnableFifo => seq![Access::Write(Register::IsrFcr, FIFO_ENABLE)],
        Call::EnableReceiverBufferInterrupts => seq![
            Access::Write(Register::IerDlm, RECEIVER_BUFFER_INTERRUPTS),
        ],
        Call::EnableDivisorLatchAccessBit => seq![
            Access::Read(Register::LcrPd, seen),
            Access::Write(Register::LcrPd, with_divisor_latch(seen)),
        ],
        Call::DisableDivisorLatchAccessBit => seq![
            Access::Read(Register::LcrPd, seen),
            Access::Write(Register::LcrPd, without_divisor_latch(seen)),
        ],
        Call::SetDivisorLeast(byte) => seq![Access::Write(Register::RthrDll, byte)],
        Call::SetDivisorMost(byte) => seq![Access::Write(Register::IerDlm, byte)],
        Call::SetThr(byte) => seq![Access::Write(Register::RthrDll, byte)],
        Call::GetDr(_) => seq![Access::Read(Register::Lsr, seen)],
        Call::GetRhr(_) => seq![Access::Read(Register::RthrDll, seen)],
    }
}

/// Whether the byte that `call` records as returned is the one that the
/// operation derives from a device answer of `seen`. Operations that return
/// nothing agree with every answer.
pub open spec fn agrees(call: Call, seen: u8) -> bool {
    match call {
        Call::GetWordLength(word_length) => word_length == word_length_of(seen),
        Call::GetDr(flag) => flag == data_ready_of(seen),
        Call::GetRhr(byte) => byte == seen,
        _ => true,
    }
}

/// `after` is `before` followed by the accesses that carry out `call`, and
/// nothing else.
pub open spec fn performed(before: Seq<Access>, after: Seq<Access>, call: Call) -> bool {
    exists|seen: u8| #[trigger] agrees(call, seen) && after == before + accesses_of(call, seen)
}

/// `after` is `before` followed by the accesses that carry out `calls`, in
/// order, and nothing else.
pub open spec fn performed_all(before: Seq<Access>, after: Seq<Access>, calls: Seq<Call>) -> bool
    decreases calls.len(),
{
    if calls.len() == 0 {
        after == before
    } else {
        exists|mid: Seq<Access>|
            performed_all(before, mid, calls.drop_last()) && #[trigger] performed(
                mid,
                after,
                calls.last(),
            )
    }
}

/// Introduces `performed` from the device answer that witnesses it.
proof fn lemma_performed(before: Seq<Access>, after: Seq<Access>, call: Call, seen: u8)
    requires
        agrees(call, seen),
        after =~= before + accesses_of(call, seen),
    ensures
        performed(before, after, call),
{
}

/// The hardware control capability: the operations that the driver needs from
/// the device, whatever stands behind them.
///
/// The contract of each operation has two parts. The operation is recorded,
/// once, at the end of the history of calls, with its argument or its result.
/// And it takes the capability from the state before to the state after as
/// `carried_out` says for that capability: on hardware by the register
/// accesses of the operation, on a stand-in by whatever the stand-in does.
/// What a getter returns is up to the device.
pub trait UartControl {
    /// Every operation carried out through this handle, oldest first.
    spec fn calls(&self) -> Seq<Call>;

    /// Whether `after` is what this capability becomes by carrying out
    /// `call`, with the result that `call` records.
    spec fn carried_out(&self, call: Call, after: &Self) -> bool;

    /// Reads the word length field of the line control register.
    fn get_word_length(&mut self) -> (word_length: u8)
        ensures
            final(self).calls() == old(self).calls().push(Call::GetWordLength(word_length)),
            old(self).carried_out(Call::GetWordLength(word_length), final(self)),
    ;

    /// Sets the word length field of the line control register and leaves
    /// the other bits of the register as they are.
    fn set_word_length(&mut self, word_length: u8)
        ensures
            final(self).calls() == old(self).calls().push(Call::SetWordLength(word_length)),
            old(self).carried_out(Call::SetWordLength(word_length), final(self)),
    ;

    /// Switches the FIFO on.
    fn enable_fifo(&mut self)
        ensures
            final(self).calls() == old(self).calls().push(Call::EnableFifo),
            old(self).carried_out(Call::EnableFifo, final(self)),
    ;

    /// Switches receiver buffer interrupts on.
    fn enable_receiver_buffer_interrupts(&mut self)
        ensures
            final(self).calls() == old(self).calls().push(Call::EnableReceiverBufferInterrupts),
            old(self).carried_out(Call::EnableReceiverBufferInterrupts, final(self)),
    ;

    /// Opens the divisor latch: offsets 0 and 1 now reach the divisor.
    fn enable_divisor_latch_access_bit(&mut self)
        ensures
            final(self).calls() == old(self).calls().push(Call::EnableDivisorLatchAccessBit),
            old(self).carried_out(Call::EnableDivisorLatchAccessBit, final(self)),
    ;

    /// Closes the divisor latch: offsets 0 and 1 reach the data registers and the
    /// interrupt enable register again.
    fn disable_divisor_latch_access_bit(&mut self)
        ensures
            final(self).calls() == old(self).calls().push(Call::DisableDivisorLatchAccessBit),
            old(self).carried_out(Call::DisableDivisorLatchAccessBit, final(self)),
    ;

    /// Writes the low byte of the divisor. Meaningful only while the divisor
    /// latch is open.
    fn set_divisor_least(&mut self, divisor_least: u8)
        ensures
            final(self).calls() == old(self).calls().push(Call::SetDivisorLeast(divisor_least)),
            old(self).carried_out(Call::SetDivisorLeast(divisor_least), final(self)),
    ;

    /// Writes the high byte of the divisor. Meaningful only while the divisor
    /// latch is open.
    fn set_divisor_most(&mut self, divisor_most: u8)
        ensures
            final(self).calls() == old(self).calls().push(Call::SetDivisorMost(divisor_most)),
            old(self).carried_out(Call::SetDivisorMost(divisor_most), final(self)),
    ;

    /// Writes a byte to the transmit holding register. Meaningful only while
    /// the divisor latch is closed.
    fn set_thr(&mut self, c: u8)
        ensures
            final(self).calls() == old(self).calls().push(Call::SetThr(c)),
            old(self).carried_out(Call::SetThr(c), final(self)),
    ;

    /// Reads the data-ready flag of the line status register.
    fn get_dr(&mut self) -> (flag: u8)
        ensures
            final(self).calls() == old(self).calls().push(Call::GetDr(flag)),
            old(self).carried_out(Call::GetDr(flag), final(self)),
    ;

    /// Reads a byte from the receive holding register. Meaningful only while
    /// the divisor latch is closed.
    fn get_rhr(&mut self) -> (byte: u8)
        ensures
            final(self).calls() == old(self).calls().push(Call::GetRhr(byte)),
            old(self).carried_out(Call::GetRhr(byte), final(self)),
    ;
}

/// Whether `after` is what the capability `before` becomes by carrying out
/// `calls`, in order, each with the result that it records.
pub open spec fn carried_out_all<U: UartControl>(before: U, calls: Seq<Call>, after: U) -> bool
    decreases calls.len(),
{
    if calls.len() == 0 {
        after == before
    } else {
        exists|mid: U|
            carried_out_all(before, calls.drop_last(), mid) && #[trigger] mid.carried_out(
                calls.last(),
                &after,
            )
    }
}

/// Carrying out one more call.
pub proof fn lemma_carried_out_push<U: UartControl>(
    before: U,
    calls: Seq<Call>,
    mid: U,
    call: Call,
    after: U,
)
    requires
        carried_out_all(before, calls, mid),
        mid.carried_out(call, &after),
    ensures
        carried_out_all(before, calls.push(call), after),
{
    let longer = calls.push(call);
    assert(longer.drop_last() =~= calls);
    assert(carried_out_all(before, longer.drop_last(), mid) && mid.carried_out(
        longer.last(),
        &after,
    ));
}

/// The hardware control capability over a register block.
///
/// The view of a handle is the register block that it took over. Each
/// operation is recorded in the history of calls and makes the register
/// accesses that `accesses_of` lists for it, and no others.
pub struct UART<R: RegisterBlock> {
    uart_registers: R,
    calls: Ghost<Seq<Call>>,
}

impl<R: RegisterBlock> View for UART<R> {
    type V = R;

    closed spec fn view(&self) -> R {
        self.uart_registers
    }
}

impl<R: RegisterBlock> UART<R> {
    /// Takes over a register block. Nothing is accessed.
    pub fn new(uart_registers: R) -> (uart: Self)
        ensures
            uart@ == uart_registers,
            uart.calls() == Seq::<Call>::empty(),
    {
        UART { uart_registers, calls: Ghost(Seq::empty()) }
    }

    /// The register block that the handle took over.
    pub fn registers(&self) -> (uart_registers: &R)
        ensures
            *uart_registers == self@,
    {
        &self.uart_registers
    }

    /// Reads the line control register and returns its word length field,
    /// bits 0 and 1.
    pub fn get_word_length(&mut self) -> (word_length: u8)
        ensures
            word_length <= 0b11,
            final(self).calls() == old(self).calls().push(Call::GetWordLength(word_length)),
            performed(
                old(self)@.accesses(),
                final(self)@.accesses(),
                Call::GetWordLength(word_length),
            ),
    {
        let line_control: u8 = self.uart_registers.read(Register::LcrPd);
        let word_length: u8 = word_length_of(line_control);
        proof {
            self.calls@ = self.calls@.push(Call::GetWordLength(word_length));
            lemma_performed(
                old(self)@.accesses(),
                self@.accesses(),
                Call::GetWordLength(word_length),
                line_control,
            );
        }
        word_length
    }

    /// Reads the line control register and writes it back with the low two
    /// bits of `word_length` in bits 0 and 1, and bits 2 to 7 as they were
    /// read.
    pub fn set_word_length(&mut self, word_length: u8)
        ensures
            final(self).calls() == old(self).calls().push(Call::SetWordLength(word_length)),
            performed(
                old(self)@.accesses(),
                final(self)@.accesses(),
                Call::SetWordLength(word_length),
            ),
    {
        let line_control: u8 = self.uart_registers.read(Register::LcrPd);
        self.uart_registers.write(Register::LcrPd, with_word_length(line_control, word_length));
        proof {
            self.calls@ = self.calls@.push(Call::SetWordLength(word_length));
            lemma_performed(
                old(self)@.accesses(),
                self@.accesses(),
                Call::SetWordLength(word_length),
                line_control,
            );
        }
    }

    /// Writes the FIFO enable bit to the FIFO control register.
    pub fn enable_fifo(&mut self)
        ensures
            final(self).calls() == old(self).calls().push(Call::EnableFifo),
            performed(old(self)@.accesses(), final(self)@.accesses(), Call::EnableFifo),
    {
        self.uart_registers.write(Register::IsrFcr, FIFO_ENABLE);
        proof {
            self.calls@ = self.calls@.push(Call::EnableFifo);
            lemma_performed(old(self)@.accesses(), self@.accesses(), Call::EnableFifo, 0);
        }
    }

    /// Writes the receiver buffer interrupt bit to the interrupt enable
    /// register.
    pub fn enable_receiver_buffer_interrupts(&mut self)
        ensures
            final(self).calls() == old(self).calls().push(Call::EnableReceiverBufferInterrupts),
            performed(
                old(self)@.accesses(),
                final(self)@.accesses(),
                Call::EnableReceiverBufferInterrupts,
            ),
    {
        self.uart_registers.write(Register::IerDlm, RECEIVER_BUFFER_INTERRUPTS);
        proof {
            self.calls@ = self.calls@.push(Call::EnableReceiverBufferInterrupts);
            lemma_performed(
                old(self)@.accesses(),
                self@.accesses(),
                Call::EnableReceiverBufferInterrupts,
                0,
            );
        }
    }

    /// Reads the line control register and writes it back with bit 7 set.
    pub fn enable_divisor_latch_access_bit(&mut self)
        ensures
            final(self).calls() == old(self).calls().push(Call::EnableDivisorLatchAccessBit),
            performed(
                old(self)@.accesses(),
                final(self)@.accesses(),
                Call::EnableDivisorLatchAccessBit,
            ),
    {
        let line_control: u8 = self.uart_registers.read(Register::LcrPd);
        self.uart_registers.write(Register::LcrPd, with_divisor_latch(line_control));
        proof {
            self.calls@ = self.calls@.push(Call::EnableDivisorLatchAccessBit);
            lemma_performed(
                old(self)@.accesses(),
                self@.accesses(),
                Call::EnableDivisorLatchAccessBit,
                line_control,
            );
        }
    }

    /// Reads the line control register and writes it back with bit 7
    /// cleared.
    pub fn disable_divisor_latch_access_bit(&mut self)
        ensures
            final(self).calls() == old(self).calls().push(Call::DisableDivisorLatchAccessBit),
            performed(
                old(self)@.accesses(),
                final(self)@.accesses(),
                Call::DisableDivisorLatchAccessBit,
            ),
    {
        let line_control: u8 = self.uart_registers.read(Register::LcrPd);
        self.uart_registers.write(Register::LcrPd, without_divisor_latch(line_control));
        proof {
            self.calls@ = self.calls@.push(Call::DisableDivisorLatchAccessBit);
            lemma_performed(
                old(self)@.accesses(),
                self@.accesses(),
                Call::DisableDivisorLatchAccessBit,
                line_control,
            );
        }
    }

    /// Writes `divisor_least` to offset 0, where the low byte of the divisor
    /// is while the divisor latch is open.
    pub fn set_divisor_least(&mut self, divisor_least: u8)
        ensures
            final(self).calls() == old(self).calls().push(Call::SetDivisorLeast(divisor_least)),
            performed(
                old(self)@.accesses(),
                final(self)@.accesses(),
                Call::SetDivisorLeast(divisor_least),
            ),
    {
        self.uart_registers.write(Register::RthrDll, divisor_least);
        proof {
            self.calls@ = self.calls@.push(Call::SetDivisorLeast(divisor_least));
            lemma_performed(
                old(self)@.accesses(),
                self@.accesses(),
                Call::SetDivisorLeast(divisor_least),
                0,
            );
        }
    }

    /// Writes `divisor_most` to offset 1, where the high byte of the divisor
    /// is while the divisor latch is open.
    pub fn set_divisor_most(&mut self, divisor_most: u8)
        ensures
            final(self).calls() == old(self).calls().push(Call::SetDivisorMost(divisor_most)),
            performed(
                old(self)@.accesses(),
                final(self)@.accesses(),
                Call::SetDivisorMost(divisor_most),
            ),
    {
        self.uart_registers.write(Register::IerDlm, divisor_most);
        proof {
            self.calls@ = self.calls@.push(Call::SetDivisorMost(divisor_most));
            lemma_performed(
                old(self)@.accesses(),
                self@.accesses(),
                Call::SetDivisorMost(divisor_most),
                0,
            );
        }
    }

    /// Writes `c` to offset 0, where the transmit holding register is while
    /// the divisor latch is closed.
    pub fn set_thr(&mut self, c: u8)
        ensures
            final(self).calls() == old(self).calls().push(Call::SetThr(c)),
            performed(old(self)@.accesses(), final(self)@.accesses(), Call::SetThr(c)),
    {
        self.uart_registers.write(Register::RthrDll, c);
        proof {
            self.calls@ = self.calls@.push(Call::SetThr(c));
            lemma_performed(old(self)@.accesses(), self@.accesses(), Call::SetThr(c), 0);
        }
    }

    /// Reads the line status register and returns its data-ready flag,
    /// bit 0.
    pub fn get_dr(&mut self) -> (flag: u8)
        ensures
            flag <= 1,
            final(self).calls() == old(self).calls().push(Call::GetDr(flag)),
            performed(old(self)@.accesses(), final(self)@.accesses(), Call::GetDr(flag)),
    {
        let line_status: u8 = self.uart_registers.read(Register::Lsr);
        let flag: u8 = data_ready_of(line_status);
        proof {
            self.calls@ = self.calls@.push(Call::GetDr(flag));
            lemma_performed(
                old(self)@.accesses(),
                self@.accesses(),
                Call::GetDr(flag),
                line_status,
            );
        }
        flag
    }

    /// Reads offset 0, where the receive holding register is while the
    /// divisor latch is closed, and returns the byte.
    pub fn get_rhr(&mut self) -> (byte: u8)
        ensures
            final(self).calls() == old(self).calls().push(Call::GetRhr(byte)),
            performed(old(self)@.accesses(), final(self)@.accesses(), Call::GetRhr(byte)),
    {
        let byte: u8 = self.uart_registers.read(Register::RthrDll);
        proof {
            self.calls@ = self.calls@.push(Call::GetRhr(byte));
            lemma_performed(old(self)@.accesses(), self@.accesses(), Call::GetRhr(byte), byte);
        }
        byte
    }
}

/// Whatever operations are carried out on a register block, and however
/// many, the history of calls grows by exactly those operations and the
/// history of register accesses by exactly the accesses that carry them out.
pub proof fn lemma_accesses_follow_calls<R: RegisterBlock>(
    before: UART<R>,
    calls: Seq<Call>,
    after: UART<R>,
)
    requires
        carried_out_all(before, calls, after),
    ensures
        after.calls() == before.calls() + calls,
        performed_all(before@.accesses(), after@.accesses(), calls),
    decreases calls.len(),
{
    if calls.len() == 0 {
        assert(before.calls() + calls =~= before.calls());
    } else {
        let mid = choose|mid: UART<R>|
            carried_out_all(before, calls.drop_last(), mid) && #[trigger] mid.carried_out(
                calls.last(),
                &after,
            );
        lemma_accesses_follow_calls(before, calls.drop_last(), mid);
        assert(calls =~= calls.drop_last().push(calls.last()));
        assert(after.calls() =~= before.calls() + calls);
        assert(performed_all(before@.accesses(), mid@.accesses(), calls.drop_last()) && performed(
            mid@.accesses(),
            after@.accesses(),
            calls.last(),
        ));
    }
}

impl<R: RegisterBlock> UartControl for UART<R> {
    closed spec fn calls(&self) -> Seq<Call> {
        self.calls@
    }

    /// On a register block an operation is carried out by its register
    /// accesses, and by nothing else.
    open spec fn carried_out(&self, call: Call, after: &Self) -> bool {
        &&& after.calls() == self.calls().push(call)
        &&& performed(self@.accesses(), after@.accesses(), call)
    }

    fn get_word_length(&mut self) -> (word_length: u8)
        ensures
            word_length <= 0b11,
    {
        UART::get_word_length(self)
    }

    fn set_word_length(&mut self, word_length: u8) {
        UART::set_word_length(self, word_length)
    }

    fn enable_fifo(&mut self) {
        UART::enable_fifo(self)
    }

    fn enable_receiver_buffer_interrupts(&mut self) {
        UART::enable_receiver_buffer_interrupts(self)
    }

    fn enable_divisor_latch_access_bit(&mut self) {
        UART::enable_divisor_latch_access_bit(self)
    }

    fn disable_divisor_latch_access_bit(&mut self) {
        UART::disable_divisor_latch_access_bit(self)
    }

    fn set_divisor_least(&mut self, divisor_least: u8) {
        UART::set_divisor_least(self, divisor_least)
    }

    fn set_divisor_most(&mut self, divisor_most: u8) {
        UART::set_divisor_most(self, divisor_most)
    }

    fn set_thr(&mut self, c: u8) {
        UART::set_thr(self, c)
    }

    fn get_dr(&mut self) -> (flag: u8)
        ensures
            flag <= 1,
    {
        UART::get_dr(self)
    }

    fn get_rhr(&mut self) -> (byte: u8) {
        UART::get_rhr(self)
    }
}

} // verus!
