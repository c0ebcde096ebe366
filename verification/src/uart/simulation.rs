//! A model of the device behind the register block, for use where there is
//! no hardware.
use vstd::prelude::*;
use crate::uart::internal::{
    accesses_of, agrees, with_divisor_latch, with_word_length, without_divisor_latch, Call,
    DATA_READY, DIVISOR_LATCH_ACCESS_BIT, FIFO_ENABLE, RECEIVER_BUFFER_INTERRUPTS,
};
use crate::uart::registers::{Access, History, Register, RegisterBlock};
use crate::uart::{init_sequence, lemma_divisor_bytes, transmissions, EIGHT_DATA_BITS};

verus! {

/// Bits 5 and 6 of the line status register: the transmit holding register
/// and the transmitter are empty. The model sends every byte at once, so
/// both are always set.
pub const TRANSMITTER_IDLE: u8 = 0b0110_0000;

/// The state of the modelled device.
///
/// Offsets 0 and 1 are overlaid: which of the fields an access there reaches
/// depends on the divisor latch access bit in `line_control`.
pub struct DeviceState {
    /// The line control register.
    pub line_control: u8,
    /// The interrupt enable register.
    pub interrupt_enable: u8,
    /// The FIFO control register.
    pub fifo_control: u8,
    /// The modem control register.
    pub modem_control: u8,
    /// The low byte of the baud divisor.
    pub divisor_least: u8,
    /// The high byte of the baud divisor.
    pub divisor_most: u8,
    /// The bytes that have arrived and were not read yet, oldest first.
    pub received: Seq<u8>,
    /// The bytes that were sent, oldest first.
    pub transmitted: Seq<u8>,
}

impl DeviceState {
    /// Whether the divisor latch is open, so that offsets 0 and 1 reach the
    /// divisor.
    pub open spec fn latch_open(self) -> bool {
        self.line_control & DIVISOR_LATCH_ACCESS_BIT != 0
    }

    /// The byte that a read of `register` yields.
    pub open spec fn answer(self, register: Register) -> u8 {
        match register {
            Register::RthrDll => if self.latch_open() {
                self.divisor_least
            } else if self.received.len() > 0 {
                self.received[0]
            } else {
                0
            },
            Register::IerDlm => if self.latch_open() {
                self.divisor_most
            } else {
                self.interrupt_enable
            },
            Register::LcrPd => self.line_control,
            Register::Mcr => self.modem_control,
            Register::Lsr => if self.received.len() > 0 {
                TRANSMITTER_IDLE | DATA_READY
            } else {
                TRANSMITTER_IDLE
            },
            Register::IsrFcr | Register::Msr | Register::Spr => 0,
        }
    }

    /// The state after a read of `register`: a read of the receive holding
    /// register takes the oldest waiting byte, every other read changes
    /// nothing.
    pub open spec fn after_read(self, register: Register) -> DeviceState {
        if register == Register::RthrDll && !self.latch_open() && self.received.len() > 0 {
            DeviceState { received: self.received.drop_first(), ..self }
        } else {
            self
        }
    }

    /// The state after `value` was written to `register`.
    pub open spec fn after_write(self, register: Register, value: u8) -> DeviceState {
        match register {
            Register::RthrDll => if self.latch_open() {
                DeviceState { divisor_least: value, ..self }
            } else {
                DeviceState { transmitted: self.transmitted.push(value), ..self }
            },
            Register::IerDlm => if self.latch_open() {
                DeviceState { divisor_most: value, ..self }
            } else {
                DeviceState { interrupt_enable: value, ..self }
            },
            Register::IsrFcr => DeviceState { fifo_control: value, ..self },
            Register::LcrPd => DeviceState { line_control: value, ..self },
            Register::Mcr => DeviceState { modem_control: value, ..self },
            Register::Lsr | Register::Msr | Register::Spr => self,
        }
    }

    /// The state after one access.
    pub open spec fn after(self, access: Access) -> DeviceState {
        match access {
            Access::Read(register, _) => self.after_read(register),
            Access::Write(register, value) => self.after_write(register, value),
        }
    }

    /// The state after a sequence of accesses.
    pub open spec fn after_all(self, accesses: Seq<Access>) -> DeviceState
        decreases accesses.len(),
    {
        if accesses.len() == 0 {
            self
        } else {
            self.after_all(accesses.drop_last()).after(accesses.last())
        }
    }

    /// What the device answers to the read with which `call` begins, and 0
    /// if it begins with a write.
    pub open spec fn seen_by(self, call: Call) -> u8 {
        match accesses_of(call, 0).first() {
            Access::Read(register, _) => self.answer(register),
            Access::Write(_, _) => 0,
        }
    }

    /// The state after the hardware control layer has carried out `call`.
    pub open spec fn after_call(self, call: Call) -> DeviceState {
        self.after_all(accesses_of(call, self.seen_by(call)))
    }

    /// The state after the hardware control layer has carried out `calls`,
    /// in order.
    pub open spec fn after_calls(self, calls: Seq<Call>) -> DeviceState
        decreases calls.len(),
    {
        if calls.len() == 0 {
            self
        } else {
            self.after_calls(calls.drop_last()).after_call(calls.last())
        }
    }
}

/// The state of the device after one access, and after two.
proof fn lemma_after_two(state: DeviceState, first: Access, second: Access)
    ensures
        state.after_all(seq![first, second]) == state.after(first).after(second),
        state.after_all(seq![first]) == state.after(first),
{
    reveal_with_fuel(DeviceState::after_all, 3);
    assert(seq![first, second].drop_last() =~= seq![first]);
    assert(seq![first].drop_last() =~= Seq::<Access>::empty());
}

/// What each operation of the hardware control layer does to the device.
pub proof fn lemma_after_call(state: DeviceState, call: Call)
    ensures
        state.after_call(call) == match call {
            Call::GetWordLength(_) | Call::GetDr(_) => state,
            Call::SetWordLength(word_length) => DeviceState {
                line_control: with_word_length(state.line_control, word_length),
                ..state
            },
            Call::EnableFifo => DeviceState { fifo_control: FIFO_ENABLE, ..state },
            Call::EnableReceiverBufferInterrupts => state.after_write(
                Register::IerDlm,
                RECEIVER_BUFFER_INTERRUPTS,
            ),
            Call::EnableDivisorLatchAccessBit => DeviceState {
                line_control: with_divisor_latch(state.line_control),
                ..state
            },
            Call::DisableDivisorLatchAccessBit => DeviceState {
                line_control: without_divisor_latch(state.line_control),
                ..state
            },
            Call::SetDivisorLeast(byte) | Call::SetThr(byte) => state.after_write(
                Register::RthrDll,
                byte,
            ),
            Call::SetDivisorMost(byte) => state.after_write(Register::IerDlm, byte),
            Call::GetRhr(_) => state.after_read(Register::RthrDll),
        },
{
    let seen = state.seen_by(call);
    let accesses = accesses_of(call, seen);
    if accesses.len() == 2 {
        assert(accesses =~= seq![accesses[0], accesses[1]]);
        lemma_after_two(state, accesses[0], accesses[1]);
    } else {
        assert(accesses =~= seq![accesses[0]]);
        lemma_after_two(state, accesses[0], accesses[0]);
    }
}

/// Carrying out one more call.
pub proof fn lemma_after_calls_push(state: DeviceState, calls: Seq<Call>, call: Call)
    ensures
        state.after_calls(calls.push(call)) == state.after_calls(calls).after_call(call),
{
    assert(calls.push(call).drop_last() =~= calls);
}

/// On a device whose divisor latch is closed, the bring-up sequence selects
/// eight data bits, switches the FIFO and the receiver interrupts on and
/// programs the divisor 592. It leaves the latch closed, and everything else
/// as it was: no byte is sent and none is taken from the receiver.
pub proof fn lemma_bring_up(state: DeviceState)
    requires
        !state.latch_open(),
    ensures
        state.after_calls(init_sequence()) == (DeviceState {
            line_control: with_word_length(state.line_control, EIGHT_DATA_BITS),
            interrupt_enable: RECEIVER_BUFFER_INTERRUPTS,
            fifo_control: FIFO_ENABLE,
            divisor_least: 0x50,
            divisor_most: 0x02,
            ..state
        }),
        !state.after_calls(init_sequence()).latch_open(),
{
    let calls = init_sequence();
    let s0 = state;
    let c1 = Seq::<Call>::empty().push(calls[0]);
    let c2 = c1.push(calls[1]);
    let c3 = c2.push(calls[2]);
    let c4 = c3.push(calls[3]);
    let c5 = c4.push(calls[4]);
    let c6 = c5.push(calls[5]);
    let c7 = c6.push(calls[6]);
    assert(c7 =~= calls);
    let s1 = s0.after_call(calls[0]);
    let s2 = s1.after_call(calls[1]);
    let s3 = s2.after_call(calls[2]);
    let s4 = s3.after_call(calls[3]);
    let s5 = s4.after_call(calls[4]);
    let s6 = s5.after_call(calls[5]);
    let s7 = s6.after_call(calls[6]);
    lemma_after_calls_push(s0, Seq::empty(), calls[0]);
    lemma_after_calls_push(s0, c1, calls[1]);
    lemma_after_calls_push(s0, c2, calls[2]);
    lemma_after_calls_push(s0, c3, calls[3]);
    lemma_after_calls_push(s0, c4, calls[4]);
    lemma_after_calls_push(s0, c5, calls[5]);
    lemma_after_calls_push(s0, c6, calls[6]);
    lemma_after_call(s0, calls[0]);
    lemma_after_call(s1, calls[1]);
    lemma_after_call(s2, calls[2]);
    lemma_after_call(s3, calls[3]);
    lemma_after_call(s4, calls[4]);
    lemma_after_call(s5, calls[5]);
    lemma_after_call(s6, calls[6]);
    lemma_divisor_bytes();
    let before: u8 = state.line_control;
    assert(before & 0x80 == 0 ==> {
        let selected = (before & 0b1111_1100) | (0b11u8 & 0b0000_0011);
        &&& selected & 0x80 == 0
        &&& (selected | 0x80) & 0x80 != 0
        &&& (selected | 0x80) & 0b0111_1111 == selected
    }) by (bit_vector);
}

/// On a device whose divisor latch is closed, transmitting `bytes` sends
/// exactly those bytes, in order, and changes nothing else.
pub proof fn lemma_transmit(state: DeviceState, bytes: Seq<u8>)
    requires
        !state.latch_open(),
    ensures
        state.after_calls(transmissions(bytes)) == (DeviceState {
            transmitted: state.transmitted + bytes,
            ..state
        }),
    decreases bytes.len(),
{
    if bytes.len() == 0 {
        assert(state.transmitted + bytes =~= state.transmitted);
    } else {
        let earlier = bytes.drop_last();
        let sent = state.after_calls(transmissions(earlier));
        lemma_transmit(state, earlier);
        assert(transmissions(bytes) =~= transmissions(earlier).push(Call::SetThr(bytes.last())));
        lemma_after_calls_push(state, transmissions(earlier), Call::SetThr(bytes.last()));
        lemma_after_call(sent, Call::SetThr(bytes.last()));
        assert((state.transmitted + earlier).push(bytes.last()) =~= state.transmitted + bytes);
    }
}

/// On a device whose divisor latch is closed, the data-ready flag is set
/// exactly while a byte waits, and a read of the receive holding register
/// then yields the oldest waiting byte and takes it from the receiver.
pub proof fn lemma_receive(state: DeviceState, flag: u8, byte: u8)
    requires
        !state.latch_open(),
        agrees(Call::GetDr(flag), state.seen_by(Call::GetDr(flag))),
        agrees(Call::GetRhr(byte), state.seen_by(Call::GetRhr(byte))),
    ensures
        flag == DATA_READY <==> state.received.len() > 0,
        state.after_call(Call::GetDr(flag)) == state,
        state.received.len() > 0 ==> byte == state.received[0] && state.after_call(
            Call::GetRhr(byte),
        ) == (DeviceState { received: state.received.drop_first(), ..state }),
        state.received.len() == 0 ==> state.after_call(Call::GetRhr(byte)) == state,
{
    lemma_after_call(state, Call::GetDr(flag));
    lemma_after_call(state, Call::GetRhr(byte));
    assert((0b0110_0000u8 | 0b0000_0001) & 0b0000_0001 == 1) by (bit_vector);
    assert(0b0110_0000u8 & 0b0000_0001 == 0) by (bit_vector);
}

/// A register block that behaves as the modelled device does and keeps a log
/// of every access.
pub struct SimulatedRegisters {
    /// The line control register.
    pub line_control: u8,
    /// The interrupt enable register.
    pub interrupt_enable: u8,
    /// The FIFO control register.
    pub fifo_control: u8,
    /// The modem control register.
    pub modem_control: u8,
    /// The low byte of the baud divisor.
    pub divisor_least: u8,
    /// The high byte of the baud divisor.
    pub divisor_most: u8,
    /// The bytes that have arrived and were not read yet, oldest first.
    pub received: Vec<u8>,
    /// The bytes that were sent, oldest first.
    pub transmitted: Vec<u8>,
    /// Every access made so far, oldest first.
    pub log: Vec<Access>,
}

impl View for SimulatedRegisters {
    type V = DeviceState;

    open spec fn view(&self) -> DeviceState {
        DeviceState {
            line_control: self.line_control,
            interrupt_enable: self.interrupt_enable,
            fifo_control: self.fifo_control,
            modem_control: self.modem_control,
            divisor_least: self.divisor_least,
            divisor_most: self.divisor_most,
            received: self.received@,
            transmitted: self.transmitted@,
        }
    }
}

impl SimulatedRegisters {
    /// A device after reset: every register is 0, nothing has arrived,
    /// nothing was sent, and the log is empty.
    pub fn new() -> (registers: Self)
        ensures
            registers@ == (DeviceState {
                line_control: 0,
                interrupt_enable: 0,
                fifo_control: 0,
                modem_control: 0,
                divisor_least: 0,
                divisor_most: 0,
                received: Seq::empty(),
                transmitted: Seq::empty(),
            }),
            registers.accesses() == Seq::<Access>::empty(),
    {
        SimulatedRegisters {
            line_control: 0,
            interrupt_enable: 0,
            fifo_control: 0,
            modem_control: 0,
            divisor_least: 0,
            divisor_most: 0,
            received: Vec::new(),
            transmitted: Vec::new(),
            log: Vec::new(),
        }
    }
}

impl RegisterBlock for SimulatedRegisters {
    open spec fn accesses(&self) -> History {
        self.log@
    }

    fn read(&mut self, register: Register) -> (value: u8)
        ensures
            value == old(self)@.answer(register),
            final(self)@ == old(self)@.after_read(register),
    {
        let latch_open: bool = self.line_control & DIVISOR_LATCH_ACCESS_BIT != 0;
        let waiting: bool = self.received.len() > 0;
        let value: u8 = match register {
            Register::RthrDll => if latch_open {
                self.divisor_least
            } else if waiting {
                let oldest: u8 = self.received.remove(0);
                oldest
            } else {
                0
            },
            Register::IerDlm => if latch_open {
                self.divisor_most
            } else {
                self.interrupt_enable
            },
            Register::LcrPd => self.line_control,
            Register::Mcr => self.modem_control,
            Register::Lsr => if waiting {
                TRANSMITTER_IDLE | DATA_READY
            } else {
                TRANSMITTER_IDLE
            },
            Register::IsrFcr | Register::Msr | Register::Spr => 0,
        };
        self.log.push(Access::Read(register, value));
        value
    }

    fn write(&mut self, register: Register, value: u8)
        ensures
            final(self)@ == old(self)@.after_write(register, value),
    {
        let latch_open: bool = self.line_control & DIVISOR_LATCH_ACCESS_BIT != 0;
        match register {
            Register::RthrDll => if latch_open {
                self.divisor_least = value;
            } else {
                self.transmitted.push(value);
            },
            Register::IerDlm => if latch_open {
                self.divisor_most = value;
            } else {
                self.interrupt_enable = value;
            },
            Register::IsrFcr => {
                self.fifo_control = value;
            },
            Register::LcrPd => {
                self.line_control = value;
            },
            Register::Mcr => {
                self.modem_control = value;
            },
            Register::Lsr | Register::Msr | Register::Spr => {},
        }
        self.log.push(Access::Write(register, value));
    }
}

} // verus!
