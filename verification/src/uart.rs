//! The serial driver: bring-up, byte transmit and non-blocking receive.
use vstd::prelude::*;
use vstd::string::StringSliceAdditionalSpecFns;
use crate::uart::internal::{
    carried_out_all, lemma_carried_out_push, Call, UartControl, DATA_READY,
};

pub mod internal;
pub mod recording;
pub mod registers;
pub mod simulation;

verus! {

/// `core::fmt::Error`, the error of the formatting traits, declared so that
/// `write_str` can keep the signature that those traits expect. It is opaque
/// here, and the driver never makes one.
#[verifier::external_type_specification]
#[verifier::external_body]
pub struct ExFmtError(core::fmt::Error);

/// The word length that the driver selects: eight data bits.
pub const EIGHT_DATA_BITS: u8 = 0b11;

/// The baud divisor that the driver programs.
pub const DIVISOR: u16 = 592;

/// The low byte of a divisor.
pub open spec fn divisor_least_of(divisor: u16) -> u8 {
    (divisor & 0xff) as u8
}

/// The high byte of a divisor.
pub open spec fn divisor_most_of(divisor: u16) -> u8 {
    (divisor >> 8) as u8
}

/// Splits a divisor into its low and its high byte. Every 16-bit value can be
/// split, and the two bytes together hold all of it.
pub fn split_divisor(divisor: u16) -> (halves: (u8, u8))
    ensures
        halves.0 == divisor_least_of(divisor),
        halves.1 == divisor_most_of(divisor),
        halves.1 * 256 + halves.0 == divisor,
{
    assert(divisor & 0xff <= 0xff) by (bit_vector);
    assert(divisor >> 8 <= 0xff) by (bit_vector);
    assert((divisor >> 8) * 256 + (divisor & 0xff) == divisor) by (bit_vector);
    ((divisor & 0xff) as u8, (divisor >> 8) as u8)
}

/// The operations of the bring-up sequence, in the order in which they are
/// carried out.
pub open spec fn init_sequence() -> Seq<Call> {
    seq![
        Call::SetWordLength(EIGHT_DATA_BITS),
        Call::EnableFifo,
        Call::EnableReceiverBufferInterrupts,
        Call::EnableDivisorLatchAccessBit,
        Call::SetDivisorLeast(divisor_least_of(DIVISOR)),
        Call::SetDivisorMost(divisor_most_of(DIVISOR)),
        Call::DisableDivisorLatchAccessBit,
    ]
}

/// In `calls` the divisor latch is opened once, at `opened`, and closed once,
/// at `closed`; every write of a divisor byte lies between the two, and
/// nothing but writes of divisor bytes does.
pub open spec fn divisor_latch_window(calls: Seq<Call>, opened: int, closed: int) -> bool {
    &&& 0 <= opened < closed < calls.len()
    &&& forall|i: int|
        0 <= i < calls.len() ==> (calls[i] == Call::EnableDivisorLatchAccessBit <==> i == opened)
    &&& forall|i: int|
        0 <= i < calls.len() ==> (calls[i] == Call::DisableDivisorLatchAccessBit <==> i == closed)
    &&& forall|i: int|
        0 <= i < calls.len() ==> ((calls[i] is SetDivisorLeast || calls[i] is SetDivisorMost)
            <==> opened < i < closed)
}

/// The bring-up sequence programs the divisor 592 as the bytes 0x50 and
/// 0x02.
pub proof fn lemma_divisor_bytes()
    ensures
        divisor_least_of(DIVISOR) == 0x50,
        divisor_most_of(DIVISOR) == 0x02,
{
    assert((592u16 & 0xff) as u8 == 0x50) by (bit_vector);
    assert((592u16 >> 8) as u8 == 0x02) by (bit_vector);
}

/// The bring-up sequence opens the divisor latch before it writes either
/// divisor byte and closes it after it has written both, and does nothing
/// else while the latch is open.
pub proof fn lemma_divisor_writes_inside_latch_window()
    ensures
        divisor_latch_window(init_sequence(), 3, 6),
        init_sequence()[4] is SetDivisorLeast,
        init_sequence()[5] is SetDivisorMost,
{
}

/// The operations that transmit `bytes`: one write to the transmit holding
/// register for each byte, in order.
pub open spec fn transmissions(bytes: Seq<u8>) -> Seq<Call> {
    Seq::new(bytes.len(), |i: int| Call::SetThr(bytes[i]))
}

/// Transmitting a sequence of bytes in two parts makes the same calls as
/// transmitting it in one.
pub proof fn lemma_transmissions_concat(first: Seq<u8>, second: Seq<u8>)
    ensures
        transmissions(first + second) == transmissions(first) + transmissions(second),
{
    assert(transmissions(first + second) =~= transmissions(first) + transmissions(second));
}

/// Whether a data-ready flag, as the hardware control layer returns it, says
/// that a byte waits in the receive holding register. Only the value 1 does.
pub fn data_is_ready(flag: u8) -> (ready: bool)
    ensures
        ready == (flag == DATA_READY),
{
    flag == DATA_READY
}

/// `after` is `before` followed by one read of the data-ready flag that did
/// not find it set, and by nothing else.
pub open spec fn found_no_data(before: Seq<Call>, after: Seq<Call>) -> bool {
    &&& after.len() == before.len() + 1
    &&& after.drop_last() == before
    &&& after.last() matches Call::GetDr(flag) && flag != DATA_READY
}

/// A UART that has been brought up.
///
/// The driver owns the hardware control capability that it was built with.
/// Its view is that capability, whose history of calls the contracts speak of.
pub struct UARTDriver<U: UartControl> {
    uart: U,
}

impl<U: UartControl> View for UARTDriver<U> {
    type V = U;

    closed spec fn view(&self) -> U {
        self.uart
    }
}

impl<U: UartControl> UARTDriver<U> {
    /// Brings the device up and returns the driver for it: eight data bits,
    /// FIFO and receiver interrupts on, and the divisor programmed while the
    /// divisor latch is open. The driver holds the capability that it was
    /// given, as the seven operations have left it.
    pub fn new(uart: U) -> (driver: Self)
        ensures
            driver@.calls() == uart.calls() + init_sequence(),
            carried_out_all(uart, init_sequence(), driver@),
    {
        let ghost given = uart;
        let mut uart = uart;
        uart.set_word_length(EIGHT_DATA_BITS);
        let ghost after_1 = uart;
        uart.enable_fifo();
        let ghost after_2 = uart;
        uart.enable_receiver_buffer_interrupts();
        let ghost after_3 = uart;
        uart.enable_divisor_latch_access_bit();
        let ghost after_4 = uart;
        let (divisor_least, divisor_most): (u8, u8) = split_divisor(DIVISOR);
        uart.set_divisor_least(divisor_least);
        let ghost after_5 = uart;
        uart.set_divisor_most(divisor_most);
        let ghost after_6 = uart;
        uart.disable_divisor_latch_access_bit();
        proof {
            let calls = init_sequence();
            let done_1 = Seq::<Call>::empty().push(calls[0]);
            let done_2 = done_1.push(calls[1]);
            let done_3 = done_2.push(calls[2]);
            let done_4 = done_3.push(calls[3]);
            let done_5 = done_4.push(calls[4]);
            let done_6 = done_5.push(calls[5]);
            lemma_carried_out_push(given, Seq::empty(), given, calls[0], after_1);
            lemma_carried_out_push(given, done_1, after_1, calls[1], after_2);
            lemma_carried_out_push(given, done_2, after_2, calls[2], after_3);
            lemma_carried_out_push(given, done_3, after_3, calls[3], after_4);
            lemma_carried_out_push(given, done_4, after_4, calls[4], after_5);
            lemma_carried_out_push(given, done_5, after_5, calls[5], after_6);
            lemma_carried_out_push(given, done_6, after_6, calls[6], uart);
            assert(done_6.push(calls[6]) =~= calls);
        }
        UARTDriver { uart }
    }

    /// Transmits one byte. The driver does not wait for the transmitter to
    /// be ready.
    pub fn put(&mut self, c: u8)
        ensures
            final(self)@.calls() == old(self)@.calls().push(Call::SetThr(c)),
            old(self)@.carried_out(Call::SetThr(c), &final(self)@),
    {
        self.uart.set_thr(c);
    }

    /// Transmits `bytes`, in order.
    pub fn write(&mut self, bytes: &[u8])
        ensures
            final(self)@.calls() == old(self)@.calls() + transmissions(bytes@),
            carried_out_all(old(self)@, transmissions(bytes@), final(self)@),
    {
        let mut i: usize = 0;
        while i < bytes.len()
            invariant
                i <= bytes.len(),
                self@.calls() == old(self)@.calls() + transmissions(bytes@.take(i as int)),
                carried_out_all(old(self)@, transmissions(bytes@.take(i as int)), self@),
            decreases bytes.len() - i,
        {
            let ghost sent = self@;
            self.put(bytes[i]);
            proof {
                let earlier = transmissions(bytes@.take(i as int));
                let next = Call::SetThr(bytes@[i as int]);
                lemma_carried_out_push(old(self)@, earlier, sent, next, self@);
                assert(transmissions(bytes@.take(i + 1)) =~= earlier.push(next));
            }
            i += 1;
        }
        assert(bytes@.take(i as int) =~= bytes@);
    }

    /// Transmits the bytes of `s`, in order. Never fails.
    pub fn write_str(&mut self, s: &str) -> (result: Result<(), core::fmt::Error>)
        ensures
            result is Ok,
            final(self)@.calls() == old(self)@.calls() + transmissions(s.spec_bytes()),
            carried_out_all(old(self)@, transmissions(s.spec_bytes()), final(self)@),
    {
        self.write(s.as_bytes());
        Ok(())
    }

    /// Polls the receiver once, without waiting: returns the byte in the
    /// receive holding register if the data-ready flag was set, and nothing
    /// otherwise. The receive holding register is read in the first case
    /// only, and once.
    pub fn get(&mut self) -> (byte: Option<u8>)
        ensures
            match byte {
                Some(received) => {
                    &&& final(self)@.calls() == old(self)@.calls().push(
                        Call::GetDr(DATA_READY),
                    ).push(Call::GetRhr(received))
                    &&& exists|polled: U|
                        old(self)@.carried_out(Call::GetDr(DATA_READY), &polled)
                            && #[trigger] polled.carried_out(
                            Call::GetRhr(received),
                            &final(self)@,
                        )
                },
                None => {
                    &&& found_no_data(old(self)@.calls(), final(self)@.calls())
                    &&& exists|flag: u8|
                        flag != DATA_READY && #[trigger] old(self)@.carried_out(
                            Call::GetDr(flag),
                            &final(self)@,
                        )
                },
            },
    {
        let flag: u8 = self.uart.get_dr();
        let ghost polled = self@;
        if data_is_ready(flag) {
            let received: u8 = self.uart.get_rhr();
            assert(polled.carried_out(Call::GetRhr(received), &self@));
            Some(received)
        } else {
            assert(self@.calls().drop_last() =~= old(self)@.calls());
            assert(old(self)@.carried_out(Call::GetDr(flag), &self@));
            None
        }
    }

    /// The hardware control capability that the driver owns.
    pub fn uart(&self) -> (uart: &U)
        ensures
            *uart == self@,
    {
        &self.uart
    }
}

} // verus!
