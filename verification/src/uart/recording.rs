//! A stand-in for the hardware control layer that touches no memory.
use vstd::prelude::*;
use crate::uart::internal::{carried_out_all, Call, UartControl};

verus! {

/// A hardware control capability that only keeps a record.
///
/// Every operation is appended to the record with its argument or with the
/// byte it returned. The three getters return the bytes held in the fields of
/// the same name, whatever has been recorded before, so a caller decides up
/// front what the device will say.
pub struct RecordingUart {
    /// What `get_word_length` returns.
    pub word_length: u8,
    /// What `get_dr` returns.
    pub data_ready: u8,
    /// What `get_rhr` returns.
    pub received: u8,
    /// Every operation carried out so far, oldest first.
    pub record: Vec<Call>,
}

impl RecordingUart {
    /// A stand-in with an empty record, whose getters all return 0.
    pub fn new() -> (uart: Self)
        ensures
            uart.calls() == Seq::<Call>::empty(),
            uart.word_length == 0,
            uart.data_ready == 0,
            uart.received == 0,
    {
        RecordingUart { word_length: 0, data_ready: 0, received: 0, record: Vec::new() }
    }

    /// Whether the three answers are the same in `self` and in `other`.
    pub open spec fn answers_as(&self, other: &Self) -> bool {
        &&& self.word_length == other.word_length
        &&& self.data_ready == other.data_ready
        &&& self.received == other.received
    }

    /// Whether the result that `call` records is the answer held for that
    /// getter. Every operation that returns nothing qualifies.
    pub open spec fn answers(&self, call: Call) -> bool {
        match call {
            Call::GetWordLength(word_length) => word_length == self.word_length,
            Call::GetDr(flag) => flag == self.data_ready,
            Call::GetRhr(byte) => byte == self.received,
            _ => true,
        }
    }
}

/// Whatever operations are carried out on a stand-in, and however many, it
/// keeps its answers, its record grows by exactly those operations, and
/// every getter among them returned the answer held for it.
pub proof fn lemma_stand_in_after(before: RecordingUart, calls: Seq<Call>, after: RecordingUart)
    requires
        carried_out_all(before, calls, after),
    ensures
        after.answers_as(&before),
        after.record@ == before.record@ + calls,
        forall|i: int| 0 <= i < calls.len() ==> #[trigger] before.answers(calls[i]),
    decreases calls.len(),
{
    if calls.len() == 0 {
        assert(before.record@ + calls =~= before.record@);
    } else {
        let mid = choose|mid: RecordingUart|
            carried_out_all(before, calls.drop_last(), mid) && #[trigger] mid.carried_out(
                calls.last(),
                &after,
            );
        lemma_stand_in_after(before, calls.drop_last(), mid);
        assert(calls =~= calls.drop_last().push(calls.last()));
        assert(after.record@ =~= before.record@ + calls);
        assert forall|i: int| 0 <= i < calls.len() implies #[trigger] before.answers(calls[i]) by {
            if i < calls.len() - 1 {
                assert(calls[i] == calls.drop_last()[i]);
            }
        }
    }
}

impl UartControl for RecordingUart {
    open spec fn calls(&self) -> Seq<Call> {
        self.record@
    }

    /// The stand-in carries an operation out by recording it. Its answers
    /// stay as they are, and a getter returns the answer held for it.
    open spec fn carried_out(&self, call: Call, after: &Self) -> bool {
        &&& after.record@ == self.record@.push(call)
        &&& after.answers_as(self)
        &&& self.answers(call)
    }

    fn get_word_length(&mut self) -> (word_length: u8) {
        self.record.push(Call::GetWordLength(self.word_length));
        self.word_length
    }

    fn set_word_length(&mut self, word_length: u8) {
        self.record.push(Call::SetWordLength(word_length));
    }

    fn enable_fifo(&mut self) {
        self.record.push(Call::EnableFifo);
    }

    fn enable_receiver_buffer_interrupts(&mut self) {
        self.record.push(Call::EnableReceiverBufferInterrupts);
    }

    fn enable_divisor_latch_access_bit(&mut self) {
        self.record.push(Call::EnableDivisorLatchAccessBit);
    }

    fn disable_divisor_latch_access_bit(&mut self) {
        self.record.push(Call::DisableDivisorLatchAccessBit);
    }

    fn set_divisor_least(&mut self, divisor_least: u8) {
        self.record.push(Call::SetDivisorLeast(divisor_least));
    }

    fn set_divisor_most(&mut self, divisor_most: u8) {
        self.record.push(Call::SetDivisorMost(divisor_most));
    }

    fn set_thr(&mut self, c: u8) {
        self.record.push(Call::SetThr(c));
    }

    fn get_dr(&mut self) -> (flag: u8) {
        self.record.push(Call::GetDr(self.data_ready));
        self.data_ready
    }

    fn get_rhr(&mut self) -> (byte: u8) {
        self.record.push(Call::GetRhr(self.received));
        self.received
    }
}

} // verus!
