use uart_driver::uart::internal::{Call, UartControl};
use uart_driver::uart::recording::RecordingUart;

#[test]
fn a_new_stand_in_has_recorded_nothing_and_answers_0() {
    let mut uart = RecordingUart::new();
    assert!(uart.record.is_empty());
    assert_eq!(uart.get_word_length(), 0);
    assert_eq!(uart.get_dr(), 0);
    assert_eq!(uart.get_rhr(), 0);
}

#[test]
fn the_stand_in_records_every_operation_in_order() {
    let mut uart = RecordingUart::new();
    uart.word_length = 2;
    uart.data_ready = 1;
    uart.received = 0x41;

    assert_eq!(uart.get_word_length(), 2);
    uart.set_word_length(3);
    uart.enable_fifo();
    uart.enable_receiver_buffer_interrupts();
    uart.enable_divisor_latch_access_bit();
    uart.set_divisor_least(0x50);
    uart.set_divisor_most(0x02);
    uart.disable_divisor_latch_access_bit();
    uart.set_thr(0x63);
    assert_eq!(uart.get_dr(), 1);
    assert_eq!(uart.get_rhr(), 0x41);

    assert_eq!(
        uart.record,
        vec![
            Call::GetWordLength(2),
            Call::SetWordLength(3),
            Call::EnableFifo,
            Call::EnableReceiverBufferInterrupts,
            Call::EnableDivisorLatchAccessBit,
            Call::SetDivisorLeast(0x50),
            Call::SetDivisorMost(0x02),
            Call::DisableDivisorLatchAccessBit,
            Call::SetThr(0x63),
            Call::GetDr(1),
            Call::GetRhr(0x41),
        ]
    );
}

#[test]
fn the_stand_in_keeps_its_answers() {
    let mut uart = RecordingUart::new();
    uart.data_ready = 1;
    uart.received = 0x7a;
    for _ in 0..3 {
        assert_eq!(uart.get_dr(), 1);
        assert_eq!(uart.get_rhr(), 0x7a);
        uart.set_thr(0x00);
    }
    assert_eq!(uart.word_length, 0);
    assert_eq!(uart.data_ready, 1);
    assert_eq!(uart.received, 0x7a);
    assert_eq!(uart.record.len(), 9);
}
