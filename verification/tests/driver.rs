use uart_driver::uart::internal::Call;
use uart_driver::uart::recording::RecordingUart;
use uart_driver::uart::{data_is_ready, split_divisor, UARTDriver, DIVISOR, EIGHT_DATA_BITS};

/// The operations that construction must have carried out, in order.
fn setup_uart_expectations() -> Vec<Call> {
    vec![
        Call::SetWordLength(0b11),
        Call::EnableFifo,
        Call::EnableReceiverBufferInterrupts,
        Call::EnableDivisorLatchAccessBit,
        Call::SetDivisorLeast(u8::try_from(592 & 0xff).unwrap()),
        Call::SetDivisorMost(u8::try_from(592 >> 8).unwrap()),
        Call::DisableDivisorLatchAccessBit,
    ]
}

fn occurrences(record: &[Call], wanted: fn(&Call) -> bool) -> usize {
    record.iter().filter(|call| wanted(call)).count()
}

#[test]
fn it_should_put_on_thr_on_write() {
    let uart = RecordingUart::new();
    let mut uart_writer = UARTDriver::new(uart);
    assert!(uart_writer.write_str("c").is_ok());

    let mut expected = setup_uart_expectations();
    expected.push(Call::SetThr('c' as u8));
    assert_eq!(uart_writer.uart().record, expected);
    assert_eq!(occurrences(&uart_writer.uart().record, |call| matches!(call, Call::SetThr(_))), 1);
}

#[test]
fn it_should_put_thr_on_put() {
    let uart = RecordingUart::new();
    let mut uart_driver = UARTDriver::new(uart);
    uart_driver.put(b'c');

    let mut expected = setup_uart_expectations();
    expected.push(Call::SetThr('c' as u8));
    assert_eq!(uart_driver.uart().record, expected);
    assert_eq!(occurrences(&uart_driver.uart().record, |call| matches!(call, Call::SetThr(_))), 1);
}

#[test]
fn it_should_get_none_if_dr_is_0() {
    let mut uart = RecordingUart::new();
    uart.data_ready = 0;
    let mut uart_driver = UARTDriver::new(uart);
    assert!(uart_driver.get().is_none());

    let mut expected = setup_uart_expectations();
    expected.push(Call::GetDr(0));
    assert_eq!(uart_driver.uart().record, expected);
    assert_eq!(occurrences(&uart_driver.uart().record, |call| matches!(call, Call::GetDr(_))), 1);
    assert_eq!(occurrences(&uart_driver.uart().record, |call| matches!(call, Call::GetRhr(_))), 0);
}

#[test]
fn it_should_get_rhr_if_dr_is_1() {
    let mut uart = RecordingUart::new();
    uart.data_ready = 1;
    uart.received = b'a';
    let mut uart_driver = UARTDriver::new(uart);
    assert!(uart_driver.get() == Some(b'a'));

    let mut expected = setup_uart_expectations();
    expected.push(Call::GetDr(1));
    expected.push(Call::GetRhr(b'a'));
    assert_eq!(uart_driver.uart().record, expected);
    assert_eq!(occurrences(&uart_driver.uart().record, |call| matches!(call, Call::GetDr(_))), 1);
    assert_eq!(occurrences(&uart_driver.uart().record, |call| matches!(call, Call::GetRhr(_))), 1);
}

#[test]
fn it_should_init_uart() {
    let uart = RecordingUart::new();
    let uart_driver = UARTDriver::new(uart);
    assert_eq!(uart_driver.uart().record, setup_uart_expectations());
}

#[test]
fn construction_programs_divisor_592_as_0x50_and_0x02() {
    let driver = UARTDriver::new(RecordingUart::new());
    let record = &driver.uart().record;
    assert_eq!(record.len(), 7);
    assert_eq!(record[0], Call::SetWordLength(0b11));
    assert_eq!(record[1], Call::EnableFifo);
    assert_eq!(record[2], Call::EnableReceiverBufferInterrupts);
    assert_eq!(record[3], Call::EnableDivisorLatchAccessBit);
    assert_eq!(record[4], Call::SetDivisorLeast(0x50));
    assert_eq!(record[5], Call::SetDivisorMost(0x02));
    assert_eq!(record[6], Call::DisableDivisorLatchAccessBit);
    assert_eq!(occurrences(record, |call| matches!(call, Call::SetDivisorLeast(_))), 1);
    assert_eq!(occurrences(record, |call| matches!(call, Call::SetDivisorMost(_))), 1);
}

#[test]
fn construction_keeps_what_was_recorded_before() {
    let mut uart = RecordingUart::new();
    uart.record.push(Call::GetWordLength(1));
    let driver = UARTDriver::new(uart);
    let mut expected = vec![Call::GetWordLength(1)];
    expected.extend(setup_uart_expectations());
    assert_eq!(driver.uart().record, expected);
}

#[test]
fn the_driver_holds_the_capability_it_was_given() {
    let mut uart = RecordingUart::new();
    uart.word_length = 2;
    uart.data_ready = 1;
    uart.received = 0x00;
    uart.record.push(Call::GetDr(1));
    let mut driver = UARTDriver::new(uart);
    assert_eq!(driver.uart().word_length, 2);
    assert_eq!(driver.uart().data_ready, 1);
    assert_eq!(driver.uart().received, 0x00);
    assert_eq!(driver.uart().record[0], Call::GetDr(1));
    assert_eq!(driver.uart().record.len(), 8);

    driver.put(0x41);
    assert_eq!(driver.get(), Some(0x00));
    assert_eq!(driver.uart().word_length, 2);
    assert_eq!(driver.uart().data_ready, 1);
    assert_eq!(driver.uart().received, 0x00);
    assert_eq!(
        driver.uart().record[8..].to_vec(),
        vec![Call::SetThr(0x41), Call::GetDr(1), Call::GetRhr(0x00)]
    );
}

#[test]
fn divisor_latch_is_open_exactly_around_the_divisor_writes() {
    let driver = UARTDriver::new(RecordingUart::new());
    let record = &driver.uart().record;
    let opened =
        record.iter().position(|call| *call == Call::EnableDivisorLatchAccessBit).unwrap();
    let closed =
        record.iter().position(|call| *call == Call::DisableDivisorLatchAccessBit).unwrap();
    assert!(opened < closed);
    for (index, call) in record.iter().enumerate() {
        let divisor_write = matches!(call, Call::SetDivisorLeast(_) | Call::SetDivisorMost(_));
        assert_eq!(divisor_write, opened < index && index < closed);
    }
    assert_eq!(occurrences(record, |call| *call == Call::EnableDivisorLatchAccessBit), 1);
    assert_eq!(occurrences(record, |call| *call == Call::DisableDivisorLatchAccessBit), 1);
}

#[test]
fn the_constants_of_the_bring_up() {
    assert_eq!(DIVISOR, 592);
    assert_eq!(EIGHT_DATA_BITS, 0b11);
}

#[test]
fn split_divisor_gives_low_then_high_byte() {
    assert_eq!(split_divisor(592), (0x50, 0x02));
    assert_eq!(split_divisor(0), (0, 0));
    assert_eq!(split_divisor(0x00ff), (0xff, 0x00));
    assert_eq!(split_divisor(0x0100), (0x00, 0x01));
    assert_eq!(split_divisor(0xffff), (0xff, 0xff));
    assert_eq!(split_divisor(0xabcd), (0xcd, 0xab));
}

#[test]
fn split_divisor_loses_nothing() {
    for divisor in [0u16, 1, 255, 256, 592, 0x1234, 0x8000, 0xffff] {
        let (least, most) = split_divisor(divisor);
        assert_eq!(u16::from(most) * 256 + u16::from(least), divisor);
    }
}

#[test]
fn write_of_two_bytes_transmits_them_in_order() {
    let mut driver = UARTDriver::new(RecordingUart::new());
    driver.write(b"ab");
    let mut expected = setup_uart_expectations();
    expected.push(Call::SetThr(0x61));
    expected.push(Call::SetThr(0x62));
    assert_eq!(driver.uart().record, expected);
}

#[test]
fn write_str_of_two_characters_transmits_them_in_order() {
    let mut driver = UARTDriver::new(RecordingUart::new());
    assert!(driver.write_str("ab").is_ok());
    let sent: Vec<Call> = driver.uart().record[7..].to_vec();
    assert_eq!(sent, vec![Call::SetThr(0x61), Call::SetThr(0x62)]);
}

#[test]
fn write_of_nothing_transmits_nothing() {
    let mut driver = UARTDriver::new(RecordingUart::new());
    driver.write(&[]);
    assert!(driver.write_str("").is_ok());
    assert_eq!(driver.uart().record, setup_uart_expectations());
}

#[test]
fn write_transmits_every_byte_unchanged() {
    let bytes: Vec<u8> = (0..=255u8).collect();
    let mut driver = UARTDriver::new(RecordingUart::new());
    driver.write(&bytes);
    let sent = &driver.uart().record[7..];
    assert_eq!(sent.len(), bytes.len());
    for (call, byte) in sent.iter().zip(bytes.iter()) {
        assert_eq!(*call, Call::SetThr(*byte));
    }
}

#[test]
fn write_str_transmits_the_utf8_bytes_of_the_text() {
    let mut driver = UARTDriver::new(RecordingUart::new());
    assert!(driver.write_str("h\u{e9}").is_ok());
    let sent: Vec<Call> = driver.uart().record[7..].to_vec();
    assert_eq!(sent, vec![Call::SetThr(b'h'), Call::SetThr(0xc3), Call::SetThr(0xa9)]);
}

#[test]
fn successive_writes_append() {
    let mut driver = UARTDriver::new(RecordingUart::new());
    driver.write(b"a");
    driver.put(b'b');
    driver.write(b"cd");
    let sent: Vec<Call> = driver.uart().record[7..].to_vec();
    assert_eq!(
        sent,
        vec![Call::SetThr(b'a'), Call::SetThr(b'b'), Call::SetThr(b'c'), Call::SetThr(b'd')]
    );
}

#[test]
fn only_the_flag_1_says_that_a_byte_waits() {
    assert!(data_is_ready(1));
    assert!(!data_is_ready(0));
    assert!(!data_is_ready(2));
    assert!(!data_is_ready(0xff));
}

#[test]
fn get_returns_nothing_for_a_flag_that_is_neither_0_nor_1() {
    let mut uart = RecordingUart::new();
    uart.data_ready = 3;
    uart.received = b'z';
    let mut driver = UARTDriver::new(uart);
    assert_eq!(driver.get(), None);
    let polled: Vec<Call> = driver.uart().record[7..].to_vec();
    assert_eq!(polled, vec![Call::GetDr(3)]);
}

#[test]
fn get_returns_the_received_byte_unchanged_whatever_it_is() {
    for byte in [0x00u8, 0x01, 0x61, 0x7f, 0x80, 0xff] {
        let mut uart = RecordingUart::new();
        uart.data_ready = 1;
        uart.received = byte;
        let mut driver = UARTDriver::new(uart);
        assert_eq!(driver.get(), Some(byte));
        let polled: Vec<Call> = driver.uart().record[7..].to_vec();
        assert_eq!(polled, vec![Call::GetDr(1), Call::GetRhr(byte)]);
    }
}

#[test]
fn every_poll_reads_the_flag_once() {
    let mut uart = RecordingUart::new();
    uart.data_ready = 1;
    uart.received = b'k';
    let mut driver = UARTDriver::new(uart);
    assert_eq!(driver.get(), Some(b'k'));
    assert_eq!(driver.get(), Some(b'k'));
    let polled: Vec<Call> = driver.uart().record[7..].to_vec();
    assert_eq!(
        polled,
        vec![Call::GetDr(1), Call::GetRhr(b'k'), Call::GetDr(1), Call::GetRhr(b'k')]
    );
}
